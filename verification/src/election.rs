//! The record of one election, and the checks a record must pass before a
//! store is taken up from it.

use crate::model::{tallies, weights, ElectionView};
use crate::proposals::{ledger, Proposal};
use crate::sums::{lemma_sum_prefix, lemma_sum_step, sum};
use crate::types::{AccountId, ElectionState, RegistrationState};
use crate::voters::{consumed_hold_nothing, has_distinct_accounts, roll, VoterRecord};
use vstd::prelude::*;

verus! {

/// The record of one election together with its two ledgers.
#[derive(Clone, Debug, PartialEq, Eq)]
pub struct Election {
    /// Assigned at creation, never changed.
    pub id: u32,
    /// Assigned at creation, never changed.
    pub name: Vec<u8>,
    pub owner: AccountId,
    pub requires_registration: bool,
    pub registration_state: RegistrationState,
    pub election_state: ElectionState,
    /// Fixed at creation; only the tallies move.
    pub proposals: Vec<Proposal>,
    pub voters: Vec<VoterRecord>,
}

impl View for Election {
    type V = ElectionView;

    open spec fn view(&self) -> ElectionView {
        ElectionView {
            name: self.name@,
            owner: self.owner,
            requires_registration: self.requires_registration,
            registration_state: self.registration_state,
            election_state: self.election_state,
            proposals: ledger(self.proposals@),
            voters: roll(self.voters@),
        }
    }
}

impl Election {
    /// Whether the weight in the roll plus the weight cast equals the number of records.
    pub(crate) fn is_balanced(&self) -> (r: bool)
        ensures
            r == self@.is_balanced(),
    {
        let ghost held = weights(self@.voters);
        let ghost cast = tallies(self@.proposals);
        let bound: u128 = self.voters.len() as u128;
        let mut total: u128 = 0;
        let mut i: usize = 0;
        while i < self.voters.len()
            invariant
                i <= self.voters.len(),
                held == weights(self@.voters),
                bound == self.voters@.len(),
                total == sum(held.take(i as int)),
                total <= bound,
            decreases self.voters.len() - i,
        {
            let weight = self.voters[i].weight;
            proof {
                lemma_sum_step(held, i as int);
                lemma_sum_prefix(held, i + 1);
            }
            if weight > bound - total {
                return false;
            }
            total = total + weight;
            i += 1;
        }
        assert(held.take(self.voters@.len() as int) =~= held);
        let mut p: usize = 0;
        while p < self.proposals.len()
            invariant
                p <= self.proposals.len(),
                held == weights(self@.voters),
                cast == tallies(self@.proposals),
                bound == self.voters@.len(),
                total == sum(held) + sum(cast.take(p as int)),
                total <= bound,
            decreases self.proposals.len() - p,
        {
            let tally = self.proposals[p].tally;
            proof {
                lemma_sum_step(cast, p as int);
                lemma_sum_prefix(cast, p + 1);
            }
            if tally > bound - total {
                return false;
            }
            total = total + tally;
            p += 1;
        }
        assert(cast.take(self.proposals@.len() as int) =~= cast);
        total == bound
    }

    /// Whether the roll holds one record per principal and no consumed
    /// record that holds weight.
    pub(crate) fn is_roll_sound(&self) -> (r: bool)
        ensures
            r == self@.roll_is_sound(),
    {
        has_distinct_accounts(&self.voters) && consumed_hold_nothing(&self.voters)
    }

    /// Whether this record satisfies the invariant of an election.
    pub fn is_well_formed(&self) -> (r: bool)
        ensures
            r == self@.wf(),
    {
        self.proposals.len() > 0 && self.is_roll_sound() && self.is_balanced()
    }
}

} // verus!

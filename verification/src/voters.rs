//! The voter ledger of one election: one record per principal, in the order of entry.

use crate::election::Election;
use crate::model::{distinct_accounts, lemma_voter_index, voter_index, VoterView};
use crate::types::AccountId;
use vstd::prelude::*;

verus! {

/// The voting allowance of one principal in one election.
#[derive(Clone, Copy, Debug, PartialEq, Eq)]
pub struct VoterRecord {
    pub account: AccountId,
    /// What is left to spend.
    pub weight: u128,
    /// Set once the weight was spent down to exactly zero.
    pub consumed: bool,
}

impl View for VoterRecord {
    type V = VoterView;

    open spec fn view(&self) -> VoterView {
        VoterView { account: self.account, weight: self.weight as nat, consumed: self.consumed }
    }
}

/// The model of a list of records.
pub open spec fn roll(records: Seq<VoterRecord>) -> Seq<VoterView> {
    records.map_values(|r: VoterRecord| r@)
}

/// Finds the record of `account`.
pub(crate) fn find_voter(records: &Vec<VoterRecord>, account: &AccountId) -> (r: Option<usize>)
    ensures
        match r {
            Some(k) => {
                &&& voter_index(roll(records@), *account) == Some(k as int)
                &&& k < records.len()
                &&& records[k as int].account == *account
            },
            None => voter_index(roll(records@), *account) is None,
        },
{
    let mut k: usize = 0;
    while k < records.len()
        invariant
            k <= records.len(),
            forall|j: int| 0 <= j < k ==> roll(records@)[j].account != *account,
        decreases records.len() - k,
    {
        if records[k].account == *account {
            proof {
                lemma_voter_index(roll(records@), *account);
                assert(roll(records@)[k as int].account == *account);
            }
            return Some(k);
        }
        k += 1;
    }
    proof {
        lemma_voter_index(roll(records@), *account);
    }
    None
}

/// Whether no two records belong to the same principal.
pub(crate) fn has_distinct_accounts(records: &Vec<VoterRecord>) -> (r: bool)
    ensures
        r == distinct_accounts(roll(records@)),
{
    let ghost voters = roll(records@);
    let mut i: usize = 0;
    while i < records.len()
        invariant
            i <= records.len(),
            voters == roll(records@),
            forall|a: int, b: int|
                0 <= a < b < i ==> (#[trigger] voters[a]).account != (#[trigger] voters[b]).account,
        decreases records.len() - i,
    {
        let mut j: usize = 0;
        while j < i
            invariant
                j <= i,
                i < records.len(),
                voters == roll(records@),
                forall|a: int| 0 <= a < j ==> (#[trigger] voters[a]).account != voters[i as int].account,
            decreases i - j,
        {
            if records[j].account == records[i].account {
                assert(voters[j as int].account == voters[i as int].account);
                return false;
            }
            j += 1;
        }
        i += 1;
    }
    true
}

/// Whether every record marked consumed holds no weight.
pub(crate) fn consumed_hold_nothing(records: &Vec<VoterRecord>) -> (r: bool)
    ensures
        r == (forall|k: int|
            0 <= k < records@.len() && (#[trigger] roll(records@)[k]).consumed ==> roll(
                records@,
            )[k].weight == 0),
{
    let ghost voters = roll(records@);
    let mut i: usize = 0;
    while i < records.len()
        invariant
            i <= records.len(),
            voters == roll(records@),
            forall|k: int| 0 <= k < i && (#[trigger] voters[k]).consumed ==> voters[k].weight == 0,
        decreases records.len() - i,
    {
        if records[i].consumed && records[i].weight != 0 {
            assert(voters[i as int].consumed && voters[i as int].weight != 0);
            return false;
        }
        i += 1;
    }
    true
}

impl Election {
    /// What `voter` can still spend; zero without a record.
    pub(crate) fn get_voter_weigth(&self, voter: &AccountId) -> (r: u128)
        ensures
            r == self@.weight_of(*voter),
    {
        match find_voter(&self.voters, voter) {
            Some(k) => self.voters[k].weight,
            None => 0,
        }
    }

    /// Whether `voter` has spent its weight down to zero.
    pub(crate) fn has_voter_voted(&self, voter: &AccountId) -> (r: bool)
        ensures
            r == self@.has_voted(*voter),
    {
        match find_voter(&self.voters, voter) {
            Some(k) => self.voters[k].consumed,
            None => false,
        }
    }
}

/// Where the record of a registered principal sits, with the facts that come with it.
pub(crate) proof fn lemma_record_position(election: Election, account: AccountId) -> (k: int)
    requires
        election@.is_registered(account),
    ensures
        election@.position(account) == Some(k),
        0 <= k < election.voters@.len(),
        election.voters@[k].account == account,
        election.voters@[k].weight == election@.weight_of(account),
{
    lemma_voter_index(election@.voters, account);
    election@.position(account).unwrap()
}

} // verus!

//! The steps that write to the voter ledger or the proposal ledger of one
//! election. They are taken only after every gate has been passed.

use super::InkVotingDapp;
use crate::election::Election;
use crate::model::{byte_strings, fresh_proposals, ElectionView, ProposalView};
use crate::proposals::{copy_bytes, find_proposal, Proposal};
use crate::types::{AccountId, ElectionState, RegistrationState};
use crate::voters::{find_voter, lemma_record_position, VoterRecord};
use vstd::prelude::*;

verus! {

impl InkVotingDapp {
    /// Enters a fresh record for `voter` at the end of the roll.
    pub(super) fn register_voter(&mut self, voter: &AccountId, election_id: u32)
        requires
            old(self).inv(),
            old(self)@.has_election(election_id),
        ensures
            final(self).inv(),
            final(self)@ == old(self)@.with_election(
                election_id,
                old(self)@.election(election_id).enroll(*voter),
            ),
    {
        let k = self.slot(election_id);
        self.elections[k].voters.push(VoterRecord { account: *voter, weight: 1, consumed: false });
        proof {
            assert(self.elections@[k as int]@.voters =~= old(self)@.election(
                election_id,
            ).enroll(*voter).voters);
        }
    }

    /// Enters a fresh record for `voter` unless it has one.
    pub(super) fn ensure_voter_record(&mut self, election_id: u32, voter: &AccountId)
        requires
            old(self).wf(),
            old(self)@.has_election(election_id),
        ensures
            final(self).wf(),
            final(self)@ == old(self)@.with_election(
                election_id,
                old(self)@.election(election_id).ensure(*voter),
            ),
    {
        if !self.is_voter_registered(election_id, voter) {
            self.register_voter(voter, election_id);
            proof {
                let e = old(self)@.election(election_id);
                e.lemma_enroll(*voter);
                old(self)@.lemma_with_election_wf(election_id, e.enroll(*voter));
            }
        }
    }

    /// Takes `weight` from the record of `voter` and marks it consumed once
    /// nothing is left.
    pub(super) fn subtract_weight(&mut self, election_id: u32, voter: &AccountId, weight: u128)
        requires
            old(self).inv(),
            old(self)@.has_election(election_id),
            old(self)@.election(election_id).is_registered(*voter),
            weight <= old(self)@.election(election_id).weight_of(*voter),
        ensures
            final(self).inv(),
            final(self)@ == old(self)@.with_election(
                election_id,
                old(self)@.election(election_id).spend(*voter, weight as nat),
            ),
    {
        let k = self.slot(election_id);
        let at = find_voter(&self.elections[k].voters, voter).unwrap();
        let voter_weight = self.elections[k].voters[at].weight;
        if voter_weight - weight == 0 {
            self.elections[k].voters[at] = VoterRecord {
                account: *voter,
                weight: 0,
                consumed: true,
            };
        } else {
            self.elections[k].voters[at] = VoterRecord {
                account: *voter,
                weight: voter_weight - weight,
                consumed: false,
            };
        }
        proof {
            assert(self.elections@[k as int]@.voters =~= old(self)@.election(election_id).spend(
                *voter,
                weight as nat,
            ).voters);
        }
    }

    /// Moves `weight` from the record of `delegator_address` to that of
    /// `delegate`, which becomes spendable again.
    pub(super) fn delegate(
        &mut self,
        election_id: u32,
        delegate: &AccountId,
        delegator_address: &AccountId,
        weight: u128,
    )
        requires
            old(self).wf(),
            old(self)@.has_election(election_id),
            old(self)@.election(election_id).is_registered(*delegate),
            old(self)@.election(election_id).is_registered(*delegator_address),
            weight <= old(self)@.election(election_id).weight_of(*delegator_address),
        ensures
            final(self).inv(),
            final(self)@ == old(self)@.with_election(
                election_id,
                old(self)@.election(election_id).credit(*delegate, weight as nat).spend(
                    *delegator_address,
                    weight as nat,
                ),
            ),
    {
        let k = self.slot(election_id);
        let at = find_voter(&self.elections[k].voters, delegate).unwrap();
        let weight_delegate = self.elections[k].voters[at].weight;
        proof {
            let e = old(self)@.election(election_id);
            let from = lemma_record_position(self.elections@[k as int], *delegator_address);
            e.lemma_bounds(at as int, 0);
            e.lemma_bounds(from, 0);
            e.lemma_credit(*delegate, weight as nat);
        }
        self.elections[k].voters[at] = VoterRecord {
            account: *delegate,
            weight: weight_delegate + weight,
            consumed: false,
        };
        proof {
            assert(self.elections@[k as int]@.voters =~= old(self)@.election(election_id).credit(
                *delegate,
                weight as nat,
            ).voters);
        }
        self.subtract_weight(election_id, delegator_address, weight);
    }

    /// Adds `weight` to the tally that `proposal` resolves to and takes it
    /// from the record of `voter_address`.
    pub(super) fn _vote(
        &mut self,
        election_id: u32,
        proposal: &Vec<u8>,
        voter_address: &AccountId,
        weight: u128,
    )
        requires
            old(self).wf(),
            old(self)@.has_election(election_id),
            old(self)@.election(election_id).proposal_index(proposal@) is Some,
            old(self)@.election(election_id).is_registered(*voter_address),
            weight <= old(self)@.election(election_id).weight_of(*voter_address),
        ensures
            final(self).inv(),
            final(self)@ == old(self)@.with_election(
                election_id,
                old(self)@.election(election_id).add_votes(
                    old(self)@.election(election_id).proposal_index(proposal@).unwrap(),
                    weight as nat,
                ).spend(*voter_address, weight as nat),
            ),
    {
        let k = self.slot(election_id);
        let proposal_id = find_proposal(&self.elections[k].proposals, proposal).unwrap();
        let vote_proposal = self.elections[k].proposals[proposal_id].tally;
        proof {
            let e = old(self)@.election(election_id);
            let at = lemma_record_position(self.elections@[k as int], *voter_address);
            e.lemma_bounds(at, proposal_id as int);
            assert(e.voters.len() == self.elections@[k as int].voters.len());
        }
        self.elections[k].proposals[proposal_id].tally = vote_proposal + weight;
        proof {
            assert(self.elections@[k as int]@.proposals =~= old(self)@.election(
                election_id,
            ).add_votes(proposal_id as int, weight as nat).proposals);
        }
        self.subtract_weight(election_id, voter_address, weight);
    }

    /// Appends a proposal with nothing cast on it to the election that is
    /// being created. `proposal_id` is its position in the list; the label
    /// index resolves to the position of the latest proposal that carries a label.
    pub(super) fn insert_proposal(
        &mut self,
        election_id: u32,
        proposal: &Vec<u8>,
        proposal_id: usize,
    )
        requires
            old(self).ids_in_place(),
            old(self)@.has_election(election_id),
            proposal_id == old(self)@.election(election_id).proposals.len(),
        ensures
            final(self).ids_in_place(),
            final(self).election_nonce == old(self).election_nonce,
            final(self).election_count == old(self).election_count,
            final(self)@ == old(self)@.with_election(
                election_id,
                (ElectionView {
                    proposals: old(self)@.election(election_id).proposals.push(
                        ProposalView { label: proposal@, tally: 0 },
                    ),
                    ..old(self)@.election(election_id)
                }),
            ),
    {
        let k = self.slot(election_id);
        self.elections[k].proposals.push(Proposal { label: copy_bytes(proposal), tally: 0 });
        proof {
            assert(self.elections@[k as int]@.proposals =~= old(self)@.election(
                election_id,
            ).proposals.push(ProposalView { label: proposal@, tally: 0 }));
        }
    }

    /// Appends the record of a new election, then its proposals in list
    /// order; the counters are left to the caller.
    pub(super) fn insert_election(
        &mut self,
        name: &Vec<u8>,
        election_id: u32,
        owner: AccountId,
        required_registration: bool,
        proposals: &Vec<Vec<u8>>,
    )
        requires
            old(self).wf(),
            election_id == old(self).election_nonce,
        ensures
            final(self).ids_in_place(),
            final(self).election_nonce == old(self).election_nonce,
            final(self).election_count == old(self).election_count,
            final(self)@.elections == old(self)@.elections.push(
                ElectionView::fresh(name@, owner, required_registration, byte_strings(proposals@)),
            ),
    {
        self.elections.push(
            Election {
                id: election_id,
                name: copy_bytes(name),
                owner,
                requires_registration: required_registration,
                registration_state: RegistrationState::RegistrationClosed,
                election_state: ElectionState::ElectionClosed,
                proposals: Vec::new(),
                voters: Vec::new(),
            },
        );
        let ghost listed = fresh_proposals(byte_strings(proposals@));
        let ghost fresh = ElectionView::fresh(
            name@,
            owner,
            required_registration,
            byte_strings(proposals@),
        );
        proof {
            let created = self.elections@.last()@;
            assert(created.proposals =~= listed.take(0));
            assert(created.voters =~= fresh.voters);
        }
        let mut i: usize = 0;
        while i < proposals.len()
            invariant
                i <= proposals.len(),
                self.ids_in_place(),
                self.election_nonce == old(self).election_nonce,
                self.election_count == old(self).election_count,
                election_id == old(self)@.elections.len() + 1,
                listed == fresh_proposals(byte_strings(proposals@)),
                fresh == ElectionView::fresh(
                    name@,
                    owner,
                    required_registration,
                    byte_strings(proposals@),
                ),
                self@.elections == old(self)@.elections.push(
                    ElectionView { proposals: listed.take(i as int), ..fresh },
                ),
            decreases proposals.len() - i,
        {
            self.insert_proposal(election_id, &proposals[i], i);
            proof {
                assert(listed.take(i + 1) =~= listed.take(i as int).push(listed[i as int]));
            }
            i += 1;
        }
        proof {
            assert(listed.take(proposals@.len() as int) =~= listed);
        }
    }
}

} // verus!

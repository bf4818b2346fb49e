//! The authorization and lifecycle guard: every precondition of every
//! operation. A gate only looks; none of them changes the store.

use super::InkVotingDapp;
use crate::proposals::find_proposal;
use crate::types::{AccountId, Error};
use crate::voters::{find_voter, VoterRecord};
use vstd::prelude::*;

verus! {

impl InkVotingDapp {
    /// Refuses a name that is taken.
    pub(super) fn check_double_election(&self, name: &Vec<u8>) -> (r: Result<(), Error>)
        requires
            self.wf(),
        ensures
            r == if self@.has_name(name@) {
                Err::<(), Error>(Error::ElectionNotValid)
            } else {
                Ok::<(), Error>(())
            },
    {
        if self._election_name_exists(name) {
            Err(Error::ElectionNotValid)
        } else {
            Ok(())
        }
    }

    /// Refuses an empty proposal list.
    pub(super) fn check_sufficient_proposals(&self, proposals: &Vec<Vec<u8>>) -> (r: Result<
        (),
        Error,
    >)
        ensures
            r == if proposals@.len() == 0 {
                Err::<(), Error>(Error::InsufficientProposals)
            } else {
                Ok::<(), Error>(())
            },
    {
        if proposals.len() == 0 {
            Err(Error::InsufficientProposals)
        } else {
            Ok(())
        }
    }

    /// Whether `account` owns the election. What does not exist belongs to
    /// the all-zero principal.
    pub(super) fn is_owner(&self, account: &AccountId, election_id: u32) -> (r: bool)
        requires
            self.wf(),
        ensures
            r == (*account == self@.owner_of(election_id)),
    {
        *account == self.get_owner_of_election(election_id)
    }

    /// The ownership gate.
    pub(super) fn only_owner(&self, election_id: u32, address: &AccountId) -> (r: Result<(), Error>)
        requires
            self.wf(),
        ensures
            r == if *address == self@.owner_of(election_id) {
                Ok::<(), Error>(())
            } else {
                Err::<(), Error>(Error::OnlyOwner)
            },
    {
        if !self.is_owner(address, election_id) {
            Err(Error::OnlyOwner)
        } else {
            Ok(())
        }
    }

    /// The lifecycle gate before a vote.
    pub(super) fn check_election_open(&self, election_id: u32) -> (r: Result<(), Error>)
        requires
            self.wf(),
        ensures
            r == if self@.is_open(election_id) {
                Ok::<(), Error>(())
            } else {
                Err::<(), Error>(Error::ElectionClosed)
            },
    {
        if !self._is_election_open(election_id) {
            Err(Error::ElectionClosed)
        } else {
            Ok(())
        }
    }

    /// The lifecycle gate before an explicit registration.
    pub(super) fn check_registration_open(&self, election_id: u32) -> (r: Result<(), Error>)
        requires
            self.wf(),
        ensures
            r == if self@.registration_is_open(election_id) {
                Ok::<(), Error>(())
            } else {
                Err::<(), Error>(Error::RegistrationClosed)
            },
    {
        if !self._is_registration_open(election_id) {
            Err(Error::RegistrationClosed)
        } else {
            Ok(())
        }
    }

    /// Whether `voter_address` has a record in the election.
    pub(super) fn is_voter_registered(&self, election_id: u32, voter_address: &AccountId) -> (r:
        bool)
        requires
            self.wf(),
        ensures
            r == self@.is_registered(election_id, *voter_address),
    {
        if self._election_id_exists(election_id) {
            let k = self.slot(election_id);
            find_voter(&self.elections[k].voters, voter_address).is_some()
        } else {
            false
        }
    }

    /// Refuses a principal without a record.
    pub(super) fn check_voter_registered(
        &self,
        election_id: u32,
        voter_address: &AccountId,
    ) -> (r: Result<(), Error>)
        requires
            self.wf(),
        ensures
            r == if self@.is_registered(election_id, *voter_address) {
                Ok::<(), Error>(())
            } else {
                Err::<(), Error>(Error::VoterNotRegistred)
            },
    {
        if !self.is_voter_registered(election_id, voter_address) {
            Err(Error::VoterNotRegistred)
        } else {
            Ok(())
        }
    }

    /// The registration-requirement gate. It only looks: where the election
    /// does not require registration the missing record is entered later,
    /// once every gate has been passed.
    pub(super) fn check_if_registration_needed(
        &self,
        election_id: u32,
        voter_address: &AccountId,
    ) -> (r: Result<(), Error>)
        requires
            self.wf(),
            self@.has_election(election_id),
        ensures
            r == if self@.election(election_id).admits(*voter_address) {
                Ok::<(), Error>(())
            } else {
                Err::<(), Error>(Error::VoterNotRegistred)
            },
    {
        let k = self.slot(election_id);
        if self.elections[k].requires_registration {
            self.check_voter_registered(election_id, voter_address)?;
        }
        Ok(())
    }

    /// The record of `voter_address`, or the fresh record it would be given.
    pub(super) fn resolve_voter(&self, election_id: u32, voter_address: &AccountId) -> (r:
        VoterRecord)
        requires
            self.wf(),
            self@.has_election(election_id),
        ensures
            r@ == self@.election(election_id).resolve(*voter_address),
    {
        let k = self.slot(election_id);
        match find_voter(&self.elections[k].voters, voter_address) {
            Some(at) => self.elections[k].voters[at],
            None => VoterRecord { account: *voter_address, weight: 1, consumed: false },
        }
    }

    /// The eligibility gate for spending `weight`: a consumed record is
    /// refused first, then one that holds too little.
    pub(super) fn check_voter_can_vote(
        &self,
        election_id: u32,
        voter_address: &AccountId,
        weight: u128,
    ) -> (r: Result<(), Error>)
        requires
            self.wf(),
            self@.has_election(election_id),
        ensures
            r == self@.election(election_id).spending_gate(*voter_address, weight as nat),
    {
        let record = self.resolve_voter(election_id, voter_address);
        if record.consumed {
            Err(Error::VoterHasAlreadyVoted)
        } else if record.weight < weight {
            Err(Error::VoterHasNotSoMuchWeight)
        } else {
            Ok(())
        }
    }

    /// The proposal-validity gate.
    pub(super) fn check_proposal_valid(&self, election_id: u32, proposal: &Vec<u8>) -> (r: Result<
        (),
        Error,
    >)
        requires
            self.wf(),
            self@.has_election(election_id),
        ensures
            r == if self@.election(election_id).proposal_index(proposal@) is Some {
                Ok::<(), Error>(())
            } else {
                Err::<(), Error>(Error::InvalidProposal)
            },
    {
        let k = self.slot(election_id);
        if find_proposal(&self.elections[k].proposals, proposal).is_none() {
            Err(Error::InvalidProposal)
        } else {
            Ok(())
        }
    }
}

} // verus!

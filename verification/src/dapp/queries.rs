//! The read-only surface. Whatever is asked about an election or a principal
//! that does not exist is answered with the default: zero, `false`, nothing.

use super::InkVotingDapp;
use crate::model::{byte_strings, lemma_last_index_of};
use crate::proposals::{copy_bytes, result_view};
use crate::types::{AccountId, ElectionState, RegistrationState};
use vstd::prelude::*;

verus! {

impl InkVotingDapp {
    /// How many elections were ever created. The next identifier always
    /// fits, so the count stays below the greatest identifier.
    pub fn get_number_elections(&self) -> (r: u32)
        requires
            self.wf(),
        ensures
            r == self@.election_count(),
            r < u32::MAX,
    {
        self.election_count
    }

    /// The identifier of the election called `name`; zero where there is none.
    pub fn get_election_id(&self, name: Vec<u8>) -> (r: u32)
        requires
            self.wf(),
        ensures
            r == self@.id_of(name@),
    {
        match self.find_election(&name) {
            Some(k) => self.elections[k].id,
            None => 0,
        }
    }

    /// The names of all elections, in creation order.
    pub fn get_election_list(&self) -> (r: Vec<Vec<u8>>)
        requires
            self.wf(),
        ensures
            byte_strings(r@) == self@.names(),
    {
        let mut r: Vec<Vec<u8>> = Vec::new();
        let mut i: usize = 0;
        while i < self.elections.len()
            invariant
                i <= self.elections@.len(),
                byte_strings(r@) == self@.names().take(i as int),
            decreases self.elections@.len() - i,
        {
            r.push(copy_bytes(&self.elections[i].name));
            proof {
                let all = self@.names();
                assert(all.take(i + 1) =~= all.take(i as int).push(all[i as int]));
            }
            i += 1;
        }
        r
    }

    /// The labels of the election `election_id`, in creation order; none
    /// where it is unknown.
    pub fn get_proposals(&self, election_id: u32) -> (r: Vec<Vec<u8>>)
        requires
            self.wf(),
        ensures
            byte_strings(r@) == self@.proposals_of(election_id),
    {
        if self._election_id_exists(election_id) {
            let k = self.slot(election_id);
            self.elections[k].get_proposals()
        } else {
            let r: Vec<Vec<u8>> = Vec::new();
            r
        }
    }

    /// The labels of the election called `name`, in creation order; none
    /// where there is no such election.
    pub fn get_proposal_for_election(&self, name: Vec<u8>) -> (r: Vec<Vec<u8>>)
        requires
            self.wf(),
        ensures
            byte_strings(r@) == self@.proposals_named(name@),
    {
        proof {
            lemma_last_index_of(self@.names(), name@);
        }
        let election_id = self.get_election_id(name);
        self.get_proposals(election_id)
    }

    /// The owner of the election; the all-zero principal where it is unknown.
    pub fn get_owner_of_election(&self, election_id: u32) -> (r: AccountId)
        requires
            self.wf(),
        ensures
            r == self@.owner_of(election_id),
    {
        if self._election_id_exists(election_id) {
            let k = self.slot(election_id);
            self.elections[k].owner
        } else {
            AccountId::default()
        }
    }

    /// Whether an election is called `name`.
    pub fn election_exists(&self, name: Vec<u8>) -> (r: bool)
        requires
            self.wf(),
        ensures
            r == self@.has_name(name@),
    {
        self._election_name_exists(&name)
    }

    /// Whether the election exists and accepts votes.
    pub fn is_election_open(&self, election_id: u32) -> (r: bool)
        requires
            self.wf(),
        ensures
            r == self@.is_open(election_id),
    {
        self._is_election_open(election_id)
    }

    /// Whether the election exists and accepts votes.
    pub(super) fn _is_election_open(&self, election_id: u32) -> (r: bool)
        requires
            self.wf(),
        ensures
            r == self@.is_open(election_id),
    {
        if self._election_id_exists(election_id) {
            let k = self.slot(election_id);
            self.elections[k].election_state == ElectionState::ElectionOpen
        } else {
            false
        }
    }

    /// Whether the election exists and its roll accepts entries.
    pub fn is_registration_open(&self, election_id: u32) -> (r: bool)
        requires
            self.wf(),
        ensures
            r == self@.registration_is_open(election_id),
    {
        self._is_registration_open(election_id)
    }

    /// Whether the election exists and its roll accepts entries.
    pub(super) fn _is_registration_open(&self, election_id: u32) -> (r: bool)
        requires
            self.wf(),
        ensures
            r == self@.registration_is_open(election_id),
    {
        if self._election_id_exists(election_id) {
            let k = self.slot(election_id);
            self.elections[k].registration_state == RegistrationState::RegistrationOpen
        } else {
            false
        }
    }

    /// Whether `account` has a voter record in the election.
    pub fn is_account_registered(&self, election_id: u32, account: AccountId) -> (r: bool)
        requires
            self.wf(),
        ensures
            r == self@.is_registered(election_id, account),
    {
        self.is_voter_registered(election_id, &account)
    }

    /// Every label of the election with the weight cast on it, in creation
    /// order; nothing where the election is unknown.
    pub fn get_result_election(&self, election_id: u32) -> (r: Vec<(Vec<u8>, u128)>)
        requires
            self.wf(),
        ensures
            result_view(r@) == self@.results(election_id),
    {
        if self._election_id_exists(election_id) {
            let k = self.slot(election_id);
            self.elections[k].get_result_election()
        } else {
            let r: Vec<(Vec<u8>, u128)> = Vec::new();
            r
        }
    }

    /// The weight cast on `proposal`; zero where the election or the label is unknown.
    pub fn get_votes_proposal(&self, election_id: u32, proposal: Vec<u8>) -> (r: u128)
        requires
            self.wf(),
        ensures
            r == self@.votes_for(election_id, proposal@),
    {
        if self._election_id_exists(election_id) {
            let k = self.slot(election_id);
            self.elections[k].get_votes_proposal(&proposal)
        } else {
            0
        }
    }

    /// The leading proposal of the election with the weight cast on it.
    ///
    /// Of several proposals with the greatest weight the earliest wins. Where
    /// nothing has been cast, or the election is unknown, the answer is the
    /// empty label with zero: there is no winner yet.
    pub fn get_winner(&self, election_id: u32) -> (r: (Vec<u8>, u128))
        requires
            self.wf(),
        ensures
            (r.0@, r.1 as nat) == self@.winner(election_id),
    {
        if self._election_id_exists(election_id) {
            let k = self.slot(election_id);
            self.elections[k].get_winner()
        } else {
            (Vec::new(), 0)
        }
    }

    /// What `voter` can still spend in the election; zero where either is unknown.
    pub fn get_voter_weigth(&self, election_id: u32, voter: AccountId) -> (r: u128)
        requires
            self.wf(),
        ensures
            r == self@.weight_of(election_id, voter),
    {
        if self._election_id_exists(election_id) {
            let k = self.slot(election_id);
            self.elections[k].get_voter_weigth(&voter)
        } else {
            0
        }
    }

    /// Whether `voter` has spent its weight in the election down to zero.
    pub fn has_voter_voted(&self, election_id: u32, voter: AccountId) -> (r: bool)
        requires
            self.wf(),
        ensures
            r == self@.has_voted(election_id, voter),
    {
        if self._election_id_exists(election_id) {
            let k = self.slot(election_id);
            self.elections[k].has_voter_voted(&voter)
        } else {
            false
        }
    }
}

} // verus!

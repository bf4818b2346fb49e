//! The election registry: creation, ownership and the two lifecycle flags.

use super::InkVotingDapp;
use crate::events::{
    ChangeOwnership, CloseElection, CloseRegistration, ElectionCreated, OpenElection,
    OpenRegistration,
};
use crate::model::{byte_strings, StoreView};
use crate::types::{AccountId, ElectionState, Error, RegistrationState, Timestamp};
use vstd::prelude::*;

verus! {

impl InkVotingDapp {
    /// Creates an election owned by `caller` and returns the notification,
    /// which carries the identifier it was given.
    ///
    /// A name that is taken is refused with `ElectionNotValid`, then an empty
    /// proposal list with `InsufficientProposals`. Identifiers are handed out
    /// in creation order, starting at 1; a refused call hands out none.
    pub fn create_election(
        &mut self,
        caller: AccountId,
        name: Vec<u8>,
        required_registration: bool,
        proposals: Vec<Vec<u8>>,
    ) -> (r: Result<ElectionCreated, Error>)
        requires
            old(self).wf(),
            !old(self)@.has_name(name@) && proposals@.len() > 0 ==> old(self)@.next_id() < u32::MAX,
        ensures
            final(self).wf(),
            match r {
                Ok(event) => {
                    &&& old(self)@.create_election(
                        caller,
                        name@,
                        required_registration,
                        byte_strings(proposals@),
                    ) == Ok::<StoreView, Error>(final(self)@)
                    &&& event.name@ == name@
                    &&& event.id == old(self)@.next_id()
                    &&& event.owner == caller
                    &&& event.require_registration == required_registration
                },
                Err(e) => {
                    &&& old(self)@.create_election(
                        caller,
                        name@,
                        required_registration,
                        byte_strings(proposals@),
                    ) == Err::<StoreView, Error>(e)
                    &&& final(self)@ == old(self)@
                    &&& *final(self) == *old(self)
                },
            },
            old(self)@.has_name(name@) ==> r == Err::<ElectionCreated, Error>(
                Error::ElectionNotValid,
            ),
    {
        self.check_double_election(&name)?;
        self.check_sufficient_proposals(&proposals)?;
        let election_id = self.election_nonce;
        self.insert_election(&name, election_id, caller, required_registration, &proposals);
        self.election_nonce += 1;
        self.election_count += 1;
        proof {
            old(self)@.lemma_create_election_wf(
                caller,
                name@,
                required_registration,
                byte_strings(proposals@),
            );
        }
        Ok(
            ElectionCreated {
                name,
                id: election_id,
                owner: caller,
                require_registration: required_registration,
            },
        )
    }

    /// Hands the election over to `new_owner`. Only the owner may do so.
    pub fn change_ownership(
        &mut self,
        caller: AccountId,
        election_id: u32,
        new_owner: AccountId,
    ) -> (r: Result<ChangeOwnership, Error>)
        requires
            old(self).wf(),
        ensures
            final(self).wf(),
            match r {
                Ok(event) => {
                    &&& old(self)@.change_ownership(caller, election_id, new_owner) == Ok::<
                        StoreView,
                        Error,
                    >(final(self)@)
                    &&& event == (ChangeOwnership { election_id, new_owner })
                },
                Err(e) => {
                    &&& old(self)@.change_ownership(caller, election_id, new_owner) == Err::<
                        StoreView,
                        Error,
                    >(e)
                    &&& final(self)@ == old(self)@
                    &&& *final(self) == *old(self)
                },
            },
    {
        self.check_id_existence(election_id)?;
        self.only_owner(election_id, &caller)?;
        let k = self.slot(election_id);
        self.elections[k].owner = new_owner;
        proof {
            assert(self@.elections =~= old(self)@.change_ownership(
                caller,
                election_id,
                new_owner,
            )->Ok_0.elections);
            old(self)@.lemma_change_ownership_wf(caller, election_id, new_owner);
        }
        Ok(ChangeOwnership { election_id, new_owner })
    }

    /// Sets the registration flag on behalf of `caller`.
    fn set_registration(
        &mut self,
        caller: AccountId,
        election_id: u32,
        state: RegistrationState,
    ) -> (r: Result<(), Error>)
        requires
            old(self).wf(),
        ensures
            final(self).wf(),
            match r {
                Ok(_) => old(self)@.set_registration(caller, election_id, state) == Ok::<
                    StoreView,
                    Error,
                >(final(self)@),
                Err(e) => {
                    &&& old(self)@.set_registration(caller, election_id, state) == Err::<
                        StoreView,
                        Error,
                    >(e)
                    &&& final(self)@ == old(self)@
                    &&& *final(self) == *old(self)
                },
            },
    {
        self.check_id_existence(election_id)?;
        self.only_owner(election_id, &caller)?;
        let k = self.slot(election_id);
        self.elections[k].registration_state = state;
        proof {
            assert(self@.elections =~= old(self)@.set_registration(
                caller,
                election_id,
                state,
            )->Ok_0.elections);
            old(self)@.lemma_set_registration_wf(caller, election_id, state);
        }
        Ok(())
    }

    /// Sets the voting flag on behalf of `caller`.
    fn set_election_state(
        &mut self,
        caller: AccountId,
        election_id: u32,
        state: ElectionState,
    ) -> (r: Result<(), Error>)
        requires
            old(self).wf(),
        ensures
            final(self).wf(),
            match r {
                Ok(_) => old(self)@.set_election_state(caller, election_id, state) == Ok::<
                    StoreView,
                    Error,
                >(final(self)@),
                Err(e) => {
                    &&& old(self)@.set_election_state(caller, election_id, state) == Err::<
                        StoreView,
                        Error,
                    >(e)
                    &&& final(self)@ == old(self)@
                    &&& *final(self) == *old(self)
                },
            },
    {
        self.check_id_existence(election_id)?;
        self.only_owner(election_id, &caller)?;
        let k = self.slot(election_id);
        self.elections[k].election_state = state;
        proof {
            assert(self@.elections =~= old(self)@.set_election_state(
                caller,
                election_id,
                state,
            )->Ok_0.elections);
            old(self)@.lemma_set_election_state_wf(caller, election_id, state);
        }
        Ok(())
    }

    /// Opens the roll of the election. Only the owner may do so.
    pub fn open_registration(
        &mut self,
        caller: AccountId,
        election_id: u32,
        date: Timestamp,
    ) -> (r: Result<OpenRegistration, Error>)
        requires
            old(self).wf(),
        ensures
            final(self).wf(),
            match r {
                Ok(event) => {
                    &&& old(self)@.set_registration(
                        caller,
                        election_id,
                        RegistrationState::RegistrationOpen,
                    ) == Ok::<StoreView, Error>(final(self)@)
                    &&& event == (OpenRegistration { election_id, date })
                },
                Err(e) => {
                    &&& old(self)@.set_registration(
                        caller,
                        election_id,
                        RegistrationState::RegistrationOpen,
                    ) == Err::<StoreView, Error>(e)
                    &&& final(self)@ == old(self)@
                    &&& *final(self) == *old(self)
                },
            },
    {
        self.set_registration(caller, election_id, RegistrationState::RegistrationOpen)?;
        Ok(OpenRegistration { election_id, date })
    }

    /// Closes the roll of the election. Only the owner may do so.
    pub fn close_registration(
        &mut self,
        caller: AccountId,
        election_id: u32,
        date: Timestamp,
    ) -> (r: Result<CloseRegistration, Error>)
        requires
            old(self).wf(),
        ensures
            final(self).wf(),
            match r {
                Ok(event) => {
                    &&& old(self)@.set_registration(
                        caller,
                        election_id,
                        RegistrationState::RegistrationClosed,
                    ) == Ok::<StoreView, Error>(final(self)@)
                    &&& event == (CloseRegistration { election_id, date })
                },
                Err(e) => {
                    &&& old(self)@.set_registration(
                        caller,
                        election_id,
                        RegistrationState::RegistrationClosed,
                    ) == Err::<StoreView, Error>(e)
                    &&& final(self)@ == old(self)@
                    &&& *final(self) == *old(self)
                },
            },
    {
        self.set_registration(caller, election_id, RegistrationState::RegistrationClosed)?;
        Ok(CloseRegistration { election_id, date })
    }

    /// Opens the election for votes. Only the owner may do so.
    pub fn open_election(
        &mut self,
        caller: AccountId,
        election_id: u32,
        date: Timestamp,
    ) -> (r: Result<OpenElection, Error>)
        requires
            old(self).wf(),
        ensures
            final(self).wf(),
            match r {
                Ok(event) => {
                    &&& old(self)@.set_election_state(
                        caller,
                        election_id,
                        ElectionState::ElectionOpen,
                    ) == Ok::<StoreView, Error>(final(self)@)
                    &&& event == (OpenElection { election_id, date })
                },
                Err(e) => {
                    &&& old(self)@.set_election_state(
                        caller,
                        election_id,
                        ElectionState::ElectionOpen,
                    ) == Err::<StoreView, Error>(e)
                    &&& final(self)@ == old(self)@
                    &&& *final(self) == *old(self)
                },
            },
    {
        self.set_election_state(caller, election_id, ElectionState::ElectionOpen)?;
        Ok(OpenElection { election_id, date })
    }

    /// Closes the election for votes. Only the owner may do so.
    pub fn close_election(
        &mut self,
        caller: AccountId,
        election_id: u32,
        date: Timestamp,
    ) -> (r: Result<CloseElection, Error>)
        requires
            old(self).wf(),
        ensures
            final(self).wf(),
            match r {
                Ok(event) => {
                    &&& old(self)@.set_election_state(
                        caller,
                        election_id,
                        ElectionState::ElectionClosed,
                    ) == Ok::<StoreView, Error>(final(self)@)
                    &&& event == (CloseElection { election_id, date })
                },
                Err(e) => {
                    &&& old(self)@.set_election_state(
                        caller,
                        election_id,
                        ElectionState::ElectionClosed,
                    ) == Err::<StoreView, Error>(e)
                    &&& final(self)@ == old(self)@
                    &&& *final(self) == *old(self)
                },
            },
    {
        self.set_election_state(caller, election_id, ElectionState::ElectionClosed)?;
        Ok(CloseElection { election_id, date })
    }
}

} // verus!

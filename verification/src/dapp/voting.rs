//! Registration, votes and delegations.

use super::InkVotingDapp;
use crate::events::{Delegate, Registered, Voted};
use crate::model::StoreView;
use crate::types::{AccountId, Error};
use vstd::prelude::*;

verus! {

impl InkVotingDapp {
    /// Enters `voter` in the roll of the election, with a weight of 1.
    ///
    /// Refused with `ElectionNotValid` for an unknown election, then with
    /// `RegistrationClosed` while the roll is closed, then with
    /// `VoterAlreadyRegistered` where `voter` has a record.
    pub fn register(&mut self, election_id: u32, voter: AccountId) -> (r: Result<Registered, Error>)
        requires
            old(self).wf(),
        ensures
            final(self).wf(),
            match r {
                Ok(event) => {
                    &&& old(self)@.register(election_id, voter) == Ok::<StoreView, Error>(
                        final(self)@,
                    )
                    &&& event == (Registered { voter, election_id })
                },
                Err(e) => {
                    &&& old(self)@.register(election_id, voter) == Err::<StoreView, Error>(e)
                    &&& final(self)@ == old(self)@
                    &&& *final(self) == *old(self)
                },
            },
    {
        self.check_id_existence(election_id)?;
        self.check_registration_open(election_id)?;
        if self.is_voter_registered(election_id, &voter) {
            return Err(Error::VoterAlreadyRegistered);
        }
        self.register_voter(&voter, election_id);
        proof {
            old(self)@.lemma_register_wf(election_id, voter);
        }
        Ok(Registered { voter, election_id })
    }

    /// Enters `caller` in the roll of the election.
    pub fn register_me(&mut self, caller: AccountId, election_id: u32) -> (r: Result<Registered, Error>)
        requires
            old(self).wf(),
        ensures
            final(self).wf(),
            match r {
                Ok(event) => {
                    &&& old(self)@.register(election_id, caller) == Ok::<StoreView, Error>(
                        final(self)@,
                    )
                    &&& event == (Registered { voter: caller, election_id })
                },
                Err(e) => {
                    &&& old(self)@.register(election_id, caller) == Err::<StoreView, Error>(e)
                    &&& final(self)@ == old(self)@
                    &&& *final(self) == *old(self)
                },
            },
    {
        self.register(election_id, caller)
    }

    /// `caller` casts `weight` on `proposal`.
    ///
    /// The gates, in order: `ElectionNotValid` for an unknown election,
    /// `ElectionClosed`, `VoterNotRegistred` where registration is required
    /// and missing, `VoterHasAlreadyVoted` for a consumed record,
    /// `VoterHasNotSoMuchWeight`, `InvalidProposal`. A caller without a
    /// record in an election that requires no registration is entered with a
    /// weight of 1, but only once every gate has been passed.
    pub fn vote(
        &mut self,
        caller: AccountId,
        election_id: u32,
        proposal: Vec<u8>,
        weight: u128,
    ) -> (r: Result<Voted, Error>)
        requires
            old(self).wf(),
        ensures
            final(self).wf(),
            match r {
                Ok(event) => {
                    &&& old(self)@.vote(caller, election_id, proposal@, weight as nat) == Ok::<
                        StoreView,
                        Error,
                    >(final(self)@)
                    &&& event.voter == caller
                    &&& event.proposal@ == proposal@
                    &&& event.weight == weight
                },
                Err(e) => {
                    &&& old(self)@.vote(caller, election_id, proposal@, weight as nat) == Err::<
                        StoreView,
                        Error,
                    >(e)
                    &&& final(self)@ == old(self)@
                    &&& *final(self) == *old(self)
                },
            },
            !old(self)@.has_election(election_id) ==> r == Err::<Voted, Error>(
                Error::ElectionNotValid,
            ),
    {
        self.check_id_existence(election_id)?;
        self.check_election_open(election_id)?;
        let voter_address = caller;
        self.check_if_registration_needed(election_id, &voter_address)?;
        self.check_voter_can_vote(election_id, &voter_address, weight)?;
        self.check_proposal_valid(election_id, &proposal)?;
        proof {
            old(self)@.election(election_id).lemma_ensure(voter_address);
        }
        self.ensure_voter_record(election_id, &voter_address);
        self._vote(election_id, &proposal, &voter_address, weight);
        proof {
            assert(self@.elections =~= old(self)@.vote(
                caller,
                election_id,
                proposal@,
                weight as nat,
            )->Ok_0.elections);
            old(self)@.lemma_vote_wf(caller, election_id, proposal@, weight as nat);
        }
        Ok(Voted { voter: voter_address, proposal, weight })
    }

    /// `caller` hands `weight` to `delegate`, whether or not the election is open.
    ///
    /// The gates, in order: `ElectionNotValid` for an unknown election,
    /// `VoterNotRegistred` where registration is required and the caller or
    /// the delegate has no record, `VoterHasAlreadyVoted` where the caller's
    /// record is consumed, `VoterHasNotSoMuchWeight`. The delegate's record
    /// becomes spendable again; the caller's is consumed if nothing is left.
    pub fn delegate_vote(
        &mut self,
        caller: AccountId,
        election_id: u32,
        delegate: AccountId,
        weight: u128,
    ) -> (r: Result<Delegate, Error>)
        requires
            old(self).wf(),
        ensures
            final(self).wf(),
            match r {
                Ok(event) => {
                    &&& old(self)@.delegate_vote(caller, election_id, delegate, weight as nat)
                        == Ok::<StoreView, Error>(final(self)@)
                    &&& event == (Delegate { election_id, delegate, delegator: caller })
                },
                Err(e) => {
                    &&& old(self)@.delegate_vote(caller, election_id, delegate, weight as nat)
                        == Err::<StoreView, Error>(e)
                    &&& final(self)@ == old(self)@
                    &&& *final(self) == *old(self)
                },
            },
    {
        self.check_id_existence(election_id)?;
        let delegator = caller;
        self.check_if_registration_needed(election_id, &delegator)?;
        self.check_if_registration_needed(election_id, &delegate)?;
        self.check_voter_can_vote(election_id, &delegator, weight)?;
        proof {
            let e0 = old(self)@.election(election_id);
            let e1 = e0.ensure(delegator);
            let e2 = e1.ensure(delegate);
            e0.lemma_ensure(delegator);
            e1.lemma_ensure(delegate);
            assert(e2.resolve(delegator) == e1.resolve(delegator));
        }
        self.ensure_voter_record(election_id, &delegator);
        self.ensure_voter_record(election_id, &delegate);
        self.delegate(election_id, &delegate, &delegator, weight);
        proof {
            assert(self@.elections =~= old(self)@.delegate_vote(
                caller,
                election_id,
                delegate,
                weight as nat,
            )->Ok_0.elections);
            old(self)@.lemma_delegate_vote_wf(caller, election_id, delegate, weight as nat);
        }
        Ok(Delegate { election_id, delegate, delegator })
    }
}

} // verus!

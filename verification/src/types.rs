//! Plain values shared by every part of the engine: principals, timestamps,
//! lifecycle flags and the error kinds.

use vstd::prelude::*;

verus! {

/// Moment of a lifecycle change, as the host reports it.
pub type Timestamp = u64;

/// An authenticated principal: thirty-two opaque bytes handed over by the host.
///
/// The engine never looks inside; it only compares principals for equality.
#[derive(Clone, Copy, Debug)]
pub struct AccountId(pub [u8; 32]);

impl AccountId {
    /// The all-zero principal, reported as the owner of an unknown election.
    pub open spec fn zero() -> AccountId {
        AccountId(vstd::array::spec_array_fill_for_copy_type::<u8, 32>(0u8))
    }
}

impl PartialEq for AccountId {
    fn eq(&self, other: &Self) -> (r: bool) {
        let mut i: usize = 0;
        while i < 32
            invariant
                i <= 32,
                forall|j: int| 0 <= j < i ==> self.0[j] == other.0[j],
            decreases 32 - i,
        {
            if self.0[i] != other.0[i] {
                return false;
            }
            i += 1;
        }
        proof {
            assert(self.0 =~= other.0);
        }
        true
    }
}

impl Eq for AccountId {

}

impl vstd::std_specs::cmp::PartialEqSpecImpl for AccountId {
    open spec fn obeys_eq_spec() -> bool {
        true
    }

    open spec fn eq_spec(&self, other: &Self) -> bool {
        *self == *other
    }
}

impl Default for AccountId {
    fn default() -> (r: Self)
        ensures
            r == AccountId::zero(),
    {
        AccountId([0u8; 32])
    }
}

/// Why an operation was refused.
#[derive(Clone, Copy, Debug, PartialEq, Eq, Structural)]
pub enum Error {
    /// An election needs at least one proposal.
    InsufficientProposals,
    /// The election is unknown, or its name is already taken.
    ElectionNotValid,
    /// The election requires registration and the principal has no voter record.
    VoterNotRegistred,
    /// The requested weight exceeds what the voter has left.
    VoterHasNotSoMuchWeight,
    /// The voter's weight has been driven to zero by an earlier spend.
    VoterHasAlreadyVoted,
    /// The label names no proposal of the election.
    InvalidProposal,
    /// The caller does not own the election.
    OnlyOwner,
    /// Voting is not open.
    ElectionClosed,
    /// Registration is not open.
    RegistrationClosed,
    /// The principal already has a voter record.
    VoterAlreadyRegistered,
}

/// Whether the voter roll of an election accepts new entries.
#[derive(Clone, Copy, Debug, PartialEq, Eq, Structural)]
pub enum RegistrationState {
    RegistrationOpen,
    RegistrationClosed,
}

impl Default for RegistrationState {
    fn default() -> (r: Self)
        ensures
            r == RegistrationState::RegistrationClosed,
    {
        RegistrationState::RegistrationClosed
    }
}

/// Whether an election accepts votes.
#[derive(Clone, Copy, Debug, PartialEq, Eq, Structural)]
pub enum ElectionState {
    ElectionOpen,
    ElectionClosed,
}

impl Default for ElectionState {
    fn default() -> (r: Self)
        ensures
            r == ElectionState::ElectionClosed,
    {
        ElectionState::ElectionClosed
    }
}

} // verus!

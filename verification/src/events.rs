//! Notifications. Every operation that changes the store hands back exactly one
//! of these values for the host to publish; a refused operation hands back none.

use crate::types::{AccountId, Timestamp};
use vstd::prelude::*;

verus! {

/// An election was created and `owner` now administers it.
#[derive(Clone, Debug, PartialEq, Eq)]
pub struct ElectionCreated {
    pub name: Vec<u8>,
    pub id: u32,
    pub owner: AccountId,
    pub require_registration: bool,
}

/// `voter` spent `weight` on `proposal`.
#[derive(Clone, Debug, PartialEq, Eq)]
pub struct Voted {
    pub voter: AccountId,
    pub proposal: Vec<u8>,
    pub weight: u128,
}

/// `voter` was entered in the roll of an election.
#[derive(Clone, Copy, Debug, PartialEq, Eq)]
pub struct Registered {
    pub voter: AccountId,
    pub election_id: u32,
}

/// The roll of an election started accepting entries.
#[derive(Clone, Copy, Debug, PartialEq, Eq)]
pub struct OpenRegistration {
    pub election_id: u32,
    pub date: Timestamp,
}

/// The roll of an election stopped accepting entries.
#[derive(Clone, Copy, Debug, PartialEq, Eq)]
pub struct CloseRegistration {
    pub election_id: u32,
    pub date: Timestamp,
}

/// An election started accepting votes.
#[derive(Clone, Copy, Debug, PartialEq, Eq)]
pub struct OpenElection {
    pub election_id: u32,
    pub date: Timestamp,
}

/// An election stopped accepting votes.
#[derive(Clone, Copy, Debug, PartialEq, Eq)]
pub struct CloseElection {
    pub election_id: u32,
    pub date: Timestamp,
}

/// An election was handed to `new_owner`.
#[derive(Clone, Copy, Debug, PartialEq, Eq)]
pub struct ChangeOwnership {
    pub election_id: u32,
    pub new_owner: AccountId,
}

/// `delegator` moved voting weight to `delegate`.
#[derive(Clone, Copy, Debug, PartialEq, Eq)]
pub struct Delegate {
    pub election_id: u32,
    pub delegate: AccountId,
    pub delegator: AccountId,
}

} // verus!

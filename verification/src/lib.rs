//! A verified election engine.
//!
//! An owner creates a named election over a fixed list of proposals. Principals
//! hold voting weight, which they spend on proposals, possibly over several
//! calls, or hand to another principal. The engine keeps the whole state in one
//! value, [`dapp::InkVotingDapp`], and every operation on it is specified over the
//! mathematical model in [`model`].
//!
//! The host supplies what the engine cannot know: who is calling and what time
//! it is. Each successful change returns the notification to publish.
//!
//! - [`types`] and [`events`] hold the plain values that cross the boundary.
//! - [`model`] defines the state and every operation as mathematics;
//!   [`invariants`] shows that the operations keep the state well formed, and
//!   [`laws`] states what holds of the engine whatever it is asked to do.
//! - [`election`], [`proposals`] and [`voters`] hold the records the store is
//!   made of; [`sums`] the arithmetic of weights and tallies.
//! - [`dapp`] is the store itself.

pub mod dapp;
pub mod election;
pub mod events;
pub mod invariants;
pub mod laws;
pub mod model;
pub mod proposals;
pub mod sums;
pub mod types;
pub mod voters;

//! What holds of the engine whatever it is asked to do.
//!
//! The laws are stated over the model. The store's operations are specified
//! as the model's operations of the same name, so each law holds of the store as
//! well.

use crate::model::{labels, lemma_last_index_of, lemma_voter_index, ElectionView, StoreView};
use crate::types::{AccountId, ElectionState, Error, RegistrationState};
use vstd::prelude::*;

verus! {

/// One call of `delegate_vote`.
pub struct Delegation {
    pub caller: AccountId,
    pub election_id: u32,
    pub delegate: AccountId,
    pub weight: nat,
}

/// One call of `create_election`.
pub struct Creation {
    pub caller: AccountId,
    pub name: Seq<u8>,
    pub requires_registration: bool,
    pub labels: Seq<Seq<u8>>,
}

/// The store after the delegations `calls`, made in order; a refused call changes nothing.
pub open spec fn after_delegations(start: StoreView, calls: Seq<Delegation>) -> StoreView
    decreases calls.len(),
{
    if calls.len() == 0 {
        start
    } else {
        let before = after_delegations(start, calls.drop_last());
        let call = calls.last();
        match before.delegate_vote(call.caller, call.election_id, call.delegate, call.weight) {
            Ok(after) => after,
            Err(_) => before,
        }
    }
}

/// The store after the creations `calls`, made in order; a refused call changes nothing.
pub open spec fn after_creations(start: StoreView, calls: Seq<Creation>) -> StoreView
    decreases calls.len(),
{
    if calls.len() == 0 {
        start
    } else {
        let before = after_creations(start, calls.drop_last());
        let call = calls.last();
        match before.create_election(
            call.caller,
            call.name,
            call.requires_registration,
            call.labels,
        ) {
            Ok(after) => after,
            Err(_) => before,
        }
    }
}

/// One delegation moves weight inside the roll and creates none, except
/// the fresh weight of each record it enters: the weight in the roll grows by
/// exactly the number of new records, and nothing is cast.
pub proof fn law_delegation_moves_weight(
    election: ElectionView,
    caller: AccountId,
    delegate: AccountId,
    weight: nat,
)
    requires
        election.wf(),
    ensures
        match election.delegate_vote(caller, delegate, weight) {
            Ok(after) => {
                &&& after.voters.len() >= election.voters.len()
                &&& after.total_weight() - election.total_weight() == after.voters.len()
                    - election.voters.len()
                &&& after.proposals == election.proposals
            },
            Err(_) => true,
        },
{
    if let Ok(after) = election.delegate_vote(caller, delegate, weight) {
        election.lemma_delegate_vote_wf(caller, delegate, weight);
        let e1 = election.ensure(caller);
        let e2 = e1.ensure(delegate);
        election.lemma_ensure(caller);
        e1.lemma_ensure(delegate);
        e2.lemma_credit(delegate, weight);
        let e3 = e2.credit(delegate, weight);
        if caller != delegate {
            assert(e3.resolve(caller) == e2.resolve(caller));
        }
        e3.lemma_spend(caller, weight);
    }
}

/// Over any sequence of delegations, accepted or refused, the weight in the
/// roll of any election grows by exactly the number of records entered on the
/// way: a delegation creates no weight but the fresh weight of a new record.
pub proof fn law_delegation_accounts_for_every_record(
    start: StoreView,
    calls: Seq<Delegation>,
    id: u32,
)
    requires
        start.wf(),
    ensures
        after_delegations(start, calls).wf(),
        after_delegations(start, calls).has_election(id) == start.has_election(id),
        after_delegations(start, calls).voter_count(id) >= start.voter_count(id),
        after_delegations(start, calls).total_weight(id) - start.total_weight(id)
            == after_delegations(start, calls).voter_count(id) - start.voter_count(id),
    decreases calls.len(),
{
    if calls.len() > 0 {
        let before = after_delegations(start, calls.drop_last());
        let call = calls.last();
        law_delegation_accounts_for_every_record(start, calls.drop_last(), id);
        before.lemma_delegate_vote_wf(call.caller, call.election_id, call.delegate, call.weight);
        if before.delegate_vote(call.caller, call.election_id, call.delegate, call.weight) is Ok {
            law_delegation_moves_weight(
                before.election(call.election_id),
                call.caller,
                call.delegate,
                call.weight,
            );
        }
    }
}

/// Weight conservation. Over any sequence of delegations, accepted or
/// refused, that enters no record in an election, the total weight in its roll
/// is the same before and after.
pub proof fn law_delegation_conserves_weight(start: StoreView, calls: Seq<Delegation>, id: u32)
    requires
        start.wf(),
        after_delegations(start, calls).voter_count(id) == start.voter_count(id),
    ensures
        after_delegations(start, calls).total_weight(id) == start.total_weight(id),
{
    law_delegation_accounts_for_every_record(start, calls, id);
}

/// A vote takes exactly the spent weight out of the roll and adds it to
/// what was cast, apart from the fresh weight of a record it enters.
pub proof fn law_vote_moves_weight_to_tally(
    election: ElectionView,
    caller: AccountId,
    label: Seq<u8>,
    weight: nat,
)
    requires
        election.wf(),
    ensures
        match election.vote(caller, label, weight) {
            Ok(after) => {
                &&& after.total_votes() == election.total_votes() + weight
                &&& after.total_weight() + weight == election.total_weight() + (after.voters.len()
                    - election.voters.len())
                &&& after.votes_for(label) == election.votes_for(label) + weight
            },
            Err(_) => true,
        },
{
    if election.vote(caller, label, weight) is Ok {
        let p = election.proposal_index(label).unwrap();
        lemma_last_index_of(labels(election.proposals), label);
        election.lemma_vote_wf(caller, label, weight);
        election.lemma_ensure(caller);
        election.ensure(caller).lemma_add_votes(p, weight);
    }
}

/// Single spend, for votes. While a record is consumed, a vote by its
/// holder in an open election is refused with `VoterHasAlreadyVoted`, whatever
/// the label and the weight.
pub proof fn law_consumed_cannot_vote(
    store: StoreView,
    caller: AccountId,
    id: u32,
    label: Seq<u8>,
    weight: nat,
)
    requires
        store.has_voted(id, caller),
        store.is_open(id),
    ensures
        store.vote(caller, id, label, weight) == Err::<StoreView, Error>(
            Error::VoterHasAlreadyVoted,
        ),
{
}

/// Single spend, for delegations. While a record is consumed, a delegation
/// by its holder is refused with `VoterHasAlreadyVoted`, whatever the weight,
/// provided the delegate passes the registration gate.
pub proof fn law_consumed_cannot_delegate(
    store: StoreView,
    caller: AccountId,
    id: u32,
    delegate: AccountId,
    weight: nat,
)
    requires
        store.has_voted(id, caller),
        store.election(id).admits(delegate),
    ensures
        store.delegate_vote(caller, id, delegate, weight) == Err::<StoreView, Error>(
            Error::VoterHasAlreadyVoted,
        ),
{
}

/// Single spend, over time. A consumed record stays consumed under every
/// operation of anybody, except an accepted delegation to its holder, which
/// makes it spendable again.
pub proof fn law_consumed_stays_consumed(
    store: StoreView,
    holder: AccountId,
    id: u32,
    caller: AccountId,
    on: u32,
    other: AccountId,
    name: Seq<u8>,
    label: Seq<u8>,
    list: Seq<Seq<u8>>,
    weight: nat,
    flag: bool,
    registration: RegistrationState,
    voting: ElectionState,
)
    requires
        store.wf(),
        store.has_voted(id, holder),
    ensures
        store.create_election(caller, name, flag, list) matches Ok(after) ==> after.has_voted(
            id,
            holder,
        ),
        store.change_ownership(caller, on, other) matches Ok(after) ==> after.has_voted(id, holder),
        store.set_registration(caller, on, registration) matches Ok(after) ==> after.has_voted(
            id,
            holder,
        ),
        store.set_election_state(caller, on, voting) matches Ok(after) ==> after.has_voted(
            id,
            holder,
        ),
        store.register(on, other) matches Ok(after) ==> after.has_voted(id, holder),
        store.vote(caller, on, label, weight) matches Ok(after) ==> after.has_voted(id, holder),
        store.delegate_vote(caller, on, other, weight) matches Ok(after) ==> (on != id || other
            != holder) ==> after.has_voted(id, holder),
{
    if on == id {
        let election = store.election(id);
        lemma_voter_index(election.voters, holder);
        if store.register(on, other) is Ok {
            election.lemma_enroll(other);
        }
        if store.vote(caller, on, label, weight) is Ok {
            law_vote_touches_one_record_and_one_tally(election, caller, label, weight);
        }
        if store.delegate_vote(caller, on, other, weight) is Ok {
            law_delegation_touches_two_records(election, caller, other, weight);
        }
    }
}

/// A consumed record holds no weight.
pub proof fn law_consumed_means_spent(store: StoreView, id: u32, account: AccountId)
    requires
        store.wf(),
        store.has_voted(id, account),
    ensures
        store.weight_of(id, account) == 0,
{
    let election = store.election(id);
    lemma_voter_index(election.voters, account);
}

/// What an accepted vote changes: the caller's record, by exactly the
/// weight spent, and the tally that the label resolves to, by the same amount.
/// The record is consumed exactly when nothing is left. Every other record and
/// every other tally stays as it was.
pub proof fn law_vote_touches_one_record_and_one_tally(
    election: ElectionView,
    caller: AccountId,
    label: Seq<u8>,
    weight: nat,
)
    requires
        election.wf(),
    ensures
        match election.vote(caller, label, weight) {
            Ok(after) => {
                &&& after.is_registered(caller)
                &&& after.weight_of(caller) + weight == election.resolve(caller).weight
                &&& after.has_voted(caller) == (election.resolve(caller).weight == weight)
                &&& forall|other: AccountId|
                    other != caller ==> #[trigger] after.position(other) == election.position(
                        other,
                    ) && after.resolve(other) == election.resolve(other)
                &&& after.votes_for(label) == election.votes_for(label) + weight
                &&& forall|l: Seq<u8>|
                    l != label ==> #[trigger] after.votes_for(l) == election.votes_for(l)
            },
            Err(_) => true,
        },
{
    if let Ok(after) = election.vote(caller, label, weight) {
        let p = election.proposal_index(label).unwrap();
        lemma_last_index_of(labels(election.proposals), label);
        let e1 = election.ensure(caller);
        let e2 = e1.add_votes(p, weight);
        election.lemma_ensure(caller);
        e1.lemma_add_votes(p, weight);
        e2.lemma_spend(caller, weight);
        assert forall|other: AccountId| other != caller implies #[trigger] after.position(other)
            == election.position(other) && after.resolve(other) == election.resolve(other) by {
            assert(e1.resolve(other) == election.resolve(other));
        }
        assert forall|l: Seq<u8>| l != label implies #[trigger] after.votes_for(l)
            == election.votes_for(l) by {
            lemma_last_index_of(labels(election.proposals), l);
        }
    }
}

/// What an accepted delegation changes: the delegate's record grows by the
/// weight and is spendable, the caller's shrinks by it and is consumed exactly
/// when nothing is left. A principal that delegates to itself keeps what it
/// had. Every other record stays as it was, and so does every tally.
pub proof fn law_delegation_touches_two_records(
    election: ElectionView,
    caller: AccountId,
    delegate: AccountId,
    weight: nat,
)
    requires
        election.wf(),
    ensures
        match election.delegate_vote(caller, delegate, weight) {
            Ok(after) => {
                &&& after.is_registered(caller)
                &&& after.is_registered(delegate)
                &&& caller != delegate ==> {
                    &&& after.weight_of(delegate) == election.resolve(delegate).weight + weight
                    &&& !after.has_voted(delegate)
                    &&& after.weight_of(caller) + weight == election.resolve(caller).weight
                    &&& after.has_voted(caller) == (election.resolve(caller).weight == weight)
                }
                &&& caller == delegate ==> {
                    &&& after.weight_of(caller) == election.resolve(caller).weight
                    &&& after.has_voted(caller) == (election.resolve(caller).weight == 0)
                }
                &&& forall|other: AccountId|
                    other != caller && other != delegate ==> #[trigger] after.position(other)
                        == election.position(other) && after.resolve(other) == election.resolve(
                        other,
                    )
                &&& after.proposals == election.proposals
            },
            Err(_) => true,
        },
{
    if let Ok(after) = election.delegate_vote(caller, delegate, weight) {
        let e1 = election.ensure(caller);
        let e2 = e1.ensure(delegate);
        let e3 = e2.credit(delegate, weight);
        election.lemma_ensure(caller);
        e1.lemma_ensure(delegate);
        e2.lemma_credit(delegate, weight);
        if caller != delegate {
            assert(e3.resolve(caller) == e2.resolve(caller));
        }
        e3.lemma_spend(caller, weight);
        if caller != delegate {
            assert(after.resolve(delegate) == e3.resolve(delegate));
        }
    }
}

/// A name that is taken is refused with `ElectionNotValid`, whatever else
/// is asked: the store stays as it is, so neither the next identifier nor the
/// count advances.
pub proof fn law_repeated_name_is_refused(
    store: StoreView,
    caller: AccountId,
    name: Seq<u8>,
    requires_registration: bool,
    labels: Seq<Seq<u8>>,
)
    requires
        store.has_name(name),
    ensures
        store.create_election(caller, name, requires_registration, labels) == Err::<
            StoreView,
            Error,
        >(Error::ElectionNotValid),
{
}

/// An accepted creation hands out the next identifier: the new election is
/// found under it and under its name, and both counters advance by one.
pub proof fn law_creation_takes_next_identifier(
    store: StoreView,
    caller: AccountId,
    name: Seq<u8>,
    requires_registration: bool,
    labels: Seq<Seq<u8>>,
)
    requires
        store.wf(),
        store.next_id() <= u32::MAX,
    ensures
        match store.create_election(caller, name, requires_registration, labels) {
            Ok(after) => {
                &&& after.election_count() == store.election_count() + 1
                &&& after.next_id() == store.next_id() + 1
                &&& after.id_of(name) == store.next_id()
                &&& after.election(store.next_id() as u32) == ElectionView::fresh(
                    name,
                    caller,
                    requires_registration,
                    labels,
                )
                &&& forall|id: u32|
                    store.has_election(id) ==> after.has_election(id) && #[trigger] after.election(
                        id,
                    ) == store.election(id)
            },
            Err(_) => true,
        },
{
}

/// Identifier allocation. Creating `n` elections with distinct names, each
/// with at least one proposal, in an empty store: every call is accepted, the
/// call at any position `k` finds `k + 1` as the next identifier, and in the end
/// the election called by its name has that identifier.
pub proof fn law_identifiers_follow_creation_order(calls: Seq<Creation>, k: int)
    requires
        distinct_creations(calls),
        0 <= k < calls.len(),
    ensures
        after_creations(StoreView::empty(), calls).wf(),
        after_creations(StoreView::empty(), calls).election_count() == calls.len(),
        after_creations(StoreView::empty(), calls.take(k)).next_id() == k + 1,
        after_creations(StoreView::empty(), calls.take(k)).create_election(
            calls[k].caller,
            calls[k].name,
            calls[k].requires_registration,
            calls[k].labels,
        ) is Ok,
        after_creations(StoreView::empty(), calls).id_of(calls[k].name) == k + 1,
{
    lemma_creations(calls);
    lemma_creation_accepted(calls, k);
    lemma_name_found(after_creations(StoreView::empty(), calls), k);
}

/// The creations have pairwise distinct names and at least one proposal each.
pub open spec fn distinct_creations(calls: Seq<Creation>) -> bool {
    &&& forall|i: int, j: int|
        0 <= i < j < calls.len() ==> (#[trigger] calls[i]).name != (#[trigger] calls[j]).name
    &&& forall|i: int| 0 <= i < calls.len() ==> (#[trigger] calls[i]).labels.len() > 0
}

/// In a store with unique names, the election at position `k` is found under
/// its name with the identifier `k + 1`.
proof fn lemma_name_found(store: StoreView, k: int)
    requires
        store.wf(),
        0 <= k < store.elections.len(),
    ensures
        store.id_of(store.elections[k].name) == k + 1,
{
    let name = store.elections[k].name;
    lemma_last_index_of(store.names(), name);
    assert(store.names()[k] == name);
}

/// Among creations with distinct names, the one at position `k` is accepted
/// by the store that the earlier ones left behind, and gets `k + 1`.
proof fn lemma_creation_accepted(calls: Seq<Creation>, k: int)
    requires
        distinct_creations(calls),
        0 <= k < calls.len(),
    ensures
        after_creations(StoreView::empty(), calls.take(k)).next_id() == k + 1,
        after_creations(StoreView::empty(), calls.take(k)).create_election(
            calls[k].caller,
            calls[k].name,
            calls[k].requires_registration,
            calls[k].labels,
        ) is Ok,
{
    let prefix = calls.take(k);
    let before = after_creations(StoreView::empty(), prefix);
    lemma_creations(prefix);
    lemma_last_index_of(before.names(), calls[k].name);
}

/// What a run of creations with distinct names and non-empty proposal lists
/// leaves behind in an empty store: one fresh election per call, in call order.
proof fn lemma_creations(calls: Seq<Creation>)
    requires
        distinct_creations(calls),
    ensures
        after_creations(StoreView::empty(), calls).wf(),
        after_creations(StoreView::empty(), calls).elections.len() == calls.len(),
        forall|j: int|
            0 <= j < calls.len() ==> (#[trigger] after_creations(
                StoreView::empty(),
                calls,
            ).elections[j]).name == calls[j].name,
    decreases calls.len(),
{
    if calls.len() > 0 {
        let front = calls.drop_last();
        let call = calls.last();
        lemma_creations(front);
        let before = after_creations(StoreView::empty(), front);
        lemma_last_index_of(before.names(), call.name);
        before.lemma_create_election_wf(
            call.caller,
            call.name,
            call.requires_registration,
            call.labels,
        );
    }
}

/// Gate ordering. A vote in an election that does not exist is refused with
/// `ElectionNotValid`, whatever the caller, the label and the weight.
pub proof fn law_unknown_election_comes_first(
    store: StoreView,
    caller: AccountId,
    id: u32,
    label: Seq<u8>,
    weight: nat,
)
    requires
        !store.has_election(id),
    ensures
        store.vote(caller, id, label, weight) == Err::<StoreView, Error>(Error::ElectionNotValid),
{
}

/// Every operation on an election that does not exist is refused with
/// `ElectionNotValid`.
pub proof fn law_unknown_election_is_refused(
    store: StoreView,
    caller: AccountId,
    id: u32,
    other: AccountId,
    weight: nat,
)
    requires
        !store.has_election(id),
    ensures
        store.register(id, other) == Err::<StoreView, Error>(Error::ElectionNotValid),
        store.delegate_vote(caller, id, other, weight) == Err::<StoreView, Error>(
            Error::ElectionNotValid,
        ),
        store.change_ownership(caller, id, other) == Err::<StoreView, Error>(
            Error::ElectionNotValid,
        ),
        forall|state: RegistrationState| #[trigger]
            store.set_registration(caller, id, state) == Err::<StoreView, Error>(
                Error::ElectionNotValid,
            ),
        forall|state: ElectionState| #[trigger]
            store.set_election_state(caller, id, state) == Err::<StoreView, Error>(
                Error::ElectionNotValid,
            ),
{
}

/// Only the owner administers an election: from anybody else every
/// lifecycle change and every hand-over is refused with `OnlyOwner`.
pub proof fn law_only_owner_administers(
    store: StoreView,
    caller: AccountId,
    id: u32,
    new_owner: AccountId,
)
    requires
        store.has_election(id),
        store.election(id).owner != caller,
    ensures
        store.change_ownership(caller, id, new_owner) == Err::<StoreView, Error>(Error::OnlyOwner),
        forall|state: RegistrationState| #[trigger]
            store.set_registration(caller, id, state) == Err::<StoreView, Error>(Error::OnlyOwner),
        forall|state: ElectionState| #[trigger]
            store.set_election_state(caller, id, state) == Err::<StoreView, Error>(
                Error::OnlyOwner,
            ),
{
}

/// The two lifecycle flags are independent: setting one leaves the other,
/// the owner, the proposals and the roll as they were.
pub proof fn law_lifecycle_flags_are_independent(
    store: StoreView,
    caller: AccountId,
    id: u32,
    registration: RegistrationState,
    voting: ElectionState,
)
    ensures
        match store.set_registration(caller, id, registration) {
            Ok(after) => after.election(id) == (ElectionView {
                registration_state: registration,
                ..store.election(id)
            }),
            Err(_) => true,
        },
        match store.set_election_state(caller, id, voting) {
            Ok(after) => after.election(id) == (ElectionView {
                election_state: voting,
                ..store.election(id)
            }),
            Err(_) => true,
        },
{
}

/// What an election is for good: its name, whether it requires
/// registration, and its proposals in their order.
pub open spec fn same_identity(before: ElectionView, after: ElectionView) -> bool {
    &&& after.name == before.name
    &&& after.requires_registration == before.requires_registration
    &&& labels(after.proposals) == labels(before.proposals)
}

/// `after` holds the elections of `before` under the same identifiers,
/// each with the identity it had.
pub open spec fn same_registry(before: StoreView, after: StoreView) -> bool {
    &&& after.elections.len() == before.elections.len()
    &&& forall|k: int|
        0 <= k < before.elections.len() ==> same_identity(
            #[trigger] before.elections[k],
            after.elections[k],
        )
}

/// Nothing is renamed, renumbered or removed, and no proposal is added,
/// dropped or relabelled: every operation but creation leaves the registry as
/// it was, and creation only appends to it.
pub proof fn law_registry_is_append_only(
    store: StoreView,
    caller: AccountId,
    id: u32,
    other: AccountId,
    name: Seq<u8>,
    label: Seq<u8>,
    list: Seq<Seq<u8>>,
    weight: nat,
    flag: bool,
    registration: RegistrationState,
    voting: ElectionState,
)
    ensures
        store.create_election(caller, name, flag, list) matches Ok(after) ==> after.elections.take(
            store.elections.len() as int,
        ) == store.elections,
        store.change_ownership(caller, id, other) matches Ok(after) ==> same_registry(store, after),
        store.set_registration(caller, id, registration) matches Ok(after) ==> same_registry(
            store,
            after,
        ),
        store.set_election_state(caller, id, voting) matches Ok(after) ==> same_registry(
            store,
            after,
        ),
        store.register(id, other) matches Ok(after) ==> same_registry(store, after),
        store.vote(caller, id, label, weight) matches Ok(after) ==> same_registry(store, after),
        store.delegate_vote(caller, id, other, weight) matches Ok(after) ==> same_registry(
            store,
            after,
        ),
{
    if let Ok(after) = store.vote(caller, id, label, weight) {
        let election = store.election(id);
        let p = election.proposal_index(label).unwrap();
        lemma_last_index_of(labels(election.proposals), label);
        election.ensure(caller).lemma_add_votes(p, weight);
    }
}

} // verus!

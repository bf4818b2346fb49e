//! How the elementary updates of the model behave, and why every operation
//! takes a well-formed state to a well-formed state.

use crate::model::{
    labels, lemma_last_index_of, lemma_voter_index, tallies, voter_index, weights, ElectionView,
    StoreView, VoterView,
};
use crate::sums::{lemma_sum_bounds_entry, lemma_sum_push, lemma_sum_update, lemma_sum_zeros};
use crate::types::{AccountId, ElectionState, RegistrationState};
use vstd::prelude::*;

verus! {

/// A record entered at the end of the roll is found there, unless the
/// principal already had one; every other principal is found where it was.
pub proof fn lemma_voter_index_push(voters: Seq<VoterView>, record: VoterView, account: AccountId)
    ensures
        voter_index(voters.push(record), account) == match voter_index(voters, account) {
            Some(k) => Some(k),
            None => if record.account == account {
                Some(voters.len() as int)
            } else {
                None
            },
        },
{
    assert(voters.push(record).drop_last() =~= voters);
}

/// Rewriting a record without changing its principal moves nobody.
pub proof fn lemma_voter_index_update(
    voters: Seq<VoterView>,
    k: int,
    record: VoterView,
    account: AccountId,
)
    requires
        0 <= k < voters.len(),
        record.account == voters[k].account,
    ensures
        voter_index(voters.update(k, record), account) == voter_index(voters, account),
    decreases voters.len(),
{
    let after = voters.update(k, record);
    if k == voters.len() - 1 {
        assert(after.drop_last() =~= voters.drop_last());
    } else {
        assert(after.drop_last() =~= voters.drop_last().update(k, record));
        lemma_voter_index_update(voters.drop_last(), k, record, account);
    }
}

impl ElectionView {
    /// A newly created election is well formed.
    pub proof fn lemma_fresh_wf(
        name: Seq<u8>,
        owner: AccountId,
        requires_registration: bool,
        labels: Seq<Seq<u8>>,
    )
        requires
            labels.len() > 0,
        ensures
            ElectionView::fresh(name, owner, requires_registration, labels).wf(),
    {
        let e = ElectionView::fresh(name, owner, requires_registration, labels);
        lemma_sum_zeros(tallies(e.proposals));
    }

    /// Entering a principal without a record keeps the election well formed
    /// and adds exactly the fresh weight to the roll.
    pub proof fn lemma_enroll(self, account: AccountId)
        requires
            self.wf(),
            !self.is_registered(account),
        ensures
            self.enroll(account).wf(),
            self.enroll(account).position(account) == Some(self.voters.len() as int),
            self.enroll(account).resolve(account) == self.resolve(account),
            forall|other: AccountId|
                other != account ==> #[trigger] self.enroll(account).position(other)
                    == self.position(other),
            forall|other: AccountId|
                other != account ==> #[trigger] self.enroll(account).resolve(other)
                    == self.resolve(other),
            self.enroll(account).total_weight() == self.total_weight() + 1,
            self.enroll(account).total_votes() == self.total_votes(),
    {
        let after = self.enroll(account);
        let record = VoterView::fresh(account);
        lemma_voter_index(self.voters, account);
        lemma_voter_index_push(self.voters, record, account);
        assert forall|other: AccountId| other != account implies #[trigger] after.position(other)
            == self.position(other) by {
            lemma_voter_index_push(self.voters, record, other);
        }
        assert forall|other: AccountId| other != account implies #[trigger] after.resolve(other)
            == self.resolve(other) by {
            lemma_voter_index_push(self.voters, record, other);
            lemma_voter_index(self.voters, other);
        }
        assert(weights(after.voters) =~= weights(self.voters).push(1));
        lemma_sum_push(weights(self.voters), 1);
    }

    /// Making sure of a record keeps the election well formed, leaves every
    /// existing record where it was, and gives the principal the record that
    /// `resolve` promised.
    pub proof fn lemma_ensure(self, account: AccountId)
        requires
            self.wf(),
        ensures
            self.ensure(account).wf(),
            self.ensure(account).is_registered(account),
            self.ensure(account).resolve(account) == self.resolve(account),
            forall|other: AccountId|
                other != account ==> #[trigger] self.ensure(account).position(other)
                    == self.position(other),
            forall|other: AccountId| #[trigger]
                self.ensure(account).resolve(other) == self.resolve(other),
            self.ensure(account).proposals == self.proposals,
            self.ensure(account).total_votes() == self.total_votes(),
            self.ensure(account).total_weight() - self.total_weight() == self.ensure(
                account,
            ).voters.len() - self.voters.len(),
            self.ensure(account).voters.len() >= self.voters.len(),
    {
        if !self.is_registered(account) {
            self.lemma_enroll(account);
        }
    }

    /// Crediting a record keeps everybody in place and adds the amount to the roll.
    pub proof fn lemma_credit(self, account: AccountId, amount: nat)
        requires
            self.is_registered(account),
        ensures
            forall|other: AccountId| #[trigger]
                self.credit(account, amount).position(other) == self.position(other),
            forall|other: AccountId|
                other != account ==> #[trigger] self.credit(account, amount).resolve(other)
                    == self.resolve(other),
            self.credit(account, amount).voters.len() == self.voters.len(),
            self.credit(account, amount).total_weight() == self.total_weight() + amount,
            self.credit(account, amount).weight_of(account) == self.weight_of(account) + amount,
            !self.credit(account, amount).has_voted(account),
    {
        let k = self.position(account).unwrap();
        lemma_voter_index(self.voters, account);
        let after = self.credit(account, amount);
        let record = after.voters[k];
        assert forall|other: AccountId| #[trigger]
            after.position(other) == self.position(other) by {
            lemma_voter_index_update(self.voters, k, record, other);
        }
        assert forall|other: AccountId| other != account implies #[trigger] after.resolve(other)
            == self.resolve(other) by {
            lemma_voter_index_update(self.voters, k, record, other);
            lemma_voter_index(self.voters, other);
        }
        assert(weights(after.voters) =~= weights(self.voters).update(k, record.weight));
        lemma_sum_update(weights(self.voters), k, record.weight);
    }

    /// Spending from a record that holds enough keeps everybody in place and
    /// takes the amount from the roll.
    pub proof fn lemma_spend(self, account: AccountId, amount: nat)
        requires
            self.is_registered(account),
            amount <= self.weight_of(account),
        ensures
            forall|other: AccountId| #[trigger]
                self.spend(account, amount).position(other) == self.position(other),
            forall|other: AccountId|
                other != account ==> #[trigger] self.spend(account, amount).resolve(other)
                    == self.resolve(other),
            self.spend(account, amount).voters.len() == self.voters.len(),
            self.spend(account, amount).total_weight() + amount == self.total_weight(),
            self.spend(account, amount).weight_of(account) + amount == self.weight_of(account),
            self.spend(account, amount).has_voted(account) == (self.weight_of(account) == amount),
    {
        let k = self.position(account).unwrap();
        lemma_voter_index(self.voters, account);
        let after = self.spend(account, amount);
        let record = after.voters[k];
        assert forall|other: AccountId| #[trigger]
            after.position(other) == self.position(other) by {
            lemma_voter_index_update(self.voters, k, record, other);
        }
        assert forall|other: AccountId| other != account implies #[trigger] after.resolve(other)
            == self.resolve(other) by {
            lemma_voter_index_update(self.voters, k, record, other);
            lemma_voter_index(self.voters, other);
        }
        assert(weights(after.voters) =~= weights(self.voters).update(k, record.weight));
        lemma_sum_update(weights(self.voters), k, record.weight);
    }

    /// Adding to a tally moves no label and adds the amount to the weight cast.
    pub proof fn lemma_add_votes(self, p: int, amount: nat)
        requires
            0 <= p < self.proposals.len(),
        ensures
            labels(self.add_votes(p, amount).proposals) == labels(self.proposals),
            self.add_votes(p, amount).total_votes() == self.total_votes() + amount,
    {
        let after = self.add_votes(p, amount);
        assert(tallies(after.proposals) =~= tallies(self.proposals).update(
            p,
            self.proposals[p].tally + amount,
        ));
        lemma_sum_update(tallies(self.proposals), p, self.proposals[p].tally + amount);
    }

    /// No record holds more than the roll, no tally more than was cast, and
    /// in a well-formed election neither exceeds the number of records.
    pub proof fn lemma_bounds(self, k: int, p: int)
        requires
            self.wf(),
            0 <= k < self.voters.len(),
            0 <= p < self.proposals.len(),
        ensures
            self.voters[k].weight <= self.total_weight(),
            self.proposals[p].tally <= self.total_votes(),
            self.voters[k].weight + self.proposals[p].tally <= self.voters.len(),
    {
        lemma_sum_bounds_entry(weights(self.voters), k);
        lemma_sum_bounds_entry(tallies(self.proposals), p);
    }
}

impl ElectionView {
    /// Rewriting the record of a registered principal, with a weight of zero
    /// if it is marked consumed, keeps the roll free of duplicates and of
    /// consumed records that hold weight.
    proof fn lemma_rewrite_keeps_shape(self, account: AccountId, after: ElectionView)
        requires
            self.is_registered(account),
            self.roll_is_sound(),
            after.voters.len() == self.voters.len(),
            forall|k: int|
                0 <= k < self.voters.len() && k != self.position(account).unwrap()
                    ==> after.voters[k] == self.voters[k],
            after.voters[self.position(account).unwrap()].account == account,
            after.voters[self.position(account).unwrap()].consumed ==> after.voters[self.position(
                account,
            ).unwrap()].weight == 0,
        ensures
            after.roll_is_sound(),
    {
        lemma_voter_index(self.voters, account);
    }

    /// Explicit registration keeps an election well formed.
    pub proof fn lemma_register_wf(self, voter: AccountId)
        requires
            self.wf(),
        ensures
            match self.register(voter) {
                Ok(after) => after.wf() && after.name == self.name,
                Err(_) => true,
            },
    {
        if self.register(voter) is Ok {
            self.lemma_enroll(voter);
        }
    }

    /// A vote keeps an election well formed.
    pub proof fn lemma_vote_wf(self, caller: AccountId, label: Seq<u8>, weight: nat)
        requires
            self.wf(),
        ensures
            match self.vote(caller, label, weight) {
                Ok(after) => after.wf() && after.name == self.name,
                Err(_) => true,
            },
    {
        if self.vote(caller, label, weight) is Ok {
            let p = self.proposal_index(label).unwrap();
            lemma_last_index_of(labels(self.proposals), label);
            let e1 = self.ensure(caller);
            self.lemma_ensure(caller);
            let e2 = e1.add_votes(p, weight);
            e1.lemma_add_votes(p, weight);
            let e3 = e2.spend(caller, weight);
            e2.lemma_spend(caller, weight);
            lemma_voter_index(e2.voters, caller);
            e2.lemma_rewrite_keeps_shape(caller, e3);
        }
    }

    /// A delegation keeps an election well formed.
    pub proof fn lemma_delegate_vote_wf(self, caller: AccountId, delegate: AccountId, weight: nat)
        requires
            self.wf(),
        ensures
            match self.delegate_vote(caller, delegate, weight) {
                Ok(after) => after.wf() && after.name == self.name,
                Err(_) => true,
            },
    {
        if self.delegate_vote(caller, delegate, weight) is Ok {
            let e1 = self.ensure(caller);
            self.lemma_ensure(caller);
            let e2 = e1.ensure(delegate);
            e1.lemma_ensure(delegate);
            let e3 = e2.credit(delegate, weight);
            e2.lemma_credit(delegate, weight);
            lemma_voter_index(e2.voters, delegate);
            e2.lemma_rewrite_keeps_shape(delegate, e3);
            if caller != delegate {
                assert(e3.resolve(caller) == e2.resolve(caller));
            }
            let e4 = e3.spend(caller, weight);
            e3.lemma_spend(caller, weight);
            lemma_voter_index(e3.voters, caller);
            e3.lemma_rewrite_keeps_shape(caller, e4);
        }
    }
}

impl StoreView {
    /// Replacing an election by a well-formed one of the same name keeps the
    /// store well formed and its names in place.
    pub proof fn lemma_with_election_wf(self, id: u32, election: ElectionView)
        requires
            self.wf(),
            self.has_election(id),
            election.wf(),
            election.name == self.election(id).name,
        ensures
            self.with_election(id, election).wf(),
            self.with_election(id, election).names() == self.names(),
            self.with_election(id, election).elections.len() == self.elections.len(),
    {
        let after = self.with_election(id, election);
        assert(after.names() =~= self.names());
    }

    /// Creation keeps the store well formed.
    pub proof fn lemma_create_election_wf(
        self,
        caller: AccountId,
        name: Seq<u8>,
        requires_registration: bool,
        labels: Seq<Seq<u8>>,
    )
        requires
            self.wf(),
        ensures
            match self.create_election(caller, name, requires_registration, labels) {
                Ok(after) => after.wf(),
                Err(_) => true,
            },
    {
        if let Ok(after) = self.create_election(caller, name, requires_registration, labels) {
            ElectionView::lemma_fresh_wf(name, caller, requires_registration, labels);
            lemma_last_index_of(self.names(), name);
            assert forall|i: int, j: int| 0 <= i < j < after.names().len() implies #[trigger]
                after.names()[i] != #[trigger] after.names()[j] by {
                if j < self.names().len() {
                    assert(self.names()[i] != self.names()[j]);
                } else {
                    assert(self.names()[i] != name);
                }
            }
        }
    }

    /// A hand-over keeps the store well formed.
    pub proof fn lemma_change_ownership_wf(self, caller: AccountId, id: u32, new_owner: AccountId)
        requires
            self.wf(),
        ensures
            match self.change_ownership(caller, id, new_owner) {
                Ok(after) => after.wf(),
                Err(_) => true,
            },
    {
        if self.change_ownership(caller, id, new_owner) is Ok {
            let election = ElectionView { owner: new_owner, ..self.election(id) };
            self.lemma_with_election_wf(id, election);
        }
    }

    /// Setting the registration flag keeps the store well formed.
    pub proof fn lemma_set_registration_wf(
        self,
        caller: AccountId,
        id: u32,
        state: RegistrationState,
    )
        requires
            self.wf(),
        ensures
            match self.set_registration(caller, id, state) {
                Ok(after) => after.wf(),
                Err(_) => true,
            },
    {
        if self.set_registration(caller, id, state) is Ok {
            let election = ElectionView { registration_state: state, ..self.election(id) };
            self.lemma_with_election_wf(id, election);
        }
    }

    /// Setting the voting flag keeps the store well formed.
    pub proof fn lemma_set_election_state_wf(self, caller: AccountId, id: u32, state: ElectionState)
        requires
            self.wf(),
        ensures
            match self.set_election_state(caller, id, state) {
                Ok(after) => after.wf(),
                Err(_) => true,
            },
    {
        if self.set_election_state(caller, id, state) is Ok {
            let election = ElectionView { election_state: state, ..self.election(id) };
            self.lemma_with_election_wf(id, election);
        }
    }

    /// Explicit registration keeps the store well formed.
    pub proof fn lemma_register_wf(self, id: u32, voter: AccountId)
        requires
            self.wf(),
        ensures
            match self.register(id, voter) {
                Ok(after) => after.wf(),
                Err(_) => true,
            },
    {
        if let Ok(after) = self.register(id, voter) {
            self.election(id).lemma_register_wf(voter);
            self.lemma_with_election_wf(id, self.election(id).register(voter)->Ok_0);
        }
    }

    /// A vote keeps the store well formed.
    pub proof fn lemma_vote_wf(self, caller: AccountId, id: u32, label: Seq<u8>, weight: nat)
        requires
            self.wf(),
        ensures
            match self.vote(caller, id, label, weight) {
                Ok(after) => after.wf(),
                Err(_) => true,
            },
    {
        if let Ok(after) = self.vote(caller, id, label, weight) {
            self.election(id).lemma_vote_wf(caller, label, weight);
            self.lemma_with_election_wf(id, self.election(id).vote(caller, label, weight)->Ok_0);
        }
    }

    /// A delegation keeps the store well formed.
    pub proof fn lemma_delegate_vote_wf(
        self,
        caller: AccountId,
        id: u32,
        delegate: AccountId,
        weight: nat,
    )
        requires
            self.wf(),
        ensures
            match self.delegate_vote(caller, id, delegate, weight) {
                Ok(after) => after.wf(),
                Err(_) => true,
            },
    {
        if let Ok(after) = self.delegate_vote(caller, id, delegate, weight) {
            self.election(id).lemma_delegate_vote_wf(caller, delegate, weight);
            self.lemma_with_election_wf(
                id,
                self.election(id).delegate_vote(caller, delegate, weight)->Ok_0,
            );
        }
    }
}

} // verus!

//! The mathematical model of the engine.
//!
//! A store is a sequence of elections; the election with identifier `id` sits
//! at position `id - 1`. An election carries its proposals in creation order and
//! its voter records in the order in which they were entered. Every operation of
//! the engine is a total function on this model that yields either the next
//! state or the reason for refusing, checked in a fixed order.

use crate::sums::sum;
use crate::types::{AccountId, ElectionState, Error, RegistrationState};
use vstd::prelude::*;

verus! {

/// A proposal: its label and the weight cast on it so far.
#[verifier::ext_equal]
pub struct ProposalView {
    pub label: Seq<u8>,
    pub tally: nat,
}

/// A voter record: the weight still to spend and whether it was spent down to zero.
pub struct VoterView {
    pub account: AccountId,
    pub weight: nat,
    pub consumed: bool,
}

/// One election.
#[verifier::ext_equal]
pub struct ElectionView {
    pub name: Seq<u8>,
    pub owner: AccountId,
    pub requires_registration: bool,
    pub registration_state: RegistrationState,
    pub election_state: ElectionState,
    pub proposals: Seq<ProposalView>,
    pub voters: Seq<VoterView>,
}

/// The whole store.
#[verifier::ext_equal]
pub struct StoreView {
    pub elections: Seq<ElectionView>,
}

/// The contents of a list of byte strings.
pub open spec fn byte_strings(list: Seq<Vec<u8>>) -> Seq<Seq<u8>> {
    list.map_values(|b: Vec<u8>| b@)
}

/// The labels of `proposals`, in order.
pub open spec fn labels(proposals: Seq<ProposalView>) -> Seq<Seq<u8>> {
    proposals.map_values(|p: ProposalView| p.label)
}

/// The tallies of `proposals`, in order.
pub open spec fn tallies(proposals: Seq<ProposalView>) -> Seq<nat> {
    proposals.map_values(|p: ProposalView| p.tally)
}

/// The remaining weights of `voters`, in order.
pub open spec fn weights(voters: Seq<VoterView>) -> Seq<nat> {
    voters.map_values(|v: VoterView| v.weight)
}

/// Fresh proposals for `labels`: same order, nothing cast yet.
pub open spec fn fresh_proposals(labels: Seq<Seq<u8>>) -> Seq<ProposalView> {
    labels.map_values(|l: Seq<u8>| ProposalView { label: l, tally: 0 })
}

/// The position of the last entry of `items` equal to `item`.
///
/// A label index is filled in list order, so where a label occurs twice the
/// later entry is the one the index keeps.
pub open spec fn last_index_of(items: Seq<Seq<u8>>, item: Seq<u8>) -> Option<int>
    decreases items.len(),
{
    if items.len() == 0 {
        None
    } else if items.last() == item {
        Some(items.len() - 1)
    } else {
        last_index_of(items.drop_last(), item)
    }
}

/// What `last_index_of` finds: a match with no match after it, or no match at all.
pub proof fn lemma_last_index_of(items: Seq<Seq<u8>>, item: Seq<u8>)
    ensures
        match last_index_of(items, item) {
            Some(k) => {
                &&& 0 <= k < items.len()
                &&& items[k] == item
                &&& forall|j: int| k < j < items.len() ==> items[j] != item
            },
            None => forall|j: int| 0 <= j < items.len() ==> items[j] != item,
        },
    decreases items.len(),
{
    if items.len() > 0 && items.last() != item {
        let front = items.drop_last();
        lemma_last_index_of(front, item);
        match last_index_of(front, item) {
            Some(k) => {
                assert forall|j: int| k < j < items.len() implies items[j] != item by {
                    if j < front.len() {
                        assert(front[j] != item);
                    }
                }
            },
            None => {
                assert forall|j: int| 0 <= j < items.len() implies items[j] != item by {
                    if j < front.len() {
                        assert(front[j] != item);
                    }
                }
            },
        }
    }
}

/// The position of the first record of `voters` held by `account`.
pub open spec fn voter_index(voters: Seq<VoterView>, account: AccountId) -> Option<int>
    decreases voters.len(),
{
    if voters.len() == 0 {
        None
    } else {
        match voter_index(voters.drop_last(), account) {
            Some(k) => Some(k),
            None => if voters.last().account == account {
                Some(voters.len() - 1)
            } else {
                None
            },
        }
    }
}

/// What `voter_index` finds: a match with no match before it, or no match at all.
pub proof fn lemma_voter_index(voters: Seq<VoterView>, account: AccountId)
    ensures
        match voter_index(voters, account) {
            Some(k) => {
                &&& 0 <= k < voters.len()
                &&& voters[k].account == account
                &&& forall|j: int| 0 <= j < k ==> voters[j].account != account
            },
            None => forall|j: int| 0 <= j < voters.len() ==> voters[j].account != account,
        },
    decreases voters.len(),
{
    if voters.len() > 0 {
        let front = voters.drop_last();
        lemma_voter_index(front, account);
        match voter_index(front, account) {
            Some(k) => {
                assert forall|j: int| 0 <= j < k implies voters[j].account != account by {
                    assert(front[j].account != account);
                }
            },
            None => {
                assert forall|j: int| 0 <= j < front.len() implies voters[j].account != account by {
                    assert(front[j].account != account);
                }
            },
        }
    }
}

/// No two records of `voters` belong to the same principal.
pub open spec fn distinct_accounts(voters: Seq<VoterView>) -> bool {
    forall|i: int, j: int|
        0 <= i < j < voters.len() ==> (#[trigger] voters[i]).account != (#[trigger] voters[j]).account
}

/// No two entries of `names` are equal.
pub open spec fn distinct_names(names: Seq<Seq<u8>>) -> bool {
    forall|i: int, j: int| 0 <= i < j < names.len() ==> #[trigger] names[i] != #[trigger] names[j]
}

impl VoterView {
    /// The record a principal gets on entering a roll.
    pub open spec fn fresh(account: AccountId) -> VoterView {
        VoterView { account, weight: 1, consumed: false }
    }
}

impl ElectionView {
    /// A newly created election: both lifecycle flags closed, nothing cast, nobody enrolled.
    pub open spec fn fresh(
        name: Seq<u8>,
        owner: AccountId,
        requires_registration: bool,
        labels: Seq<Seq<u8>>,
    ) -> ElectionView {
        ElectionView {
            name,
            owner,
            requires_registration,
            registration_state: RegistrationState::RegistrationClosed,
            election_state: ElectionState::ElectionClosed,
            proposals: fresh_proposals(labels),
            voters: Seq::empty(),
        }
    }

    // ----- proposal ledger -----

    /// The position that `label` resolves to, if it names a proposal.
    pub open spec fn proposal_index(self, label: Seq<u8>) -> Option<int> {
        last_index_of(labels(self.proposals), label)
    }

    /// The weight cast on `label`; zero where it names no proposal.
    pub open spec fn votes_for(self, label: Seq<u8>) -> nat {
        match self.proposal_index(label) {
            Some(p) => self.proposals[p].tally,
            None => 0,
        }
    }

    /// The weight reported for the proposal listed at position `i`.
    pub open spec fn standing(self, i: int) -> nat {
        self.votes_for(self.proposals[i].label)
    }

    /// Every proposal's label with its standing, in creation order.
    pub open spec fn results(self) -> Seq<(Seq<u8>, nat)> {
        Seq::new(self.proposals.len(), |i: int| (self.proposals[i].label, self.standing(i)))
    }

    /// Position `i` leads: its standing is positive, no standing exceeds it, and
    /// every earlier standing is strictly below it.
    pub open spec fn leads(self, i: int) -> bool {
        &&& 0 <= i < self.proposals.len()
        &&& self.standing(i) > 0
        &&& forall|j: int| 0 <= j < self.proposals.len() ==> self.standing(j) <= self.standing(i)
        &&& forall|j: int| 0 <= j < i ==> self.standing(j) < self.standing(i)
    }

    /// The leading proposal with its standing, or the empty label with zero
    /// where nothing has been cast.
    pub open spec fn winner(self) -> (Seq<u8>, nat) {
        if exists|i: int| self.leads(i) {
            let i = choose|i: int| self.leads(i);
            (self.proposals[i].label, self.standing(i))
        } else {
            (Seq::empty(), 0)
        }
    }

    /// At most one position leads.
    pub proof fn lemma_leader_unique(self)
        ensures
            forall|i: int, j: int| self.leads(i) && self.leads(j) ==> i == j,
    {
    }

    /// All weight cast so far.
    pub open spec fn total_votes(self) -> nat {
        sum(tallies(self.proposals))
    }

    // ----- voter ledger -----

    /// Where the record of `account` sits, if it has one.
    pub open spec fn position(self, account: AccountId) -> Option<int> {
        voter_index(self.voters, account)
    }

    /// `account` has a voter record.
    pub open spec fn is_registered(self, account: AccountId) -> bool {
        self.position(account) is Some
    }

    /// The record of `account`; the fresh record where it has none yet.
    pub open spec fn resolve(self, account: AccountId) -> VoterView {
        match self.position(account) {
            Some(k) => self.voters[k],
            None => VoterView::fresh(account),
        }
    }

    /// The weight `account` can still spend; zero without a record.
    pub open spec fn weight_of(self, account: AccountId) -> nat {
        match self.position(account) {
            Some(k) => self.voters[k].weight,
            None => 0,
        }
    }

    /// `account` has spent its weight down to zero.
    pub open spec fn has_voted(self, account: AccountId) -> bool {
        match self.position(account) {
            Some(k) => self.voters[k].consumed,
            None => false,
        }
    }

    /// All weight still to be spent.
    pub open spec fn total_weight(self) -> nat {
        sum(weights(self.voters))
    }

    // ----- well-formedness -----

    /// The invariant of an election: at least one proposal, one record per
    /// principal, a consumed record holds no weight, and the weight in the roll
    /// plus the weight cast equals the number of records ever entered.
    pub open spec fn wf(self) -> bool {
        &&& self.proposals.len() > 0
        &&& self.roll_is_sound()
        &&& self.is_balanced()
    }

    /// One record per principal, and a consumed record holds no weight.
    pub open spec fn roll_is_sound(self) -> bool {
        &&& distinct_accounts(self.voters)
        &&& forall|k: int|
            0 <= k < self.voters.len() && (#[trigger] self.voters[k]).consumed ==> self.voters[k].weight
                == 0
    }

    /// Every record was entered with a weight of 1, and weight only moves:
    /// what is left in the roll and what was cast add up to the number of records.
    pub open spec fn is_balanced(self) -> bool {
        self.total_weight() + self.total_votes() == self.voters.len()
    }

    // ----- elementary updates -----

    /// Enters a fresh record for `account` at the end of the roll.
    pub open spec fn enroll(self, account: AccountId) -> ElectionView {
        ElectionView { voters: self.voters.push(VoterView::fresh(account)), ..self }
    }

    /// Makes sure `account` has a record, entering a fresh one if need be.
    pub open spec fn ensure(self, account: AccountId) -> ElectionView {
        if self.is_registered(account) {
            self
        } else {
            self.enroll(account)
        }
    }

    /// Adds `amount` to the record of `account`, which becomes spendable again.
    pub open spec fn credit(self, account: AccountId, amount: nat) -> ElectionView {
        let k = self.position(account).unwrap();
        let record = VoterView { account, weight: self.voters[k].weight + amount, consumed: false };
        ElectionView { voters: self.voters.update(k, record), ..self }
    }

    /// Takes `amount` from the record of `account`, which is consumed once nothing is left.
    pub open spec fn spend(self, account: AccountId, amount: nat) -> ElectionView {
        let k = self.position(account).unwrap();
        let left = (self.voters[k].weight - amount) as nat;
        let record = VoterView { account, weight: left, consumed: left == 0 };
        ElectionView { voters: self.voters.update(k, record), ..self }
    }

    /// Adds `amount` to the tally of the proposal at position `p`.
    pub open spec fn add_votes(self, p: int, amount: nat) -> ElectionView {
        let proposal = ProposalView {
            label: self.proposals[p].label,
            tally: self.proposals[p].tally + amount,
        };
        ElectionView { proposals: self.proposals.update(p, proposal), ..self }
    }

    // ----- gates -----

    /// The registration-requirement gate: an election that requires
    /// registration admits only principals with a record; any other admits everybody.
    pub open spec fn admits(self, account: AccountId) -> bool {
        self.requires_registration ==> self.is_registered(account)
    }

    /// The eligibility gate for spending `amount`: a consumed record is refused
    /// first, then one that holds too little.
    pub open spec fn spending_gate(self, account: AccountId, amount: nat) -> Result<(), Error> {
        let record = self.resolve(account);
        if record.consumed {
            Err(Error::VoterHasAlreadyVoted)
        } else if record.weight < amount {
            Err(Error::VoterHasNotSoMuchWeight)
        } else {
            Ok(())
        }
    }

    // ----- operations on one election -----

    /// Explicit registration of `voter`.
    pub open spec fn register(self, voter: AccountId) -> Result<ElectionView, Error> {
        if self.registration_state != RegistrationState::RegistrationOpen {
            Err(Error::RegistrationClosed)
        } else if self.is_registered(voter) {
            Err(Error::VoterAlreadyRegistered)
        } else {
            Ok(self.enroll(voter))
        }
    }

    /// `caller` casts `weight` on `label`.
    pub open spec fn vote(self, caller: AccountId, label: Seq<u8>, weight: nat) -> Result<
        ElectionView,
        Error,
    > {
        if self.election_state != ElectionState::ElectionOpen {
            Err(Error::ElectionClosed)
        } else if !self.admits(caller) {
            Err(Error::VoterNotRegistred)
        } else {
            match self.spending_gate(caller, weight) {
                Err(e) => Err(e),
                Ok(_) => match self.proposal_index(label) {
                    None => Err(Error::InvalidProposal),
                    Some(p) => Ok(self.ensure(caller).add_votes(p, weight).spend(caller, weight)),
                },
            }
        }
    }

    /// `caller` hands `weight` to `delegate`.
    pub open spec fn delegate_vote(
        self,
        caller: AccountId,
        delegate: AccountId,
        weight: nat,
    ) -> Result<ElectionView, Error> {
        if !self.admits(caller) {
            Err(Error::VoterNotRegistred)
        } else if !self.admits(delegate) {
            Err(Error::VoterNotRegistred)
        } else {
            match self.spending_gate(caller, weight) {
                Err(e) => Err(e),
                Ok(_) => Ok(
                    self.ensure(caller).ensure(delegate).credit(delegate, weight).spend(
                        caller,
                        weight,
                    ),
                ),
            }
        }
    }
}

impl StoreView {
    /// The store before any election is created.
    pub open spec fn empty() -> StoreView {
        StoreView { elections: Seq::empty() }
    }

    /// How many elections were ever created.
    pub open spec fn election_count(self) -> nat {
        self.elections.len()
    }

    /// The identifier the next election will get.
    pub open spec fn next_id(self) -> nat {
        self.elections.len() + 1
    }

    /// `id` names an election.
    pub open spec fn has_election(self, id: u32) -> bool {
        1 <= id <= self.elections.len()
    }

    /// The election named by `id`.
    pub open spec fn election(self, id: u32) -> ElectionView {
        self.elections[id - 1]
    }

    /// The names of all elections, in creation order.
    pub open spec fn names(self) -> Seq<Seq<u8>> {
        self.elections.map_values(|e: ElectionView| e.name)
    }

    /// `name` is taken.
    pub open spec fn has_name(self, name: Seq<u8>) -> bool {
        last_index_of(self.names(), name) is Some
    }

    /// The identifier of the election called `name`; zero where there is none.
    pub open spec fn id_of(self, name: Seq<u8>) -> nat {
        match last_index_of(self.names(), name) {
            Some(k) => (k + 1) as nat,
            None => 0,
        }
    }

    /// The labels of the election `id`, in creation order; none where it is unknown.
    pub open spec fn proposals_of(self, id: u32) -> Seq<Seq<u8>> {
        if self.has_election(id) {
            labels(self.election(id).proposals)
        } else {
            Seq::empty()
        }
    }

    /// The labels of the election called `name`, in creation order; none
    /// where there is no such election.
    pub open spec fn proposals_named(self, name: Seq<u8>) -> Seq<Seq<u8>> {
        match last_index_of(self.names(), name) {
            Some(k) => labels(self.elections[k].proposals),
            None => Seq::empty(),
        }
    }

    /// The owner of the election `id`; the all-zero principal where it is unknown.
    pub open spec fn owner_of(self, id: u32) -> AccountId {
        if self.has_election(id) {
            self.election(id).owner
        } else {
            AccountId::zero()
        }
    }

    /// The election `id` exists and accepts votes.
    pub open spec fn is_open(self, id: u32) -> bool {
        self.has_election(id) && self.election(id).election_state == ElectionState::ElectionOpen
    }

    /// The election `id` exists and its roll accepts entries.
    pub open spec fn registration_is_open(self, id: u32) -> bool {
        self.has_election(id) && self.election(id).registration_state
            == RegistrationState::RegistrationOpen
    }

    /// `account` has a voter record in the election `id`.
    pub open spec fn is_registered(self, id: u32, account: AccountId) -> bool {
        self.has_election(id) && self.election(id).is_registered(account)
    }

    /// What `account` can still spend in the election `id`; zero where either is unknown.
    pub open spec fn weight_of(self, id: u32, account: AccountId) -> nat {
        if self.has_election(id) {
            self.election(id).weight_of(account)
        } else {
            0
        }
    }

    /// `account` has spent its weight in the election `id` down to zero.
    pub open spec fn has_voted(self, id: u32, account: AccountId) -> bool {
        self.has_election(id) && self.election(id).has_voted(account)
    }

    /// All weight still to be spent in the election `id`; zero where it is unknown.
    pub open spec fn total_weight(self, id: u32) -> nat {
        if self.has_election(id) {
            self.election(id).total_weight()
        } else {
            0
        }
    }

    /// How many voter records the election `id` holds; zero where it is unknown.
    pub open spec fn voter_count(self, id: u32) -> nat {
        if self.has_election(id) {
            self.election(id).voters.len()
        } else {
            0
        }
    }

    /// The weight cast on `label` in the election `id`; zero where either is unknown.
    pub open spec fn votes_for(self, id: u32, label: Seq<u8>) -> nat {
        if self.has_election(id) {
            self.election(id).votes_for(label)
        } else {
            0
        }
    }

    /// The results of the election `id`; none where it is unknown.
    pub open spec fn results(self, id: u32) -> Seq<(Seq<u8>, nat)> {
        if self.has_election(id) {
            self.election(id).results()
        } else {
            Seq::empty()
        }
    }

    /// The winner of the election `id`; the empty label with zero where it is unknown.
    pub open spec fn winner(self, id: u32) -> (Seq<u8>, nat) {
        if self.has_election(id) {
            self.election(id).winner()
        } else {
            (Seq::empty(), 0)
        }
    }

    /// The invariant of the store: names are unique and every election is well formed.
    pub open spec fn wf(self) -> bool {
        &&& distinct_names(self.names())
        &&& forall|k: int| 0 <= k < self.elections.len() ==> (#[trigger] self.elections[k]).wf()
    }

    /// The store with the election `id` replaced by `election`.
    pub open spec fn with_election(self, id: u32, election: ElectionView) -> StoreView {
        StoreView { elections: self.elections.update(id - 1, election) }
    }

    /// Carries the outcome of an operation on the election `id` over to the store.
    pub open spec fn lift(self, id: u32, outcome: Result<ElectionView, Error>) -> Result<
        StoreView,
        Error,
    > {
        match outcome {
            Ok(election) => Ok(self.with_election(id, election)),
            Err(e) => Err(e),
        }
    }

    /// What every owner-restricted operation asks first: existence, then ownership.
    pub open spec fn owner_gate(self, caller: AccountId, id: u32) -> Result<(), Error> {
        if !self.has_election(id) {
            Err(Error::ElectionNotValid)
        } else if self.election(id).owner != caller {
            Err(Error::OnlyOwner)
        } else {
            Ok(())
        }
    }

    /// Creation of an election owned by `caller`: a taken name is refused
    /// first, then an empty proposal list.
    pub open spec fn create_election(
        self,
        caller: AccountId,
        name: Seq<u8>,
        requires_registration: bool,
        labels: Seq<Seq<u8>>,
    ) -> Result<StoreView, Error> {
        if self.has_name(name) {
            Err(Error::ElectionNotValid)
        } else if labels.len() == 0 {
            Err(Error::InsufficientProposals)
        } else {
            Ok(
                StoreView {
                    elections: self.elections.push(
                        ElectionView::fresh(name, caller, requires_registration, labels),
                    ),
                },
            )
        }
    }

    /// Hand-over of the election `id` to `new_owner`.
    pub open spec fn change_ownership(
        self,
        caller: AccountId,
        id: u32,
        new_owner: AccountId,
    ) -> Result<StoreView, Error> {
        match self.owner_gate(caller, id) {
            Err(e) => Err(e),
            Ok(_) => Ok(
                self.with_election(id, ElectionView { owner: new_owner, ..self.election(id) }),
            ),
        }
    }

    /// The owner sets the registration flag of the election `id`.
    pub open spec fn set_registration(
        self,
        caller: AccountId,
        id: u32,
        state: RegistrationState,
    ) -> Result<StoreView, Error> {
        match self.owner_gate(caller, id) {
            Err(e) => Err(e),
            Ok(_) => Ok(
                self.with_election(
                    id,
                    ElectionView { registration_state: state, ..self.election(id) },
                ),
            ),
        }
    }

    /// The owner sets the voting flag of the election `id`.
    pub open spec fn set_election_state(
        self,
        caller: AccountId,
        id: u32,
        state: ElectionState,
    ) -> Result<StoreView, Error> {
        match self.owner_gate(caller, id) {
            Err(e) => Err(e),
            Ok(_) => Ok(
                self.with_election(id, ElectionView { election_state: state, ..self.election(id) }),
            ),
        }
    }

    /// Explicit registration of `voter` in the election `id`.
    pub open spec fn register(self, id: u32, voter: AccountId) -> Result<StoreView, Error> {
        if !self.has_election(id) {
            Err(Error::ElectionNotValid)
        } else {
            self.lift(id, self.election(id).register(voter))
        }
    }

    /// `caller` casts `weight` on `label` in the election `id`.
    pub open spec fn vote(self, caller: AccountId, id: u32, label: Seq<u8>, weight: nat) -> Result<
        StoreView,
        Error,
    > {
        if !self.has_election(id) {
            Err(Error::ElectionNotValid)
        } else {
            self.lift(id, self.election(id).vote(caller, label, weight))
        }
    }

    /// `caller` hands `weight` to `delegate` in the election `id`.
    pub open spec fn delegate_vote(
        self,
        caller: AccountId,
        id: u32,
        delegate: AccountId,
        weight: nat,
    ) -> Result<StoreView, Error> {
        if !self.has_election(id) {
            Err(Error::ElectionNotValid)
        } else {
            self.lift(id, self.election(id).delegate_vote(caller, delegate, weight))
        }
    }
}

} // verus!

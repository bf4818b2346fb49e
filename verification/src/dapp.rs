//! The election store: the state, its invariant, and how a store is created,
//! written out and taken up again. The operations live in the modules below,
//! one for each part of the engine:
//!
//! - `guard`: every precondition of every operation, as gates;
//! - `ledgers`: the steps that write to a roll or to a proposal ledger;
//! - `registry`: creation, ownership and the two lifecycle flags;
//! - `voting`: registration, votes and delegations;
//! - `queries`: everything that only reads.
//!
//! Each operation checks its gates in a fixed order and touches the state only
//! after the last one has passed, so a refused call leaves the store exactly as
//! it was. The contracts say so over the model: the outcome of the call is the
//! outcome of the model's operation of the same name, and on refusal the store
//! is unchanged.

mod guard;
mod ledgers;
mod queries;
mod registry;
mod voting;

use crate::election::Election;
use crate::model::{distinct_names, last_index_of, lemma_last_index_of, StoreView};
use crate::proposals::same_bytes;
use crate::types::Error;
use vstd::prelude::*;

verus! {

/// The store. Elections are kept in creation order, the election `id` at
/// position `id - 1`.
#[derive(Clone, Debug, PartialEq, Eq)]
pub struct InkVotingDapp {
    elections: Vec<Election>,
    /// The identifier the next election gets.
    election_nonce: u32,
    /// How many elections were ever created.
    election_count: u32,
}

impl View for InkVotingDapp {
    type V = StoreView;

    closed spec fn view(&self) -> StoreView {
        StoreView { elections: self.elections@.map_values(|e: Election| e@) }
    }
}

impl InkVotingDapp {
    /// What ties the counters and the stored identifiers to the list of elections.
    pub closed spec fn inv(&self) -> bool {
        &&& self.election_count == self.elections@.len()
        &&& self.election_nonce == self.election_count + 1
        &&& self.ids_in_place()
    }

    /// Every record carries the identifier that its position gives it.
    spec fn ids_in_place(&self) -> bool {
        forall|k: int|
            0 <= k < self.elections@.len() ==> (#[trigger] self.elections@[k]).id == k + 1
    }

    /// The invariant of the store. `new` establishes it and every operation keeps it.
    pub open spec fn wf(&self) -> bool {
        &&& self.inv()
        &&& self@.wf()
    }

    /// An empty store: no election, the next identifier is 1.
    pub fn new() -> (r: Self)
        ensures
            r.wf(),
            r@ == StoreView::empty(),
    {
        let mut r = InkVotingDapp { elections: Vec::new(), election_nonce: 0, election_count: 0 };
        r.new_init();
        r
    }

    /// Sets the counters of a store that holds no election.
    fn new_init(&mut self)
        requires
            old(self).elections@.len() == 0,
        ensures
            final(self).wf(),
            final(self)@ == StoreView::empty(),
    {
        self.election_nonce = 1;
        self.election_count = 0;
    }

    // ----- gates and lookups of the registry -----

    /// Whether `id` names an election.
    fn _election_id_exists(&self, id: u32) -> (r: bool)
        requires
            self.wf(),
        ensures
            r == self@.has_election(id),
    {
        1 <= id && id <= self.election_count
    }

    /// The existence gate, first in every operation on an election.
    fn check_id_existence(&self, id: u32) -> (r: Result<(), Error>)
        requires
            self.wf(),
        ensures
            r == if self@.has_election(id) {
                Ok::<(), Error>(())
            } else {
                Err::<(), Error>(Error::ElectionNotValid)
            },
    {
        if !self._election_id_exists(id) {
            Err(Error::ElectionNotValid)
        } else {
            Ok(())
        }
    }

    /// Where the election `id` is kept.
    fn slot(&self, id: u32) -> (k: usize)
        requires
            self.ids_in_place(),
            self@.has_election(id),
        ensures
            k == id - 1,
            k < self.elections@.len(),
            self.elections@[k as int]@ == self@.election(id),
            self.elections@[k as int].id == id,
    {
        (id - 1) as usize
    }

    /// Finds the election called `name`.
    fn find_election(&self, name: &Vec<u8>) -> (r: Option<usize>)
        requires
            self.wf(),
        ensures
            match r {
                Some(k) => {
                    &&& last_index_of(self@.names(), name@) == Some(k as int)
                    &&& k < self.elections@.len()
                },
                None => last_index_of(self@.names(), name@) is None,
            },
    {
        let ghost names = self@.names();
        let mut k: usize = self.elections.len();
        while k > 0
            invariant
                k <= self.elections@.len(),
                names == self@.names(),
                forall|j: int| k <= j < self.elections@.len() ==> names[j] != name@,
            decreases k,
        {
            k -= 1;
            if same_bytes(&self.elections[k].name, name) {
                proof {
                    lemma_last_index_of(names, name@);
                    assert(names[k as int] == name@);
                }
                return Some(k);
            }
        }
        proof {
            lemma_last_index_of(names, name@);
        }
        None
    }

    /// Whether `name` is taken.
    fn _election_name_exists(&self, name: &Vec<u8>) -> (r: bool)
        requires
            self.wf(),
        ensures
            r == self@.has_name(name@),
    {
        self.find_election(name).is_some()
    }

    // ----- keeping a store -----

    /// The model of a list of election records.
    pub open spec fn model_of(records: Seq<Election>) -> StoreView {
        StoreView { elections: records.map_values(|e: Election| e@) }
    }

    /// What makes a list of election records a store: the identifiers count
    /// up from 1 and still fit, and the model is well formed.
    pub open spec fn is_store(records: Seq<Election>) -> bool {
        &&& records.len() < u32::MAX
        &&& forall|k: int| 0 <= k < records.len() ==> (#[trigger] records[k]).id == k + 1
        &&& Self::model_of(records).wf()
    }

    /// The election records, in creation order, as a host would write them out.
    pub fn elections(&self) -> (r: &Vec<Election>)
        requires
            self.wf(),
        ensures
            Self::is_store(r@),
            Self::model_of(r@) == self@,
    {
        &self.elections
    }

    /// Takes up a store from election records that were written out earlier.
    ///
    /// The records are checked against everything the engine relies on;
    /// records that fail are refused rather than repaired.
    pub fn restore(records: Vec<Election>) -> (r: Option<Self>)
        ensures
            r is Some <==> Self::is_store(records@),
            r matches Some(dapp) ==> dapp.wf() && dapp@ == Self::model_of(records@),
    {
        if records.len() >= u32::MAX as usize {
            return None;
        }
        let count = records.len() as u32;
        let mut k: usize = 0;
        while k < records.len()
            invariant
                k <= records.len(),
                records.len() < u32::MAX,
                forall|j: int| 0 <= j < k ==> (#[trigger] records@[j]).id == j + 1,
                forall|j: int| 0 <= j < k ==> (#[trigger] Self::model_of(records@).elections[j]).wf(),
            decreases records.len() - k,
        {
            if records[k].id != k as u32 + 1 {
                return None;
            }
            if !records[k].is_well_formed() {
                assert(!Self::model_of(records@).elections[k as int].wf());
                return None;
            }
            k += 1;
        }
        if !Self::has_distinct_names(&records) {
            return None;
        }
        Some(InkVotingDapp { elections: records, election_nonce: count + 1, election_count: count })
    }

    /// Whether no two records carry the same name.
    fn has_distinct_names(records: &Vec<Election>) -> (r: bool)
        ensures
            r == distinct_names(Self::model_of(records@).names()),
    {
        let ghost names = Self::model_of(records@).names();
        let mut i: usize = 0;
        while i < records.len()
            invariant
                i <= records.len(),
                names == Self::model_of(records@).names(),
                forall|a: int, b: int| 0 <= a < b < i ==> #[trigger] names[a] != #[trigger] names[b],
            decreases records.len() - i,
        {
            let mut j: usize = 0;
            while j < i
                invariant
                    j <= i,
                    i < records.len(),
                    names == Self::model_of(records@).names(),
                    forall|a: int| 0 <= a < j ==> #[trigger] names[a] != names[i as int],
                decreases i - j,
            {
                if same_bytes(&records[j].name, &records[i].name) {
                    assert(names[j as int] == names[i as int]);
                    return false;
                }
                j += 1;
            }
            i += 1;
        }
        true
    }
}

} // verus!

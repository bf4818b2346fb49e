//! The proposal ledger of one election: labels in creation order, each with its tally.

use crate::election::Election;
use crate::model::{byte_strings, labels, last_index_of, lemma_last_index_of, ProposalView};
use vstd::prelude::*;

verus! {

/// One candidate option of an election.
#[derive(Clone, Debug, PartialEq, Eq)]
pub struct Proposal {
    pub label: Vec<u8>,
    /// The weight cast on this proposal so far.
    pub tally: u128,
}

impl View for Proposal {
    type V = ProposalView;

    open spec fn view(&self) -> ProposalView {
        ProposalView { label: self.label@, tally: self.tally as nat }
    }
}

/// The model of a list of proposals.
pub open spec fn ledger(proposals: Seq<Proposal>) -> Seq<ProposalView> {
    proposals.map_values(|p: Proposal| p@)
}

/// The model of a list of results.
pub open spec fn result_view(list: Seq<(Vec<u8>, u128)>) -> Seq<(Seq<u8>, nat)> {
    list.map_values(|r: (Vec<u8>, u128)| (r.0@, r.1 as nat))
}

/// A copy of `bytes`.
pub(crate) fn copy_bytes(bytes: &Vec<u8>) -> (r: Vec<u8>)
    ensures
        r@ == bytes@,
{
    let mut r: Vec<u8> = Vec::new();
    let mut i: usize = 0;
    while i < bytes.len()
        invariant
            i <= bytes.len(),
            r@ == bytes@.take(i as int),
        decreases bytes.len() - i,
    {
        r.push(bytes[i]);
        i += 1;
    }
    r
}

/// Whether two byte strings hold the same bytes.
pub(crate) fn same_bytes(a: &Vec<u8>, b: &Vec<u8>) -> (r: bool)
    ensures
        r == (a@ == b@),
{
    let r = a == b;
    proof {
        if r {
            assert(a@ =~= b@);
        }
    }
    r
}

/// Finds the proposal that `label` resolves to: the last one that carries it.
pub(crate) fn find_proposal(proposals: &Vec<Proposal>, label: &Vec<u8>) -> (r: Option<usize>)
    ensures
        match r {
            Some(p) => {
                &&& last_index_of(labels(ledger(proposals@)), label@) == Some(p as int)
                &&& p < proposals.len()
                &&& proposals[p as int].label@ == label@
            },
            None => last_index_of(labels(ledger(proposals@)), label@) is None,
        },
{
    let ghost items = labels(ledger(proposals@));
    let mut k: usize = proposals.len();
    while k > 0
        invariant
            k <= proposals.len(),
            items == labels(ledger(proposals@)),
            forall|j: int| k <= j < proposals.len() ==> items[j] != label@,
        decreases k,
    {
        k -= 1;
        if same_bytes(&proposals[k].label, label) {
            proof {
                lemma_last_index_of(items, label@);
                assert(items[k as int] == label@);
            }
            return Some(k);
        }
    }
    proof {
        lemma_last_index_of(items, label@);
    }
    None
}

impl Election {
    /// The labels in creation order.
    pub(crate) fn get_proposals(&self) -> (r: Vec<Vec<u8>>)
        ensures
            byte_strings(r@) == labels(self@.proposals),
    {
        let mut r: Vec<Vec<u8>> = Vec::new();
        let mut i: usize = 0;
        while i < self.proposals.len()
            invariant
                i <= self.proposals.len(),
                byte_strings(r@) == labels(self@.proposals).take(i as int),
            decreases self.proposals.len() - i,
        {
            r.push(copy_bytes(&self.proposals[i].label));
            proof {
                let all = labels(self@.proposals);
                assert(all.take(i + 1) =~= all.take(i as int).push(all[i as int]));
            }
            i += 1;
        }
        r
    }

    /// The weight cast on `proposal`; zero where the label names none.
    pub(crate) fn get_votes_proposal(&self, proposal: &Vec<u8>) -> (r: u128)
        ensures
            r == self@.votes_for(proposal@),
    {
        match find_proposal(&self.proposals, proposal) {
            Some(p) => self.proposals[p].tally,
            None => 0,
        }
    }

    /// The weight reported for the proposal listed at position `i`.
    pub(crate) fn standing(&self, i: usize) -> (r: u128)
        requires
            i < self@.proposals.len(),
        ensures
            r == self@.standing(i as int),
    {
        self.get_votes_proposal(&self.proposals[i].label)
    }

    /// Every label with its standing, in creation order.
    pub(crate) fn get_result_election(&self) -> (r: Vec<(Vec<u8>, u128)>)
        ensures
            result_view(r@) == self@.results(),
    {
        let mut r: Vec<(Vec<u8>, u128)> = Vec::new();
        let mut i: usize = 0;
        while i < self.proposals.len()
            invariant
                i <= self.proposals.len(),
                result_view(r@) == self@.results().take(i as int),
            decreases self.proposals.len() - i,
        {
            let votes = self.standing(i);
            r.push((copy_bytes(&self.proposals[i].label), votes));
            proof {
                let all = self@.results();
                assert(all.take(i + 1) =~= all.take(i as int).push(all[i as int]));
            }
            i += 1;
        }
        r
    }

    /// The leading proposal with its standing.
    ///
    /// Proposals are scanned in creation order and one replaces the current
    /// leader only with a strictly greater standing, so of several proposals
    /// with the greatest standing the earliest wins. Until something has been
    /// cast nothing exceeds the initial zero: the answer is then the empty
    /// label with zero, not the first proposal.
    pub(crate) fn get_winner(&self) -> (r: (Vec<u8>, u128))
        ensures
            (r.0@, r.1 as nat) == self@.winner(),
            forall|i: int| self@.leads(i) ==> r.0@ == self@.proposals[i].label && r.1 == self@.standing(i),
            (forall|i: int| !self@.leads(i)) ==> r.0@ == Seq::<u8>::empty() && r.1 == 0,
    {
        let mut winner: Vec<u8> = Vec::new();
        let mut max_votes: u128 = 0;
        let ghost mut best: Option<int> = None;
        let mut i: usize = 0;
        while i < self.proposals.len()
            invariant
                i <= self.proposals.len(),
                forall|j: int| 0 <= j < i ==> self@.standing(j) <= max_votes,
                match best {
                    None => max_votes == 0 && winner@ == Seq::<u8>::empty(),
                    Some(b) => {
                        &&& 0 <= b < i
                        &&& max_votes > 0
                        &&& self@.standing(b) == max_votes
                        &&& winner@ == self@.proposals[b].label
                        &&& forall|j: int| 0 <= j < b ==> self@.standing(j) < max_votes
                    },
                },
            decreases self.proposals.len() - i,
        {
            let vote_proposal = self.standing(i);
            if vote_proposal > max_votes {
                winner = copy_bytes(&self.proposals[i].label);
                max_votes = vote_proposal;
                proof {
                    best = Some(i as int);
                }
            }
            i += 1;
        }
        proof {
            self@.lemma_leader_unique();
            if let Some(b) = best {
                assert(self@.leads(b));
            }
        }
        (winner, max_votes)
    }
}

} // verus!

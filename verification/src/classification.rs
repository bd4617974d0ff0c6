//! The classification store: for each tier, the subjects last placed in it
//! and the marker of that evaluation.
//!
//! Writing a subject into one tier leaves the other tier alone. A subject
//! that was poor and is found rich keeps its old entry among the poor, with
//! the marker of the evaluation that put it there, until it is found poor
//! again; the markers tell which entry is the recent one.

use crate::order::{
    ascending_entries, compare_subjects, lemma_subject_order_strict_total, listed,
    strict_total_order, subject_order, Rank,
};
use crate::sorted::{
    as_map, is_gap, keys_ascend, lemma_empty, lemma_entry, lemma_gap, lemma_insert, lemma_listed,
    lemma_listing, lemma_update,
};
use vstd::prelude::*;

verus! {

/// The two classes a watched subject can fall in.
#[derive(Clone, Copy, Debug, PartialEq, Eq, Structural)]
pub enum Tier {
    /// The tracked balance reached the threshold.
    Rich,
    /// The tracked balance was below the threshold.
    Poor,
}

/// A subject with the marker of the evaluation that classified it.
#[derive(Debug, PartialEq, Eq)]
pub struct Evaluation {
    pub subject: String,
    pub marker: u64,
}

impl Clone for Evaluation {
    fn clone(&self) -> (copy: Self)
        ensures
            copy == *self,
    {
        Evaluation { subject: self.subject.clone(), marker: self.marker }
    }
}

/// What a list of evaluations says: each subject's text with its marker.
pub open spec fn evaluations_view(list: Seq<Evaluation>) -> Seq<(Seq<char>, u64)> {
    list.map_values(|e: Evaluation| (e.subject@, e.marker))
}

/// The subjects of one tier, each with the marker of its last evaluation
/// into that tier.
pub struct TierLedger {
    evaluations: Vec<Evaluation>,
}

impl View for TierLedger {
    type V = Map<Seq<char>, u64>;

    closed spec fn view(&self) -> Map<Seq<char>, u64> {
        as_map(evaluations_view(self.evaluations@))
    }
}

impl TierLedger {
    #[verifier::type_invariant]
    spec fn ordered(&self) -> bool {
        keys_ascend(evaluations_view(self.evaluations@), subject_order())
    }

    /// A ledger with no entry.
    pub fn new() -> (ledger: Self)
        ensures
            ledger@ == Map::<Seq<char>, u64>::empty(),
    {
        let ledger = TierLedger { evaluations: Vec::new() };
        proof {
            lemma_empty::<Seq<char>, u64>();
            assert(evaluations_view(ledger.evaluations@) =~= Seq::empty());
        }
        ledger
    }

    /// A ledger holds finitely many entries, and the ascending listing of
    /// its subjects holds each recorded subject exactly once and no other.
    pub proof fn lemma_listed(&self)
        ensures
            listed(self@, subject_order()),
    {
        lemma_subject_order_strict_total();
        lemma_listed(evaluations_view(self.evaluations@), subject_order());
    }

    /// The slot that holds `subject`, or else the gap where it would go.
    fn slot(&self, subject: &str) -> (found: (usize, bool))
        ensures
            found.0 <= self.evaluations.len(),
            found.1 <==> self@.contains_key(subject@),
            found.1 ==> found.0 < self.evaluations.len() && self.evaluations[found.0 as int].subject@
                == subject@ && self@[subject@] == self.evaluations[found.0 as int].marker,
            !found.1 ==> is_gap(
                evaluations_view(self.evaluations@),
                subject_order(),
                found.0 as int,
                subject@,
            ),
    {
        let ghost list = evaluations_view(self.evaluations@);
        proof {
            use_type_invariant(self);
            lemma_subject_order_strict_total();
        }
        let mut at: usize = 0;
        while at < self.evaluations.len()
            invariant
                at <= self.evaluations.len(),
                list == evaluations_view(self.evaluations@),
                keys_ascend(list, subject_order()),
                strict_total_order(subject_order()),
                forall|i: int| 0 <= i < at ==> subject_order()((#[trigger] list[i]).0, subject@),
            decreases self.evaluations.len() - at,
        {
            match compare_subjects(subject, self.evaluations[at].subject.as_str()) {
                Rank::After => {
                    at += 1;
                },
                Rank::Same => {
                    proof {
                        lemma_entry(list, subject_order(), at as int);
                    }
                    return (at, true);
                },
                Rank::Before => {
                    proof {
                        lemma_gap(list, subject_order(), at as int, subject@);
                    }
                    return (at, false);
                },
            }
        }
        proof {
            lemma_gap(list, subject_order(), at as int, subject@);
        }
        (at, false)
    }

    /// The marker recorded for `subject`, if it has an entry.
    pub fn marker_of(&self, subject: &str) -> (marker: Option<u64>)
        ensures
            marker == if self@.contains_key(subject@) {
                Some(self@[subject@])
            } else {
                None
            },
    {
        let (at, hit) = self.slot(subject);
        if hit {
            Some(self.evaluations[at].marker)
        } else {
            None
        }
    }

    /// Records `marker` for `subject`, in place of any marker it had.
    pub fn record(&mut self, subject: String, marker: u64)
        ensures
            final(self)@ == old(self)@.insert(subject@, marker),
    {
        let (at, hit) = self.slot(subject.as_str());
        let entry = Evaluation { subject, marker };
        proof {
            use_type_invariant(&*self);
            lemma_subject_order_strict_total();
            let list = evaluations_view(self.evaluations@);
            let pair = (entry.subject@, marker);
            if hit {
                lemma_update(list, subject_order(), at as int, pair);
                assert(evaluations_view(self.evaluations@.update(at as int, entry))
                    =~= list.update(at as int, pair));
            } else {
                lemma_insert(list, subject_order(), at as int, pair);
                assert(evaluations_view(self.evaluations@.insert(at as int, entry))
                    =~= list.insert(at as int, pair));
            }
        }
        let mut evaluations: Vec<Evaluation> = Vec::new();
        core::mem::swap(&mut self.evaluations, &mut evaluations);
        if hit {
            evaluations.set(at, entry);
        } else {
            evaluations.insert(at, entry);
        }
        self.evaluations = evaluations;
    }

    /// The entries, in ascending order of subject.
    pub fn list(&self) -> (list: Vec<Evaluation>)
        ensures
            evaluations_view(list@) == ascending_entries(self@, subject_order()),
            listed(self@, subject_order()),
    {
        proof {
            self.lemma_listed();
        }
        let mut list: Vec<Evaluation> = Vec::new();
        let mut i: usize = 0;
        while i < self.evaluations.len()
            invariant
                i <= self.evaluations.len(),
                list.len() == i,
                forall|j: int| 0 <= j < i ==> list[j] == self.evaluations[j],
            decreases self.evaluations.len() - i,
        {
            list.push(self.evaluations[i].clone());
            i += 1;
        }
        proof {
            use_type_invariant(self);
            lemma_subject_order_strict_total();
            assert(list@ =~= self.evaluations@);
            lemma_listing(evaluations_view(self.evaluations@), subject_order());
        }
        list
    }
}

/// What the classification store holds: the two tiers, each a map from
/// subject to evaluation marker.
#[verifier::ext_equal]
pub struct Tiers {
    pub rich: Map<Seq<char>, u64>,
    pub poor: Map<Seq<char>, u64>,
}

impl Tiers {
    /// The store with both tiers empty.
    pub open spec fn empty() -> Tiers {
        Tiers { rich: Map::empty(), poor: Map::empty() }
    }

    /// What writing `subject` into `tier` with `marker` does: the entry in
    /// that tier is set, and the other tier is untouched.
    pub open spec fn set_tier(self, subject: Seq<char>, tier: Tier, marker: u64) -> Tiers {
        match tier {
            Tier::Rich => Tiers { rich: self.rich.insert(subject, marker), poor: self.poor },
            Tier::Poor => Tiers { rich: self.rich, poor: self.poor.insert(subject, marker) },
        }
    }
}

/// The durable record of each subject's last evaluation, one ledger per tier.
pub struct ClassificationStore {
    rich: TierLedger,
    poor: TierLedger,
}

impl View for ClassificationStore {
    type V = Tiers;

    closed spec fn view(&self) -> Tiers {
        Tiers { rich: self.rich@, poor: self.poor@ }
    }
}

impl ClassificationStore {
    /// A store with both tiers empty.
    pub fn new() -> (store: Self)
        ensures
            store@ == Tiers::empty(),
    {
        ClassificationStore { rich: TierLedger::new(), poor: TierLedger::new() }
    }

    /// Each tier holds finitely many subjects, and its ascending listing
    /// holds each of them exactly once and no other.
    pub proof fn lemma_listed(&self)
        ensures
            listed(self@.rich, subject_order()),
            listed(self@.poor, subject_order()),
    {
        self.rich.lemma_listed();
        self.poor.lemma_listed();
    }

    /// Writes `subject` into `tier` with `marker`, over any entry it had in
    /// that tier. An entry it holds in the other tier stays.
    pub fn set_tier(&mut self, subject: String, tier: Tier, marker: u64)
        ensures
            final(self)@ == old(self)@.set_tier(subject@, tier, marker),
    {
        match tier {
            Tier::Rich => self.rich.record(subject, marker),
            Tier::Poor => self.poor.record(subject, marker),
        }
    }

    /// The marker under which `subject` stands in `tier`, if it does.
    pub fn marker_in(&self, tier: Tier, subject: &str) -> (marker: Option<u64>)
        ensures
            marker == match tier {
                Tier::Rich => if self@.rich.contains_key(subject@) {
                    Some(self@.rich[subject@])
                } else {
                    None
                },
                Tier::Poor => if self@.poor.contains_key(subject@) {
                    Some(self@.poor[subject@])
                } else {
                    None
                },
            },
    {
        match tier {
            Tier::Rich => self.rich.marker_of(subject),
            Tier::Poor => self.poor.marker_of(subject),
        }
    }

    /// The rich subjects with their markers, in ascending order of subject.
    pub fn list_rich(&self) -> (list: Vec<Evaluation>)
        ensures
            evaluations_view(list@) == ascending_entries(self@.rich, subject_order()),
            listed(self@.rich, subject_order()),
    {
        self.rich.list()
    }

    /// The poor subjects with their markers, in ascending order of subject.
    pub fn list_poor(&self) -> (list: Vec<Evaluation>)
        ensures
            evaluations_view(list@) == ascending_entries(self@.poor, subject_order()),
            listed(self@.poor, subject_order()),
    {
        self.poor.list()
    }
}

} // verus!

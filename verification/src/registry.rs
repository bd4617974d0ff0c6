//! The object registry: which subject stands behind each confirmed request
//! identifier.

use crate::error::ManagerError;
use crate::order::{
    ascending_entries, ascending_values, id_order, lemma_id_order_strict_total, listed,
};
use crate::sorted::{
    as_map, is_gap, keys_ascend, lemma_empty, lemma_entry, lemma_gap, lemma_insert, lemma_listed,
    lemma_listing,
};
use vstd::prelude::*;

verus! {

/// A confirmed binding of a request identifier to the subject it watches.
#[derive(Debug, PartialEq, Eq)]
pub struct Binding {
    pub request_id: u64,
    pub subject: String,
}

impl Clone for Binding {
    fn clone(&self) -> (copy: Self)
        ensures
            copy == *self,
    {
        Binding { request_id: self.request_id, subject: self.subject.clone() }
    }
}

/// What a list of bindings says: each identifier with the subject's text.
pub open spec fn bindings_view(list: Seq<Binding>) -> Seq<(u64, Seq<char>)> {
    list.map_values(|b: Binding| (b.request_id, b.subject@))
}

/// What a list of subjects says: the text of each.
pub open spec fn subjects_view(list: Seq<String>) -> Seq<Seq<char>> {
    list.map_values(|s: String| s@)
}

/// What binding `subject` to `request_id` does to a registry: an identifier
/// that is already bound is refused and the registry stays as it is.
pub open spec fn bind_spec(
    registry: Map<u64, Seq<char>>,
    request_id: u64,
    subject: Seq<char>,
) -> (Map<u64, Seq<char>>, Result<(), ManagerError>) {
    if registry.contains_key(request_id) {
        (registry, Err(ManagerError::DuplicateBinding))
    } else {
        (registry.insert(request_id, subject), Ok(()))
    }
}

/// What resolving `request_id` in a registry yields.
pub open spec fn resolve_spec(registry: Map<u64, Seq<char>>, request_id: u64) -> Result<
    Seq<char>,
    ManagerError,
> {
    if registry.contains_key(request_id) {
        Ok(registry[request_id])
    } else {
        Err(ManagerError::NotFound)
    }
}

/// The durable mapping from request identifier to subject. A binding, once
/// made, is never changed or removed.
pub struct ObjectRegistry {
    bindings: Vec<Binding>,
}

impl View for ObjectRegistry {
    type V = Map<u64, Seq<char>>;

    closed spec fn view(&self) -> Map<u64, Seq<char>> {
        as_map(bindings_view(self.bindings@))
    }
}

impl ObjectRegistry {
    #[verifier::type_invariant]
    spec fn ordered(&self) -> bool {
        keys_ascend(bindings_view(self.bindings@), id_order())
    }

    /// A registry with no binding.
    pub fn new() -> (registry: Self)
        ensures
            registry@ == Map::<u64, Seq<char>>::empty(),
    {
        let registry = ObjectRegistry { bindings: Vec::new() };
        proof {
            lemma_empty::<u64, Seq<char>>();
            assert(bindings_view(registry.bindings@) =~= Seq::empty());
        }
        registry
    }

    /// A registry holds finitely many bindings, and the ascending listing of
    /// its identifiers holds each bound identifier exactly once and no other.
    pub proof fn lemma_listed(&self)
        ensures
            listed(self@, id_order()),
    {
        lemma_id_order_strict_total();
        lemma_listed(bindings_view(self.bindings@), id_order());
    }

    /// The slot that holds `request_id`, or else the gap where it would go.
    fn slot(&self, request_id: u64) -> (found: (usize, bool))
        ensures
            found.0 <= self.bindings.len(),
            found.1 <==> self@.contains_key(request_id),
            found.1 ==> found.0 < self.bindings.len() && self@[request_id]
                == self.bindings[found.0 as int].subject@,
            !found.1 ==> is_gap(
                bindings_view(self.bindings@),
                id_order(),
                found.0 as int,
                request_id,
            ),
    {
        let ghost list = bindings_view(self.bindings@);
        proof {
            use_type_invariant(self);
            lemma_id_order_strict_total();
        }
        let mut at: usize = 0;
        while at < self.bindings.len() && self.bindings[at].request_id < request_id
            invariant
                at <= self.bindings.len(),
                list == bindings_view(self.bindings@),
                forall|i: int| 0 <= i < at ==> id_order()((#[trigger] list[i]).0, request_id),
            decreases self.bindings.len() - at,
        {
            at += 1;
        }
        let hit = at < self.bindings.len() && self.bindings[at].request_id == request_id;
        proof {
            if hit {
                lemma_entry(list, id_order(), at as int);
            } else {
                lemma_gap(list, id_order(), at as int, request_id);
            }
        }
        (at, hit)
    }

    /// Whether `request_id` is bound.
    pub fn is_bound(&self, request_id: u64) -> (bound: bool)
        ensures
            bound == self@.contains_key(request_id),
    {
        self.slot(request_id).1
    }

    /// The subject bound to `request_id`.
    pub fn resolve(&self, request_id: u64) -> (r: Result<String, ManagerError>)
        ensures
            match r {
                Ok(subject) => resolve_spec(self@, request_id) == Ok::<Seq<char>, ManagerError>(
                    subject@,
                ),
                Err(e) => resolve_spec(self@, request_id) == Err::<Seq<char>, ManagerError>(e),
            },
    {
        let (at, hit) = self.slot(request_id);
        if hit {
            Ok(self.bindings[at].subject.clone())
        } else {
            Err(ManagerError::NotFound)
        }
    }

    /// Binds `request_id` to `subject`, unless the identifier is bound already.
    pub fn bind(&mut self, request_id: u64, subject: String) -> (r: Result<(), ManagerError>)
        ensures
            (final(self)@, r) == bind_spec(old(self)@, request_id, subject@),
    {
        let (at, hit) = self.slot(request_id);
        if hit {
            return Err(ManagerError::DuplicateBinding);
        }
        let binding = Binding { request_id, subject };
        proof {
            use_type_invariant(&*self);
            lemma_id_order_strict_total();
            let list = bindings_view(self.bindings@);
            lemma_insert(list, id_order(), at as int, (request_id, binding.subject@));
            assert(bindings_view(self.bindings@.insert(at as int, binding)) =~= list.insert(
                at as int,
                (request_id, binding.subject@),
            ));
        }
        let mut bindings: Vec<Binding> = Vec::new();
        core::mem::swap(&mut self.bindings, &mut bindings);
        bindings.insert(at, binding);
        self.bindings = bindings;
        Ok(())
    }

    /// The bindings, in ascending order of request identifier.
    pub fn entries(&self) -> (list: Vec<Binding>)
        ensures
            bindings_view(list@) == ascending_entries(self@, id_order()),
            listed(self@, id_order()),
    {
        proof {
            self.lemma_listed();
        }
        let mut list: Vec<Binding> = Vec::new();
        let mut i: usize = 0;
        while i < self.bindings.len()
            invariant
                i <= self.bindings.len(),
                list.len() == i,
                forall|j: int| 0 <= j < i ==> list[j] == self.bindings[j],
            decreases self.bindings.len() - i,
        {
            list.push(self.bindings[i].clone());
            i += 1;
        }
        proof {
            use_type_invariant(self);
            lemma_id_order_strict_total();
            assert(list@ =~= self.bindings@);
            lemma_listing(bindings_view(self.bindings@), id_order());
        }
        list
    }

    /// The watched subjects, in ascending order of request identifier.
    pub fn list_all(&self) -> (subjects: Vec<String>)
        ensures
            subjects_view(subjects@) == ascending_values(self@, id_order()),
            listed(self@, id_order()),
    {
        proof {
            self.lemma_listed();
        }
        let mut subjects: Vec<String> = Vec::new();
        let mut i: usize = 0;
        while i < self.bindings.len()
            invariant
                i <= self.bindings.len(),
                subjects.len() == i,
                forall|j: int| 0 <= j < i ==> subjects[j]@ == self.bindings[j].subject@,
            decreases self.bindings.len() - i,
        {
            subjects.push(self.bindings[i].subject.clone());
            i += 1;
        }
        proof {
            use_type_invariant(self);
            lemma_id_order_strict_total();
            let list = bindings_view(self.bindings@);
            lemma_listing(list, id_order());
            assert(ascending_entries(self@, id_order()).len() == list.len());
            assert forall|j: int| 0 <= j < subjects.len() implies subjects_view(subjects@)[j]
                == ascending_values(self@, id_order())[j] by {
                assert(ascending_entries(self@, id_order())[j] == list[j]);
            }
            assert(subjects_view(subjects@) =~= ascending_values(self@, id_order()));
        }
        subjects
    }
}

} // verus!

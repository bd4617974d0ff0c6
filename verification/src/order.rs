//! Strict total orders, and the one way to list a finite set in ascending
//! order.
//!
//! Request identifiers are ordered as numbers. Subjects are ordered by the
//! bytes of their UTF-8 encoding, compared position by position, a proper
//! prefix sorting first.

use vstd::prelude::*;
use vstd::utf8::*;

verus! {

/// `lt` is irreflexive, transitive, and relates any two distinct values.
pub open spec fn strict_total_order<K>(lt: spec_fn(K, K) -> bool) -> bool {
    &&& forall|a: K| !#[trigger] lt(a, a)
    &&& forall|a: K, b: K, c: K| #[trigger] lt(a, b) && #[trigger] lt(b, c) ==> lt(a, c)
    &&& forall|a: K, b: K| #![trigger lt(a, b)] lt(a, b) || a == b || lt(b, a)
}

/// Every element of `keys` sorts strictly before the ones after it.
pub open spec fn ascending<K>(keys: Seq<K>, lt: spec_fn(K, K) -> bool) -> bool {
    forall|i: int, j: int| 0 <= i < j < keys.len() ==> lt(#[trigger] keys[i], #[trigger] keys[j])
}

/// `keys` lists exactly the members of `dom`, in ascending order.
pub open spec fn enumerates<K>(keys: Seq<K>, dom: Set<K>, lt: spec_fn(K, K) -> bool) -> bool {
    &&& ascending(keys, lt)
    &&& forall|k: K| dom.contains(k) <==> keys.contains(k)
}

/// The members of `dom` in ascending order. Meaningful where `dom` is finite
/// and `lt` is a strict total order; [`lemma_enumeration_unique`] shows that
/// there is then only one such listing.
pub open spec fn ascending_keys<K>(dom: Set<K>, lt: spec_fn(K, K) -> bool) -> Seq<K> {
    choose|keys: Seq<K>| enumerates(keys, dom, lt)
}

/// The entries of `m` in ascending order of their keys.
pub open spec fn ascending_entries<K, V>(m: Map<K, V>, lt: spec_fn(K, K) -> bool) -> Seq<(K, V)> {
    ascending_keys(m.dom(), lt).map_values(|k: K| (k, m[k]))
}

/// The values of `m` in ascending order of their keys.
pub open spec fn ascending_values<K, V>(m: Map<K, V>, lt: spec_fn(K, K) -> bool) -> Seq<V> {
    ascending_keys(m.dom(), lt).map_values(|k: K| m[k])
}

/// Two ascending listings of the same set are the same sequence.
pub proof fn lemma_enumeration_unique<K>(
    a: Seq<K>,
    b: Seq<K>,
    dom: Set<K>,
    lt: spec_fn(K, K) -> bool,
)
    requires
        strict_total_order(lt),
        enumerates(a, dom, lt),
        enumerates(b, dom, lt),
    ensures
        a == b,
    decreases a.len(),
{
    if a.len() == 0 {
        if b.len() > 0 {
            assert(b.contains(b[0]));
            assert(a.contains(b[0]));
        }
        assert(a =~= b);
    } else {
        let head = a[0];
        assert(a.contains(head));
        assert(b.contains(head));
        let j = choose|j: int| 0 <= j < b.len() && b[j] == head;
        assert(b.contains(b[0]));
        let i = choose|i: int| 0 <= i < a.len() && a[i] == b[0];
        if i > 0 && j > 0 {
            assert(lt(a[0], a[i]));
            assert(lt(b[0], b[j]));
            assert(lt(head, head));
        }
        assert(b[0] == head);
        let rest_a = a.drop_first();
        let rest_b = b.drop_first();
        let rest = dom.remove(head);
        assert(enumerates(rest_a, rest, lt)) by {
            lemma_tail_enumerates(a, dom, lt);
        }
        assert(enumerates(rest_b, rest, lt)) by {
            lemma_tail_enumerates(b, dom, lt);
        }
        lemma_enumeration_unique(rest_a, rest_b, rest, lt);
        assert(a =~= seq![head] + rest_a);
        assert(b =~= seq![head] + rest_b);
    }
}

proof fn lemma_tail_enumerates<K>(a: Seq<K>, dom: Set<K>, lt: spec_fn(K, K) -> bool)
    requires
        strict_total_order(lt),
        enumerates(a, dom, lt),
        a.len() > 0,
    ensures
        enumerates(a.drop_first(), dom.remove(a[0]), lt),
{
    let head = a[0];
    let tail = a.drop_first();
    assert forall|i: int, j: int| 0 <= i < j < tail.len() implies lt(
        #[trigger] tail[i],
        #[trigger] tail[j],
    ) by {
        assert(lt(a[i + 1], a[j + 1]));
    }
    assert forall|k: K| dom.remove(head).contains(k) <==> tail.contains(k) by {
        if dom.remove(head).contains(k) {
            assert(a.contains(k));
            let i = choose|i: int| 0 <= i < a.len() && a[i] == k;
            assert(tail[i - 1] == k);
        }
        if tail.contains(k) {
            let i = choose|i: int| 0 <= i < tail.len() && tail[i] == k;
            assert(a[i + 1] == k);
            assert(a.contains(k));
            assert(lt(a[0], a[i + 1]));
        }
    }
}

/// An ascending listing of a set is the listing that [`ascending_keys`] names.
pub proof fn lemma_ascending_keys_is<K>(keys: Seq<K>, dom: Set<K>, lt: spec_fn(K, K) -> bool)
    requires
        strict_total_order(lt),
        enumerates(keys, dom, lt),
    ensures
        ascending_keys(dom, lt) == keys,
{
    lemma_enumeration_unique(ascending_keys(dom, lt), keys, dom, lt);
}

/// The first position at or after `from` whose key does not sort before
/// `key`: where `key` belongs among ascending `keys`.
pub open spec fn gap_from<K>(keys: Seq<K>, lt: spec_fn(K, K) -> bool, key: K, from: int) -> int
    decreases keys.len() - from,
{
    if 0 <= from < keys.len() && lt(keys[from], key) {
        gap_from(keys, lt, key, from + 1)
    } else {
        from
    }
}

proof fn lemma_gap_from<K>(keys: Seq<K>, lt: spec_fn(K, K) -> bool, key: K, from: int)
    requires
        0 <= from <= keys.len(),
    ensures
        from <= gap_from(keys, lt, key, from) <= keys.len(),
        forall|i: int| from <= i < gap_from(keys, lt, key, from) ==> lt(#[trigger] keys[i], key),
        gap_from(keys, lt, key, from) < keys.len() ==> !lt(
            keys[gap_from(keys, lt, key, from)],
            key,
        ),
    decreases keys.len() - from,
{
    if from < keys.len() && lt(keys[from], key) {
        lemma_gap_from(keys, lt, key, from + 1);
    }
}

/// An ascending listing takes a further key at the place where it belongs.
pub proof fn lemma_enumeration_grows<K>(
    keys: Seq<K>,
    dom: Set<K>,
    lt: spec_fn(K, K) -> bool,
    key: K,
)
    requires
        strict_total_order(lt),
        enumerates(keys, dom, lt),
        !dom.contains(key),
    ensures
        enumerates(keys.insert(gap_from(keys, lt, key, 0), key), dom.insert(key), lt),
{
    let at = gap_from(keys, lt, key, 0);
    let grown = keys.insert(at, key);
    lemma_gap_from(keys, lt, key, 0);
    assert forall|i: int| at <= i < keys.len() implies lt(key, #[trigger] keys[i]) by {
        assert(keys.contains(keys[at]));
        assert(keys.contains(keys[i]));
        if at < i {
            assert(lt(keys[at], keys[i]));
        }
    }
    assert forall|i: int, j: int| 0 <= i < j < grown.len() implies lt(
        #[trigger] grown[i],
        #[trigger] grown[j],
    ) by {
        if j < at {
            assert(lt(keys[i], keys[j]));
        } else if j == at {
            assert(lt(keys[i], key));
        } else if i < at {
            assert(lt(keys[i], keys[j - 1]));
        } else if i == at {
            assert(lt(key, keys[j - 1]));
        } else {
            assert(lt(keys[i - 1], keys[j - 1]));
        }
    }
    assert forall|k: K| dom.insert(key).contains(k) <==> grown.contains(k) by {
        if dom.contains(k) {
            assert(keys.contains(k));
            let i = choose|i: int| 0 <= i < keys.len() && keys[i] == k;
            if i < at {
                assert(grown[i] == k);
            } else {
                assert(grown[i + 1] == k);
            }
        }
        if k == key {
            assert(grown[at] == k);
        }
        if grown.contains(k) {
            let i = choose|i: int| 0 <= i < grown.len() && grown[i] == k;
            if i < at {
                assert(keys[i] == k);
                assert(keys.contains(k));
            } else if i > at {
                assert(keys[i - 1] == k);
                assert(keys.contains(k));
            }
        }
    }
}

proof fn lemma_finite_set_has_listing<K>(dom: Set<K>, lt: spec_fn(K, K) -> bool)
    requires
        dom.finite(),
        strict_total_order(lt),
    ensures
        exists|keys: Seq<K>| #[trigger] enumerates(keys, dom, lt) && keys.len() == dom.len(),
    decreases dom.len(),
{
    if dom.len() == 0 {
        let keys = Seq::<K>::empty();
        dom.lemma_len0_is_empty();
        assert(enumerates(keys, dom, lt));
    } else {
        let key = dom.choose();
        let rest = dom.remove(key);
        lemma_finite_set_has_listing(rest, lt);
        let keys = choose|keys: Seq<K>| #[trigger] enumerates(keys, rest, lt) && keys.len() == rest.len();
        lemma_enumeration_grows(keys, rest, lt, key);
        lemma_gap_from(keys, lt, key, 0);
        assert(rest.insert(key) =~= dom);
        let grown = keys.insert(gap_from(keys, lt, key, 0), key);
        assert(enumerates(grown, dom, lt));
    }
}

/// Every finite set has its ascending listing: under a strict total order,
/// [`ascending_keys`] lists each member of a finite set exactly once, in
/// ascending order, and nothing else.
pub proof fn lemma_ascending_keys_enumerate<K>(dom: Set<K>, lt: spec_fn(K, K) -> bool)
    requires
        dom.finite(),
        strict_total_order(lt),
    ensures
        enumerates(ascending_keys(dom, lt), dom, lt),
        ascending_keys(dom, lt).len() == dom.len(),
{
    lemma_finite_set_has_listing(dom, lt);
    let keys = choose|keys: Seq<K>| #[trigger] enumerates(keys, dom, lt) && keys.len() == dom.len();
    lemma_ascending_keys_is(keys, dom, lt);
}

/// `m` has finitely many keys, and its ascending listing holds each of them
/// exactly once and nothing else.
pub open spec fn listed<K, V>(m: Map<K, V>, lt: spec_fn(K, K) -> bool) -> bool {
    &&& m.dom().finite()
    &&& enumerates(ascending_keys(m.dom(), lt), m.dom(), lt)
    &&& ascending_keys(m.dom(), lt).len() == m.dom().len()
}

/// The numeric order of request identifiers.
pub open spec fn id_order() -> spec_fn(u64, u64) -> bool {
    |a: u64, b: u64| a < b
}

/// The numeric order of request identifiers is a strict total order.
pub proof fn lemma_id_order_strict_total()
    ensures
        strict_total_order(id_order()),
{
}

/// `a` and `b` agree before position `k`, where `a` has ended or holds the
/// smaller byte.
pub open spec fn diverge_at(a: Seq<u8>, b: Seq<u8>, k: int) -> bool {
    &&& 0 <= k <= a.len()
    &&& k < b.len()
    &&& forall|j: int| 0 <= j < k ==> a[j] == b[j]
    &&& k < a.len() ==> a[k] < b[k]
}

/// `a` sorts strictly before `b`, byte by byte.
pub open spec fn bytes_lt(a: Seq<u8>, b: Seq<u8>) -> bool {
    exists|k: int| diverge_at(a, b, k)
}

/// The subject `a` sorts strictly before the subject `b`.
pub open spec fn subject_lt(a: Seq<char>, b: Seq<char>) -> bool {
    bytes_lt(encode_utf8(a), encode_utf8(b))
}

/// The order of subjects, as a value to list by.
pub open spec fn subject_order() -> spec_fn(Seq<char>, Seq<char>) -> bool {
    |a: Seq<char>, b: Seq<char>| subject_lt(a, b)
}

/// No byte string sorts before itself.
pub proof fn lemma_bytes_lt_irreflexive(a: Seq<u8>)
    ensures
        !bytes_lt(a, a),
{
}

/// Sorting before is transitive on byte strings.
pub proof fn lemma_bytes_lt_transitive(a: Seq<u8>, b: Seq<u8>, c: Seq<u8>)
    requires
        bytes_lt(a, b),
        bytes_lt(b, c),
    ensures
        bytes_lt(a, c),
{
    let k1 = choose|k: int| diverge_at(a, b, k);
    let k2 = choose|k: int| diverge_at(b, c, k);
    if k1 <= k2 {
        assert(diverge_at(a, c, k1));
    } else {
        assert(diverge_at(a, c, k2));
    }
}

proof fn lemma_bytes_total_from(a: Seq<u8>, b: Seq<u8>, i: int)
    requires
        0 <= i <= a.len(),
        i <= b.len(),
        forall|j: int| 0 <= j < i ==> a[j] == b[j],
    ensures
        bytes_lt(a, b) || a == b || bytes_lt(b, a),
    decreases a.len() - i,
{
    if i == a.len() {
        if i == b.len() {
            assert(a =~= b);
        } else {
            assert(diverge_at(a, b, i));
        }
    } else if i == b.len() {
        assert(diverge_at(b, a, i));
    } else if a[i] < b[i] {
        assert(diverge_at(a, b, i));
    } else if b[i] < a[i] {
        assert(diverge_at(b, a, i));
    } else {
        lemma_bytes_total_from(a, b, i + 1);
    }
}

/// Of two distinct byte strings one sorts before the other.
pub proof fn lemma_bytes_lt_total(a: Seq<u8>, b: Seq<u8>)
    ensures
        bytes_lt(a, b) || a == b || bytes_lt(b, a),
{
    lemma_bytes_total_from(a, b, 0);
}

/// Subjects with the same encoding are the same subject.
pub proof fn lemma_encoding_injective(a: Seq<char>, b: Seq<char>)
    requires
        encode_utf8(a) == encode_utf8(b),
    ensures
        a == b,
{
    encode_utf8_decode_utf8(a);
    encode_utf8_decode_utf8(b);
}

/// The order of subjects is a strict total order.
pub proof fn lemma_subject_order_strict_total()
    ensures
        strict_total_order(subject_order()),
{
    let lt = subject_order();
    assert forall|a: Seq<char>, b: Seq<char>, c: Seq<char>| #[trigger]
        lt(a, b) && #[trigger] lt(b, c) implies lt(a, c) by {
        lemma_bytes_lt_transitive(encode_utf8(a), encode_utf8(b), encode_utf8(c));
    }
    assert forall|a: Seq<char>, b: Seq<char>| #![trigger lt(a, b)]
        lt(a, b) || a == b || lt(b, a) by {
        lemma_bytes_lt_total(encode_utf8(a), encode_utf8(b));
        if encode_utf8(a) == encode_utf8(b) {
            lemma_encoding_injective(a, b);
        }
    }
}

/// Where one subject stands relative to another.
#[derive(Clone, Copy, Debug, PartialEq, Eq, Structural)]
pub enum Rank {
    /// It sorts strictly before the other.
    Before,
    /// The two are the same subject.
    Same,
    /// It sorts strictly after the other.
    After,
}

/// The rank that the order of subjects gives `a` relative to `b`.
pub open spec fn rank_of(a: Seq<char>, b: Seq<char>) -> Rank {
    if subject_lt(a, b) {
        Rank::Before
    } else if a == b {
        Rank::Same
    } else {
        Rank::After
    }
}

/// Compares two subjects by the bytes of their encoding.
pub fn compare_subjects(a: &str, b: &str) -> (r: Rank)
    ensures
        r == rank_of(a@, b@),
        r == Rank::After <==> subject_lt(b@, a@),
{
    let x = a.as_bytes();
    let y = b.as_bytes();
    proof {
        lemma_bytes_lt_irreflexive(x@);
        if bytes_lt(x@, y@) && bytes_lt(y@, x@) {
            lemma_bytes_lt_transitive(x@, y@, x@);
        }
    }
    let mut i: usize = 0;
    while i < x.len() && i < y.len()
        invariant
            i <= x.len(),
            i <= y.len(),
            forall|j: int| 0 <= j < i ==> x@[j] == y@[j],
            x@ == encode_utf8(a@),
            y@ == encode_utf8(b@),
            !(bytes_lt(x@, y@) && bytes_lt(y@, x@)),
        decreases x.len() - i,
    {
        if x[i] < y[i] {
            assert(diverge_at(x@, y@, i as int));
            return Rank::Before;
        }
        if y[i] < x[i] {
            assert(diverge_at(y@, x@, i as int));
            return Rank::After;
        }
        i += 1;
    }
    if i < y.len() {
        assert(diverge_at(x@, y@, i as int));
        Rank::Before
    } else if i < x.len() {
        assert(diverge_at(y@, x@, i as int));
        Rank::After
    } else {
        proof {
            assert(x@ =~= y@);
            lemma_encoding_injective(a@, b@);
        }
        Rank::Same
    }
}

} // verus!

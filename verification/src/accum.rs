//! Sorted association tables that accumulate pseudonormal sums.
//!
//! A table is a vector of `(key, wide sum)` entries kept strictly sorted by
//! key, so the same geometry always yields the same table no matter in which
//! order its triangles were visited. The wide `i128` accumulators hold the
//! exact integer sums of the fixed-point contributions; they are squashed
//! back into saturating `i64` vectors once accumulation is finished.

use vstd::prelude::*;
use crate::vec3::{sat_i64, V3};

verus! {

/// Exact wide accumulator for one pseudonormal sum.
#[derive(Clone, Copy, PartialEq, Eq, Structural, Debug)]
pub struct W3 {
    pub x: i128,
    pub y: i128,
    pub z: i128,
}

/// The mathematical value of a wide accumulator.
pub open spec fn w3n(w: W3) -> (int, int, int) {
    (w.x as int, w.y as int, w.z as int)
}

/// The mathematical value of a fixed-point vector.
pub open spec fn v3n(v: V3) -> (int, int, int) {
    (v.x as int, v.y as int, v.z as int)
}

pub open spec fn nsum_add(u: (int, int, int), v: (int, int, int)) -> (int, int, int) {
    (u.0 + v.0, u.1 + v.1, u.2 + v.2)
}

/// Saturate an exact sum back into a fixed-point vector.
pub open spec fn nsum_sat(u: (int, int, int)) -> V3 {
    V3 { x: sat_i64(u.0), y: sat_i64(u.1), z: sat_i64(u.2) }
}

/// The value a key holds in an accumulation map, zero when absent.
pub open spec fn map_get0<K>(m: Map<K, (int, int, int)>, k: K) -> (int, int, int) {
    if m.dom().contains(k) {
        m[k]
    } else {
        (0, 0, 0)
    }
}

/// Add a contribution to one key of an accumulation map.
pub open spec fn map_bump<K>(m: Map<K, (int, int, int)>, k: K, c: (int, int, int)) -> Map<
    K,
    (int, int, int),
> {
    m.insert(k, nsum_add(map_get0(m, k), c))
}

/// Contributions to an accumulation map commute: integer addition is
/// commutative and associative, and updates of distinct keys are independent.
pub proof fn lemma_map_bump_comm<K>(
    m: Map<K, (int, int, int)>,
    k1: K,
    c1: (int, int, int),
    k2: K,
    c2: (int, int, int),
)
    ensures
        map_bump(map_bump(m, k1, c1), k2, c2) == map_bump(map_bump(m, k2, c2), k1, c1),
{
    assert(map_bump(map_bump(m, k1, c1), k2, c2) =~= map_bump(map_bump(m, k2, c2), k1, c1));
}

/// One contribution moves left through three others without changing the
/// resulting accumulation map.
pub proof fn lemma_map_bump_push1<K>(
    m: Map<K, (int, int, int)>,
    k1: K,
    c1: (int, int, int),
    k2: K,
    c2: (int, int, int),
    k3: K,
    c3: (int, int, int),
    l: K,
    d: (int, int, int),
)
    ensures
        map_bump(map_bump(map_bump(map_bump(m, k1, c1), k2, c2), k3, c3), l, d) == map_bump(
            map_bump(map_bump(map_bump(m, l, d), k1, c1), k2, c2),
            k3,
            c3,
        ),
{
    lemma_map_bump_comm(map_bump(map_bump(m, k1, c1), k2, c2), k3, c3, l, d);
    lemma_map_bump_comm(map_bump(m, k1, c1), k2, c2, l, d);
    lemma_map_bump_comm(m, k1, c1, l, d);
}

/// Two groups of three contributions commute as wholes.
pub proof fn lemma_map_bump3_swap<K>(
    m: Map<K, (int, int, int)>,
    k1: K,
    c1: (int, int, int),
    k2: K,
    c2: (int, int, int),
    k3: K,
    c3: (int, int, int),
    l1: K,
    d1: (int, int, int),
    l2: K,
    d2: (int, int, int),
    l3: K,
    d3: (int, int, int),
)
    ensures
        map_bump(
            map_bump(
                map_bump(map_bump(map_bump(map_bump(m, k1, c1), k2, c2), k3, c3), l1, d1),
                l2,
                d2,
            ),
            l3,
            d3,
        ) == map_bump(
            map_bump(
                map_bump(map_bump(map_bump(map_bump(m, l1, d1), l2, d2), l3, d3), k1, c1),
                k2,
                c2,
            ),
            k3,
            c3,
        ),
{
    lemma_map_bump_push1(m, k1, c1, k2, c2, k3, c3, l1, d1);
    lemma_map_bump_push1(map_bump(m, l1, d1), k1, c1, k2, c2, k3, c3, l2, d2);
    lemma_map_bump_push1(map_bump(map_bump(m, l1, d1), l2, d2), k1, c1, k2, c2, k3, c3, l3, d3);
}

/// A magnitude bound on a table may be relaxed.
pub proof fn lemma_table_within_mono<K>(s: Seq<(K, W3)>, b1: int, b2: int)
    requires
        table_within(s, b1),
        b1 <= b2,
    ensures
        table_within(s, b2),
{
    assert forall|i: int| 0 <= i < s.len() implies w3_within(#[trigger] s[i].1, b2) by {
        assert(w3_within(s[i].1, b1));
    }
}

/// Keys that can index a sorted accumulation table: copyable values with a
/// strict total order whose executable comparison matches the specification.
pub trait SortKey: Sized + Copy {
    spec fn lt(self, other: Self) -> bool;

    /// The order is a strict total order.
    proof fn lemma_strict_total(a: Self, b: Self, c: Self)
        ensures
            !a.lt(a),
            a.lt(b) && b.lt(c) ==> a.lt(c),
            a.lt(b) || b.lt(a) || a == b,
    ;

    fn kless(&self, other: &Self) -> (r: bool)
        ensures
            r == self.lt(*other),
    ;

    fn keq(&self, other: &Self) -> (r: bool)
        ensures
            r == (*self == *other),
    ;
}

/// Entries are strictly sorted by key (hence keys are unique).
pub open spec fn table_sorted<K: SortKey>(s: Seq<(K, W3)>) -> bool {
    forall|i: int, j: int| 0 <= i < j < s.len() ==> #[trigger] s[i].0.lt(#[trigger] s[j].0)
}

pub open spec fn table_has_key<K>(s: Seq<(K, W3)>, k: K) -> bool {
    exists|i: int| 0 <= i < s.len() && s[i].0 == k
}

pub open spec fn table_index_of<K>(s: Seq<(K, W3)>, k: K) -> int {
    choose|i: int| 0 <= i < s.len() && s[i].0 == k
}

/// The accumulation map a table stands for.
pub open spec fn table_map<K>(s: Seq<(K, W3)>) -> Map<K, (int, int, int)> {
    Map::new(|k: K| table_has_key(s, k), |k: K| w3n(s[table_index_of(s, k)].1))
}

pub open spec fn w3_within(w: W3, b: int) -> bool {
    &&& -b <= w.x as int <= b
    &&& -b <= w.y as int <= b
    &&& -b <= w.z as int <= b
}

/// Every accumulator in the table is within magnitude `b`.
pub open spec fn table_within<K>(s: Seq<(K, W3)>, b: int) -> bool {
    forall|i: int| 0 <= i < s.len() ==> w3_within(#[trigger] s[i].1, b)
}

/// In a sorted table the entry at index `i` decides the map at its key.
pub proof fn lemma_table_at<K: SortKey>(s: Seq<(K, W3)>, i: int)
    requires
        table_sorted(s),
        0 <= i < s.len(),
    ensures
        table_map(s).dom().contains(s[i].0),
        table_map(s)[s[i].0] == w3n(s[i].1),
{
    assert(table_has_key(s, s[i].0));
    let j = table_index_of(s, s[i].0);
    if i < j {
        K::lemma_strict_total(s[j].0, s[j].0, s[j].0);
        assert(s[i].0.lt(s[j].0));
    } else if j < i {
        K::lemma_strict_total(s[i].0, s[i].0, s[i].0);
        assert(s[j].0.lt(s[i].0));
    }
}

/// One raw contribution bound: fixed-point components fit in an `i64`.
pub open spec fn contrib_bound() -> int {
    0x8000_0000_0000_0000
}

/// Magnitude cap under which one more contribution cannot overflow `i128`.
pub open spec fn table_cap() -> int {
    0x4000_0000_0000_0000_0000_0000_0000_0000 - 0x8000_0000_0000_0000
}

/// Add one contribution to the table, keeping it sorted; the represented
/// map gains exactly this contribution at this key.
pub fn table_bump<K: SortKey>(acc: &mut Vec<(K, W3)>, key: K, c: V3, Ghost(b): Ghost<int>)
    requires
        table_sorted(old(acc)@),
        table_within(old(acc)@, b),
        0 <= b <= table_cap(),
    ensures
        table_sorted(final(acc)@),
        table_within(final(acc)@, b + contrib_bound()),
        table_map(final(acc)@) == map_bump(table_map(old(acc)@), key, v3n(c)),
        final(acc)@.len() <= old(acc)@.len() + 1,
{
    let ghost s0 = acc@;
    let mut i: usize = 0;
    while i < acc.len() && acc[i].0.kless(&key)
        invariant
            acc@ == s0,
            0 <= i <= s0.len(),
            forall|j: int| 0 <= j < i ==> #[trigger] s0[j].0.lt(key),
        decreases s0.len() - i,
    {
        i = i + 1;
    }
    proof {
        assert forall|j: int| i <= j < s0.len() implies !(#[trigger] s0[j].0 == key) || j == i by {
            if i < j {
                K::lemma_strict_total(s0[i as int].0, s0[j].0, key);
            }
        }
    }
    if i < acc.len() && acc[i].0.keq(&key) {
        let e = acc[i];
        proof {
            assert(w3_within(s0[i as int].1, b));
        }
        let w = W3 { x: e.1.x + (c.x as i128), y: e.1.y + (c.y as i128), z: e.1.z + (c.z as i128) };
        acc.set(i, (key, w));
        proof {
            let s1 = acc@;
            assert forall|p: int, q: int| 0 <= p < q < s1.len() implies #[trigger] s1[p].0.lt(
                #[trigger] s1[q].0,
            ) by {
                assert(s1[p].0 == s0[p].0);
                assert(s1[q].0 == s0[q].0);
            }
            lemma_table_at(s0, i as int);
            assert(table_map(s1) =~= map_bump(table_map(s0), key, v3n(c))) by {
                assert forall|k: K| table_has_key(s1, k) implies table_has_key(s0, k) by {
                    let p = table_index_of(s1, k);
                    assert(s0[p].0 == s1[p].0);
                }
                assert forall|k: K| table_has_key(s0, k) implies table_has_key(s1, k) by {
                    let p = table_index_of(s0, k);
                    assert(s1[p].0 == s0[p].0);
                }
                assert forall|k: K| #[trigger] table_has_key(s1, k) implies table_map(s1)[k]
                    == map_bump(table_map(s0), key, v3n(c))[k] by {
                    let p = table_index_of(s1, k);
                    lemma_table_at(s1, p);
                    if k == key {
                        assert(p == i) by {
                            if p != i {
                                if p < i {
                                    K::lemma_strict_total(s1[p].0, s0[i as int].0, key);
                                    assert(s0[p].0.lt(key));
                                    assert(s1[p].0 == s0[p].0);
                                } else {
                                    assert(s1[i as int].0.lt(s1[p].0));
                                }
                            }
                        }
                    } else {
                        assert(p != i);
                        assert(s0[p].0 == k);
                        lemma_table_at(s0, p);
                    }
                }
            }
        }
    } else {
        proof {
            assert forall|j: int| 0 <= j < s0.len() implies !(#[trigger] s0[j].0 == key) by {
                K::lemma_strict_total(key, key, key);
                if j < i {
                    assert(s0[j].0.lt(key));
                } else if j == i {
                    assert(!s0[j].0.lt(key));
                }
            }
            assert(!table_has_key(s0, key));
            s0.insert_ensures(i as int, (key, W3 { x: c.x as i128, y: c.y as i128, z: c.z as i128 }));
            if i < s0.len() {
                K::lemma_strict_total(key, s0[i as int].0, key);
                assert(key.lt(s0[i as int].0));
            }
        }
        acc.insert(i, (key, W3 { x: c.x as i128, y: c.y as i128, z: c.z as i128 }));
        proof {
            let s1 = acc@;
            let ii = i as int;
            assert forall|p: int, q: int| 0 <= p < q < s1.len() implies #[trigger] s1[p].0.lt(
                #[trigger] s1[q].0,
            ) by {
                if p < ii && q == ii {
                    assert(s1[p].0 == s0[p].0);
                    assert(s0[p].0.lt(key));
                } else if p == ii && q > ii {
                    assert(s1[q].0 == s0[q - 1].0);
                    if ii < s0.len() {
                        if q - 1 > ii {
                            K::lemma_strict_total(key, s0[ii].0, s0[q - 1].0);
                        }
                    }
                } else if p < ii && q > ii {
                    assert(s1[p].0 == s0[p].0);
                    assert(s1[q].0 == s0[q - 1].0);
                    if q - 1 == p {
                        assert(s0[p].0.lt(key));
                        assert(key.lt(s0[q - 1].0));
                        K::lemma_strict_total(s0[p].0, key, s0[q - 1].0);
                    }
                } else if p > ii {
                    assert(s1[p].0 == s0[p - 1].0);
                    assert(s1[q].0 == s0[q - 1].0);
                } else {
                    assert(p < ii && q < ii);
                    assert(s1[p].0 == s0[p].0);
                    assert(s1[q].0 == s0[q].0);
                }
            }
            assert(table_map(s1) =~= map_bump(table_map(s0), key, v3n(c))) by {
                assert(s1[ii].0 == key);
                assert(table_has_key(s1, key));
                assert forall|k: K| table_has_key(s1, k) && k != key implies table_has_key(s0, k)
                    by {
                    let p = table_index_of(s1, k);
                    if p < ii {
                        assert(s0[p].0 == s1[p].0);
                    } else {
                        assert(p != ii);
                        assert(s0[p - 1].0 == s1[p].0);
                    }
                }
                assert forall|k: K| table_has_key(s0, k) implies table_has_key(s1, k) by {
                    let p = table_index_of(s0, k);
                    if p < ii {
                        assert(s1[p].0 == s0[p].0);
                    } else {
                        assert(s1[p + 1].0 == s0[p].0);
                    }
                }
                assert forall|k: K| #[trigger] table_has_key(s1, k) implies table_map(s1)[k]
                    == map_bump(table_map(s0), key, v3n(c))[k] by {
                    let p = table_index_of(s1, k);
                    lemma_table_at(s1, p);
                    if k == key {
                        assert(p == ii) by {
                            if p < ii {
                                assert(s1[p].0 == s0[p].0);
                                assert(s0[p].0.lt(key));
                                K::lemma_strict_total(key, key, key);
                            } else if p > ii {
                                assert(s1[ii].0.lt(s1[p].0));
                                K::lemma_strict_total(key, key, key);
                            }
                        }
                        assert(table_map(s1)[key] == v3n(c));
                    } else {
                        assert(p != ii);
                        let p0 = if p < ii {
                            p
                        } else {
                            p - 1
                        };
                        assert(s0[p0].0 == k);
                        lemma_table_at(s0, p0);
                        assert(s1[p].1 == s0[p0].1);
                    }
                }
            }
        }
    }
}

/// Squash a finished table into saturating fixed-point vectors, in key
/// order.
pub fn table_squash<K: SortKey>(acc: &Vec<(K, W3)>) -> (out: Vec<(K, V3)>)
    ensures
        out@.len() == acc@.len(),
        forall|i: int|
            0 <= i < acc@.len() ==> #[trigger] out@[i] == (
            acc@[i].0,
            nsum_sat(w3n(acc@[i].1)),
            ),
{
    let mut out: Vec<(K, V3)> = Vec::new();
    let mut i: usize = 0;
    while i < acc.len()
        invariant
            0 <= i <= acc@.len(),
            out@.len() == i,
            forall|j: int|
                0 <= j < i ==> #[trigger] out@[j] == (acc@[j].0, nsum_sat(w3n(acc@[j].1))),
        decreases acc@.len() - i,
    {
        let e = acc[i];
        let v = V3 { x: sat_i128_to_i64(e.1.x), y: sat_i128_to_i64(e.1.y), z: sat_i128_to_i64(e.1.z) };
        out.push((e.0, v));
        i = i + 1;
    }
    out
}

/// A squashed table lists, in strictly increasing key order, exactly the
/// keys of the accumulation map, each with the saturated value of its exact
/// sum.
pub open spec fn squashed_represents<K: SortKey>(
    vs: Seq<(K, V3)>,
    m: Map<K, (int, int, int)>,
) -> bool {
    &&& forall|i: int, j: int|
        0 <= i < j < vs.len() ==> #[trigger] vs[i].0.lt(#[trigger] vs[j].0)
    &&& forall|i: int|
        0 <= i < vs.len() ==> m.dom().contains(#[trigger] vs[i].0) && vs[i].1 == nsum_sat(
            m[vs[i].0],
        )
    &&& forall|k: K|
        #[trigger] m.dom().contains(k) ==> exists|i: int| 0 <= i < vs.len() && vs[i].0 == k
}

/// Squashing a sorted table yields a list that represents the table's map.
pub proof fn lemma_squash_represents<K: SortKey>(acc: Seq<(K, W3)>, out: Seq<(K, V3)>)
    requires
        table_sorted(acc),
        out.len() == acc.len(),
        forall|i: int| 0 <= i < acc.len() ==> #[trigger] out[i] == (acc[i].0, nsum_sat(w3n(acc[i].1))),
    ensures
        squashed_represents(out, table_map(acc)),
{
    let m = table_map(acc);
    assert forall|i: int, j: int| 0 <= i < j < out.len() implies #[trigger] out[i].0.lt(
        #[trigger] out[j].0,
    ) by {
        assert(out[i].0 == acc[i].0);
        assert(out[j].0 == acc[j].0);
    }
    assert forall|i: int| 0 <= i < out.len() implies m.dom().contains(#[trigger] out[i].0)
        && out[i].1 == nsum_sat(m[out[i].0]) by {
        lemma_table_at(acc, i);
    }
    assert forall|k: K| #[trigger] m.dom().contains(k) implies exists|i: int|
        0 <= i < out.len() && out[i].0 == k by {
        let i = table_index_of(acc, k);
        assert(out[i].0 == k);
    }
}

proof fn lemma_represents_tail<K: SortKey>(s: Seq<(K, V3)>, m: Map<K, (int, int, int)>)
    requires
        squashed_represents(s, m),
        s.len() > 0,
    ensures
        squashed_represents(s.subrange(1, s.len() as int), m.remove(s[0].0)),
{
    let k0 = s[0].0;
    let t = s.subrange(1, s.len() as int);
    let m2 = m.remove(k0);
    assert forall|i: int, j: int| 0 <= i < j < t.len() implies #[trigger] t[i].0.lt(
        #[trigger] t[j].0,
    ) by {
        assert(t[i] == s[i + 1]);
        assert(t[j] == s[j + 1]);
    }
    assert forall|i: int| 0 <= i < t.len() implies m2.dom().contains(#[trigger] t[i].0) && t[i].1
        == nsum_sat(m2[t[i].0]) by {
        assert(t[i] == s[i + 1]);
        assert(s[0].0.lt(s[i + 1].0));
        K::lemma_strict_total(k0, k0, k0);
        assert(t[i].0 != k0);
    }
    assert forall|k: K| #[trigger] m2.dom().contains(k) implies exists|i: int|
        0 <= i < t.len() && t[i].0 == k by {
        let i = choose|i: int| 0 <= i < s.len() && s[i].0 == k;
        assert(i != 0);
        assert(t[i - 1].0 == k);
    }
}

/// A sorted squashed table is determined by the map it represents.
pub proof fn lemma_represents_unique<K: SortKey>(
    s1: Seq<(K, V3)>,
    s2: Seq<(K, V3)>,
    m: Map<K, (int, int, int)>,
)
    requires
        squashed_represents(s1, m),
        squashed_represents(s2, m),
    ensures
        s1 == s2,
    decreases s1.len(),
{
    if s1.len() == 0 {
        if s2.len() > 0 {
            assert(m.dom().contains(s2[0].0));
            assert(false);
        }
        assert(s1 =~= s2);
    } else {
        let k1 = s1[0].0;
        assert(m.dom().contains(k1));
        let j = choose|j: int| 0 <= j < s2.len() && s2[j].0 == k1;
        assert(0 <= j < s2.len() && s2[j].0 == k1);
        let k2 = s2[0].0;
        assert(m.dom().contains(k2));
        let i = choose|i: int| 0 <= i < s1.len() && s1[i].0 == k2;
        assert(0 <= i < s1.len() && s1[i].0 == k2);
        if k1 != k2 {
            assert(j != 0);
            assert(i != 0);
            assert(s2[0].0.lt(s2[j].0));
            assert(s1[0].0.lt(s1[i].0));
            K::lemma_strict_total(k1, k2, k1);
            assert(false);
        }
        assert(s1[0] == s2[0]);
        lemma_represents_tail(s1, m);
        lemma_represents_tail(s2, m);
        let t1 = s1.subrange(1, s1.len() as int);
        let t2 = s2.subrange(1, s2.len() as int);
        lemma_represents_unique(t1, t2, m.remove(k1));
        assert forall|p: int| 0 <= p < s1.len() implies s1[p] == s2[p] by {
            if p > 0 {
                assert(t1[p - 1] == s1[p]);
                assert(t2[p - 1] == s2[p]);
            }
        }
        assert(s1 =~= s2);
    }
}

/// Clamp a wide accumulator component into the `i64` range.
fn sat_i128_to_i64(x: i128) -> (r: i64)
    ensures
        r == sat_i64(x as int),
{
    if x > i64::MAX as i128 {
        i64::MAX
    } else if x < i64::MIN as i128 {
        i64::MIN
    } else {
        x as i64
    }
}

} // verus!

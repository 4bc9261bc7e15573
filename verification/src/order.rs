//! A strict total order over fixed-point 3D positions, and the canonical
//! ordering of a triangle's three corners.
//!
//! Because coordinates are integers, lexicographic comparison by x, then y,
//! then z is a genuine total order (reflexive-free, transitive, total); two
//! triangles that share a corner or an edge therefore produce identical map
//! keys no matter in which order their corners arrived.

use vstd::prelude::*;
use crate::accum::SortKey;
use crate::vec3::{v3_eq, V3};

verus! {

/// Strict lexicographic order on positions.
pub open spec fn v3_lt(a: V3, b: V3) -> bool {
    ||| a.x < b.x
    ||| (a.x == b.x && a.y < b.y)
    ||| (a.x == b.x && a.y == b.y && a.z < b.z)
}

pub open spec fn v3_le(a: V3, b: V3) -> bool {
    v3_lt(a, b) || a == b
}

/// The lexicographic order is a strict total order.
pub proof fn lemma_v3_order(a: V3, b: V3, c: V3)
    ensures
        !v3_lt(a, a),
        v3_lt(a, b) && v3_lt(b, c) ==> v3_lt(a, c),
        v3_lt(a, b) || v3_lt(b, a) || a == b,
        !(v3_lt(a, b) && v3_lt(b, a)),
{
}

pub fn v3_less(a: &V3, b: &V3) -> (r: bool)
    ensures
        r == v3_lt(*a, *b),
{
    if a.x != b.x {
        a.x < b.x
    } else if a.y != b.y {
        a.y < b.y
    } else {
        a.z < b.z
    }
}

pub fn v3_less_eq(a: &V3, b: &V3) -> (r: bool)
    ensures
        r == v3_le(*a, *b),
{
    if a.x != b.x {
        a.x < b.x
    } else if a.y != b.y {
        a.y < b.y
    } else {
        a.z <= b.z
    }
}

/// Order a pair: the smaller corner first.
pub open spec fn order2_spec(a: V3, b: V3) -> (V3, V3) {
    if v3_le(a, b) {
        (a, b)
    } else {
        (b, a)
    }
}

/// Sort three corners into the canonical total order (a three-element
/// sorting network).
pub open spec fn sort3_spec(a: V3, b: V3, c: V3) -> (V3, V3, V3) {
    let (a1, b1) = order2_spec(a, b);
    let (b2, c2) = order2_spec(b1, c);
    let (a3, b3) = order2_spec(a1, b2);
    (a3, b3, c2)
}

/// The canonical order is sorted.
pub proof fn lemma_sort3_sorted(a: V3, b: V3, c: V3)
    ensures
        v3_le(sort3_spec(a, b, c).0, sort3_spec(a, b, c).1),
        v3_le(sort3_spec(a, b, c).1, sort3_spec(a, b, c).2),
{
}

/// The canonical order returns exactly the three corners that went in.
pub proof fn lemma_sort3_permutation(a: V3, b: V3, c: V3)
    ensures
        seq![sort3_spec(a, b, c).0, sort3_spec(a, b, c).1, sort3_spec(a, b, c).2].to_multiset()
            == seq![a, b, c].to_multiset(),
{
    broadcast use vstd::seq_lib::group_to_multiset_ensures;
    broadcast use vstd::multiset::group_multiset_axioms;

    let r = sort3_spec(a, b, c);
    let s1 = seq![r.0, r.1, r.2];
    let s2 = seq![a, b, c];
    let e = Seq::<V3>::empty();
    assert(s1 =~= e.push(r.0).push(r.1).push(r.2));
    assert(s2 =~= e.push(a).push(b).push(c));
    assert(s1.to_multiset() =~= s2.to_multiset());
}

/// Canonicalization does not depend on the order in which the three corners
/// are presented: every permutation of the corners sorts to the same triple.
pub proof fn lemma_sort3_order_independent(a: V3, b: V3, c: V3)
    ensures
        sort3_spec(a, b, c) == sort3_spec(a, c, b),
        sort3_spec(a, b, c) == sort3_spec(b, a, c),
        sort3_spec(a, b, c) == sort3_spec(b, c, a),
        sort3_spec(a, b, c) == sort3_spec(c, a, b),
        sort3_spec(a, b, c) == sort3_spec(c, b, a),
{
}

/// A canonical edge: an ordered pair of corner positions.
#[derive(Clone, Copy, PartialEq, Eq, Structural, Debug)]
pub struct EdgeKey {
    pub e0: V3,
    pub e1: V3,
}

/// Strict lexicographic order on canonical edge keys.
pub open spec fn edge_lt(a: EdgeKey, b: EdgeKey) -> bool {
    v3_lt(a.e0, b.e0) || (a.e0 == b.e0 && v3_lt(a.e1, b.e1))
}

impl SortKey for V3 {
    open spec fn lt(self, other: Self) -> bool {
        v3_lt(self, other)
    }

    proof fn lemma_strict_total(a: Self, b: Self, c: Self) {
        lemma_v3_order(a, b, c);
    }

    fn kless(&self, other: &Self) -> (r: bool) {
        v3_less(self, other)
    }

    fn keq(&self, other: &Self) -> (r: bool) {
        v3_eq(self, other)
    }
}

impl SortKey for EdgeKey {
    open spec fn lt(self, other: Self) -> bool {
        edge_lt(self, other)
    }

    proof fn lemma_strict_total(a: Self, b: Self, c: Self) {
        lemma_v3_order(a.e0, b.e0, c.e0);
        lemma_v3_order(a.e1, b.e1, c.e1);
    }

    fn kless(&self, other: &Self) -> (r: bool) {
        if v3_less(&self.e0, &other.e0) {
            true
        } else if v3_eq(&self.e0, &other.e0) {
            v3_less(&self.e1, &other.e1)
        } else {
            false
        }
    }

    fn keq(&self, other: &Self) -> (r: bool) {
        v3_eq(&self.e0, &other.e0) && v3_eq(&self.e1, &other.e1)
    }
}

pub fn sort3(a: V3, b: V3, c: V3) -> (r: (V3, V3, V3))
    ensures
        r == sort3_spec(a, b, c),
{
    let (a1, b1) = if v3_less_eq(&a, &b) {
        (a, b)
    } else {
        (b, a)
    };
    let (b2, c2) = if v3_less_eq(&b1, &c) {
        (b1, c)
    } else {
        (c, b1)
    };
    let (a3, b3) = if v3_less_eq(&a1, &b2) {
        (a1, b2)
    } else {
        (b2, a1)
    };
    (a3, b3, c2)
}

} // verus!

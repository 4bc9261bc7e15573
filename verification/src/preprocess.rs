//! Mesh preprocessing: canonicalize a triangle soup into deduplicated
//! vertex and edge pseudonormal tables and per-triangle records.
//!
//! Each triangle contributes one angle-weighted normal term to each of its
//! three corners and one unweighted normal term to each of its three
//! canonical edges. Corners are sorted into the canonical total order first,
//! so triangles sharing a feature hit the same table keys no matter how
//! their corners arrived; accumulation is exact integer addition, so the
//! resulting maps do not depend on triangle traversal order either.
//!
//! Degenerate triangles, those whose squared double-area underflows the
//! fixed-point scale (below one raw unit), contribute nothing at all: no
//! vertex terms, no edge terms, no triangle record. This is the documented
//! policy replacing the ill-defined inverse-area a zero-area triangle would
//! otherwise produce.

use vstd::prelude::*;
use vstd::seq_lib::{commutative_foldl, lemma_fold_left_permutation};
use crate::accum::{
    contrib_bound, lemma_map_bump3_swap, lemma_represents_unique, lemma_squash_represents,
    lemma_table_within_mono, map_bump, squashed_represents, table_bump, table_map, table_sorted,
    table_squash, table_within, v3n, W3,
};
use crate::mesh::{
    mesh_error_spec, mesh_in_bounds, resolve_positions, resolved_positions, source_len, Mat4,
    MeshError, RawMesh,
};
use crate::fx::{
    fx_acos, fx_acos_spec, fx_add, fx_add_spec, fx_div, fx_div_spec, fx_mul, fx_mul_spec, fx_neg,
    fx_neg_spec, fx_sub, fx_sub_spec, FX_ONE,
};
use crate::order::{sort3, sort3_spec, EdgeKey};
use crate::vec3::{
    sat_i64, v3_cross, v3_cross_spec, v3_dot, v3_dot_spec, v3_length, v3_length_sq,
    v3_length_sq_spec, v3_length_spec, v3_normalize, v3_normalize_spec, v3_scale, v3_scale_spec,
    v3_sub, v3_sub_spec, V3,
};

verus! {

/// Two, in raw fixed-point units: the factor in the law-of-cosines
/// denominator.
pub const FX_TWO: i64 = 131072;

/// One canonicalized triangle: sorted corners, its plane, and the
/// reciprocal of its signed double area for barycentric evaluation.
#[derive(Clone, Copy, PartialEq, Eq, Structural, Debug)]
pub struct TriData {
    pub a: V3,
    pub b: V3,
    pub c: V3,
    pub inv_area: i64,
    pub plane_normal: V3,
    pub plane_d: i64,
}

/// Deduplicated vertex and edge pseudonormals plus triangle records.
#[derive(Clone, Debug)]
pub struct PreprocessedMeshData {
    pub vertices: Vec<(V3, V3)>,
    pub edges: Vec<(EdgeKey, V3)>,
    pub triangles: Vec<TriData>,
}

/// Group a flat position list into consecutive corner triples; a trailing
/// partial group is ignored.
pub open spec fn tris_of(values: Seq<V3>) -> Seq<(V3, V3, V3)> {
    Seq::new(values.len() / 3, |t: int| (values[3 * t], values[3 * t + 1], values[3 * t + 2]))
}

/// The cross product of two triangle edge vectors, in arrival order.
pub open spec fn tri_cross(t: (V3, V3, V3)) -> V3 {
    v3_cross_spec(v3_sub_spec(t.1, t.0), v3_sub_spec(t.2, t.1))
}

/// A triangle is degenerate when its squared double-area underflows the
/// fixed-point scale.
pub open spec fn tri_degenerate(t: (V3, V3, V3)) -> bool {
    v3_length_sq_spec(tri_cross(t)) == 0
}

/// The unit face normal, from the corners in arrival order.
pub open spec fn tri_normal(t: (V3, V3, V3)) -> V3 {
    v3_normalize_spec(tri_cross(t))
}

/// Interior angle opposite side `opp`, between sides `s1` and `s2`, by the
/// law of cosines.
pub open spec fn tri_angle_spec(opp: int, s1: int, s2: int) -> int {
    fx_acos_spec(
        fx_div_spec(
            fx_sub_spec(
                fx_add_spec(fx_mul_spec(s1, s1), fx_mul_spec(s2, s2)),
                fx_mul_spec(opp, opp),
            ),
            fx_mul_spec(fx_mul_spec(FX_TWO as int, s1), s2),
        ),
    )
}

/// The interior angles at the three canonical corners.
pub open spec fn tri_corner_angles(t: (V3, V3, V3)) -> (int, int, int) {
    let s = sort3_spec(t.0, t.1, t.2);
    let ab = v3_length_spec(v3_sub_spec(s.1, s.0));
    let ac = v3_length_spec(v3_sub_spec(s.2, s.0));
    let bc = v3_length_spec(v3_sub_spec(s.2, s.1));
    (tri_angle_spec(bc, ab, ac), tri_angle_spec(ac, ab, bc), tri_angle_spec(ab, ac, bc))
}

/// What one triangle adds to the vertex pseudonormal map: one
/// angle-weighted normal term per canonical corner; nothing if degenerate.
pub open spec fn vertex_step(m: Map<V3, (int, int, int)>, t: (V3, V3, V3)) -> Map<
    V3,
    (int, int, int),
> {
    if tri_degenerate(t) {
        m
    } else {
        let n = tri_normal(t);
        let s = sort3_spec(t.0, t.1, t.2);
        let ang = tri_corner_angles(t);
        map_bump(
            map_bump(map_bump(m, s.0, v3n(v3_scale_spec(n, ang.0))), s.1, v3n(v3_scale_spec(n, ang.1))),
            s.2,
            v3n(v3_scale_spec(n, ang.2)),
        )
    }
}

/// What one triangle adds to the edge pseudonormal map: one unweighted
/// normal term per canonical edge pair; nothing if degenerate.
pub open spec fn edge_step(m: Map<EdgeKey, (int, int, int)>, t: (V3, V3, V3)) -> Map<
    EdgeKey,
    (int, int, int),
> {
    if tri_degenerate(t) {
        m
    } else {
        let n = tri_normal(t);
        let s = sort3_spec(t.0, t.1, t.2);
        map_bump(
            map_bump(
                map_bump(m, EdgeKey { e0: s.0, e1: s.1 }, v3n(n)),
                EdgeKey { e0: s.0, e1: s.2 },
                v3n(n),
            ),
            EdgeKey { e0: s.1, e1: s.2 },
            v3n(n),
        )
    }
}

/// The accumulated vertex pseudonormal map of a triangle sequence.
pub open spec fn vertex_map_of(tris: Seq<(V3, V3, V3)>) -> Map<V3, (int, int, int)>
    decreases tris.len(),
{
    if tris.len() == 0 {
        Map::empty()
    } else {
        vertex_step(vertex_map_of(tris.drop_last()), tris.last())
    }
}

/// The accumulated edge pseudonormal map of a triangle sequence.
pub open spec fn edge_map_of(tris: Seq<(V3, V3, V3)>) -> Map<EdgeKey, (int, int, int)>
    decreases tris.len(),
{
    if tris.len() == 0 {
        Map::empty()
    } else {
        edge_step(edge_map_of(tris.drop_last()), tris.last())
    }
}

/// The stored record of one non-degenerate triangle.
pub open spec fn tri_record(t: (V3, V3, V3)) -> TriData {
    let n = tri_normal(t);
    let s = sort3_spec(t.0, t.1, t.2);
    let double_area = v3_dot_spec(
        v3_cross_spec(v3_sub_spec(s.1, s.0), v3_sub_spec(s.2, s.0)),
        n,
    );
    TriData {
        a: s.0,
        b: s.1,
        c: s.2,
        inv_area: sat_i64(fx_div_spec(FX_ONE as int, double_area)),
        plane_normal: n,
        plane_d: sat_i64(fx_neg_spec(v3_dot_spec(s.0, n))),
    }
}

/// The records of all non-degenerate triangles, in traversal order.
pub open spec fn tri_records(tris: Seq<(V3, V3, V3)>) -> Seq<TriData>
    decreases tris.len(),
{
    if tris.len() == 0 {
        Seq::empty()
    } else {
        tri_records(tris.drop_last()) + (if tri_degenerate(tris.last()) {
            Seq::empty()
        } else {
            seq![tri_record(tris.last())]
        })
    }
}

/// The one sorted vertex table that represents the accumulated vertex map.
pub open spec fn vertex_list_of(tris: Seq<(V3, V3, V3)>) -> Seq<(V3, V3)> {
    choose|vs: Seq<(V3, V3)>| squashed_represents(vs, vertex_map_of(tris))
}

/// The one sorted edge table that represents the accumulated edge map.
pub open spec fn edge_list_of(tris: Seq<(V3, V3, V3)>) -> Seq<(EdgeKey, V3)> {
    choose|es: Seq<(EdgeKey, V3)>| squashed_represents(es, edge_map_of(tris))
}

fn tri_angle(opp: i64, s1: i64, s2: i64) -> (r: i64)
    ensures
        r == tri_angle_spec(opp as int, s1 as int, s2 as int),
{
    fx_acos(
        fx_div(
            fx_sub(fx_add(fx_mul(s1, s1), fx_mul(s2, s2)), fx_mul(opp, opp)),
            fx_mul(fx_mul(FX_TWO, s1), s2),
        ),
    )
}

/// Preprocess a flat, already resolved corner list (three consecutive
/// entries per triangle) into canonical pseudonormal tables and triangle
/// records. The length bound keeps the wide pseudonormal accumulators
/// exact: at most three contributions per triangle, each within the
/// fixed-point range, can never overflow them.
pub fn preprocess_positions(values: &Vec<V3>) -> (g: PreprocessedMeshData)
    requires
        values@.len() < 0x4000_0000,
    ensures
        squashed_represents(g.vertices@, vertex_map_of(tris_of(values@))),
        squashed_represents(g.edges@, edge_map_of(tris_of(values@))),
        g.vertices@ == vertex_list_of(tris_of(values@)),
        g.edges@ == edge_list_of(tris_of(values@)),
        g.triangles@ == tri_records(tris_of(values@)),
{
    let ghost tris = tris_of(values@);
    let tri_count: usize = values.len() / 3;
    let mut verts: Vec<(V3, W3)> = Vec::new();
    let mut edges: Vec<(EdgeKey, W3)> = Vec::new();
    let mut recs: Vec<TriData> = Vec::new();
    proof {
        assert(table_map(verts@) =~= vertex_map_of(tris.take(0)));
        assert(table_map(edges@) =~= edge_map_of(tris.take(0)));
        assert(recs@ =~= tri_records(tris.take(0)));
    }
    let mut t: usize = 0;
    while t < tri_count
        invariant
            values@.len() < 0x4000_0000,
            tris == tris_of(values@),
            tri_count == tris.len(),
            0 <= t <= tri_count,
            table_sorted(verts@),
            table_sorted(edges@),
            table_within(verts@, 3 * (t as int) * contrib_bound()),
            table_within(edges@, 3 * (t as int) * contrib_bound()),
            table_map(verts@) == vertex_map_of(tris.take(t as int)),
            table_map(edges@) == edge_map_of(tris.take(t as int)),
            recs@ == tri_records(tris.take(t as int)),
        decreases tri_count - t,
    {
        let ghost tt = t as int;
        let ghost tri = tris[tt];
        proof {
            assert(3 * tt + 2 < values@.len());
        }
        let p0 = values[3 * t];
        let p1 = values[3 * t + 1];
        let p2 = values[3 * t + 2];
        proof {
            assert(tri == (p0, p1, p2));
        }
        let cross = v3_cross(v3_sub(p1, p0), v3_sub(p2, p1));
        let area_sq = v3_length_sq(cross);
        if area_sq != 0 {
            let normal = v3_normalize(cross);
            let s = sort3(p0, p1, p2);
            let (a, b, c) = s;
            let ab_len = v3_length(v3_sub(b, a));
            let ac_len = v3_length(v3_sub(c, a));
            let bc_len = v3_length(v3_sub(c, b));
            let a_ang = tri_angle(bc_len, ab_len, ac_len);
            let b_ang = tri_angle(ac_len, ab_len, bc_len);
            let c_ang = tri_angle(ab_len, ac_len, bc_len);
            let ghost bnd = 3 * tt * contrib_bound();
            table_bump(&mut verts, a, v3_scale(normal, a_ang), Ghost(bnd));
            table_bump(&mut verts, b, v3_scale(normal, b_ang), Ghost(bnd + contrib_bound()));
            table_bump(&mut verts, c, v3_scale(normal, c_ang), Ghost(bnd + 2 * contrib_bound()));
            table_bump(&mut edges, EdgeKey { e0: a, e1: b }, normal, Ghost(bnd));
            table_bump(&mut edges, EdgeKey { e0: a, e1: c }, normal, Ghost(bnd + contrib_bound()));
            table_bump(&mut edges, EdgeKey { e0: b, e1: c }, normal, Ghost(bnd + 2 * contrib_bound()));
            let plane_d = fx_neg(v3_dot(a, normal));
            let double_area = v3_dot(v3_cross(v3_sub(b, a), v3_sub(c, a)), normal);
            let inv_area = fx_div(FX_ONE, double_area);
            recs.push(TriData { a, b, c, inv_area, plane_normal: normal, plane_d });
            proof {
                assert(!tri_degenerate(tri));
                assert(table_map(verts@) == vertex_step(vertex_map_of(tris.take(tt)), tri));
                assert(table_map(edges@) == edge_step(edge_map_of(tris.take(tt)), tri));
            }
        } else {
            proof {
                assert(tri_degenerate(tri));
                lemma_table_within_mono(verts@, 3 * tt * contrib_bound(), 3 * (tt + 1) * contrib_bound());
                lemma_table_within_mono(edges@, 3 * tt * contrib_bound(), 3 * (tt + 1) * contrib_bound());
            }
        }
        proof {
            assert(tris.take(tt + 1).drop_last() =~= tris.take(tt));
            assert(tris.take(tt + 1).last() == tri);
            assert(vertex_map_of(tris.take(tt + 1)) == vertex_step(vertex_map_of(tris.take(tt)), tri));
            assert(edge_map_of(tris.take(tt + 1)) == edge_step(edge_map_of(tris.take(tt)), tri));
            assert(recs@ =~= tri_records(tris.take(tt + 1)));
        }
        t = t + 1;
    }
    proof {
        assert(tris.take(tri_count as int) =~= tris);
    }
    let out_vertices = table_squash(&verts);
    let out_edges = table_squash(&edges);
    proof {
        lemma_squash_represents(verts@, out_vertices@);
        lemma_squash_represents(edges@, out_edges@);
        assert(squashed_represents(vertex_list_of(tris), vertex_map_of(tris))) by {
            assert(exists|vs: Seq<(V3, V3)>| squashed_represents(vs, vertex_map_of(tris))) by {
                assert(squashed_represents(out_vertices@, vertex_map_of(tris)));
            }
        }
        assert(squashed_represents(edge_list_of(tris), edge_map_of(tris))) by {
            assert(exists|es: Seq<(EdgeKey, V3)>| squashed_represents(es, edge_map_of(tris))) by {
                assert(squashed_represents(out_edges@, edge_map_of(tris)));
            }
        }
        lemma_represents_unique(out_vertices@, vertex_list_of(tris), vertex_map_of(tris));
        lemma_represents_unique(out_edges@, edge_list_of(tris), edge_map_of(tris));
    }
    PreprocessedMeshData { vertices: out_vertices, edges: out_edges, triangles: recs }
}

/// Validate and resolve a raw mesh (applying skinning when joint matrices
/// are given) and preprocess it into canonical pseudonormal tables and
/// triangle records.
pub fn preprocess_mesh_for_sdf(mesh: &RawMesh, joints: Option<&Vec<Mat4>>) -> (r: Result<
    PreprocessedMeshData,
    MeshError,
>)
    requires
        mesh_error_spec(*mesh, joints is Some) is None ==> mesh_in_bounds(
            *mesh,
            if joints is Some {
                Some(joints->0@)
            } else {
                None
            },
        ),
        source_len(*mesh) < 0x4000_0000,
    ensures
        ({
            let jv = if joints is Some {
                Some(joints->0@)
            } else {
                None
            };
            match r {
                Ok(g) => {
                    let tris = tris_of(resolved_positions(*mesh, jv));
                    &&& mesh_error_spec(*mesh, joints is Some) is None
                    &&& g.vertices@ == vertex_list_of(tris)
                    &&& squashed_represents(g.vertices@, vertex_map_of(tris))
                    &&& g.edges@ == edge_list_of(tris)
                    &&& squashed_represents(g.edges@, edge_map_of(tris))
                    &&& g.triangles@ == tri_records(tris)
                },
                Err(e) => mesh_error_spec(*mesh, joints is Some) == Some(e),
            }
        }),
{
    match resolve_positions(mesh, joints) {
        Ok(values) => Ok(preprocess_positions(&values)),
        Err(e) => Err(e),
    }
}

/// A degenerate triangle contributes nothing at all: the documented
/// policy for zero-area input.
pub proof fn lemma_degenerate_contributes_nothing(
    vm: Map<V3, (int, int, int)>,
    em: Map<EdgeKey, (int, int, int)>,
    t: (V3, V3, V3),
)
    requires
        tri_degenerate(t),
    ensures
        vertex_step(vm, t) == vm,
        edge_step(em, t) == em,
        tri_records(seq![t]) == Seq::<TriData>::empty(),
{
    assert(seq![t].drop_last() =~= Seq::<(V3, V3, V3)>::empty());
    assert(tri_records(Seq::<(V3, V3, V3)>::empty()) =~= Seq::<TriData>::empty());
    assert(seq![t].last() == t);
    assert(tri_records(seq![t]) =~= Seq::<TriData>::empty());
}

proof fn lemma_tri_records_skip_degenerate(
    s1: Seq<(V3, V3, V3)>,
    d: (V3, V3, V3),
    s2: Seq<(V3, V3, V3)>,
)
    requires
        tri_degenerate(d),
    ensures
        tri_records(s1 + seq![d] + s2) == tri_records(s1 + s2),
    decreases s2.len(),
{
    if s2.len() == 0 {
        assert((s1 + seq![d] + s2) =~= s1 + seq![d]);
        assert((s1 + seq![d]).drop_last() =~= s1);
        assert((s1 + seq![d]).last() == d);
        assert(s1 + s2 =~= s1);
        assert(tri_records(s1 + seq![d]) =~= tri_records(s1));
    } else {
        let a = s1 + seq![d] + s2;
        let b = s1 + s2;
        assert(a.drop_last() =~= s1 + seq![d] + s2.drop_last());
        assert(b.drop_last() =~= s1 + s2.drop_last());
        assert(a.last() == s2.last());
        assert(b.last() == s2.last());
        lemma_tri_records_skip_degenerate(s1, d, s2.drop_last());
        assert(tri_records(a) == tri_records(b));
    }
}

/// A degenerate triangle is inert wherever it stands in the soup: the
/// pseudonormal maps, the canonical tables and the triangle records — and
/// with them every sample of a rasterized field, whose contract ranges
/// over exactly these — are those of the soup without it.
pub proof fn lemma_degenerate_triangle_inert(
    s1: Seq<(V3, V3, V3)>,
    d: (V3, V3, V3),
    s2: Seq<(V3, V3, V3)>,
)
    requires
        tri_degenerate(d),
    ensures
        vertex_map_of(s1 + seq![d] + s2) == vertex_map_of(s1 + s2),
        edge_map_of(s1 + seq![d] + s2) == edge_map_of(s1 + s2),
        vertex_list_of(s1 + seq![d] + s2) == vertex_list_of(s1 + s2),
        edge_list_of(s1 + seq![d] + s2) == edge_list_of(s1 + s2),
        tri_records(s1 + seq![d] + s2) == tri_records(s1 + s2),
{
    broadcast use vstd::seq_lib::lemma_multiset_commutative;
    broadcast use vstd::multiset::group_multiset_axioms;

    let a = s1 + seq![d] + s2;
    let c = (s1 + s2) + seq![d];
    assert(a.to_multiset() =~= c.to_multiset());
    lemma_preprocess_order_independent(a, c);
    assert(c.drop_last() =~= s1 + s2);
    assert(c.last() == d);
    assert(vertex_map_of(c) == vertex_map_of(s1 + s2));
    assert(edge_map_of(c) == edge_map_of(s1 + s2));
    lemma_tri_records_skip_degenerate(s1, d, s2);
}

/// A triangle's contribution depends only on its corner set and its
/// rounded cross product: presenting the corners rotated (same winding
/// direction, different starting corner) leaves every contribution
/// unchanged whenever the rounded cross product agrees. The cross product
/// of a rotated corner list is the same real quantity, so it can differ
/// only in the last raw unit of fixed-point rounding.
pub proof fn lemma_corner_rotation(
    vm: Map<V3, (int, int, int)>,
    em: Map<EdgeKey, (int, int, int)>,
    t: (V3, V3, V3),
)
    requires
        tri_cross((t.1, t.2, t.0)) == tri_cross(t),
    ensures
        vertex_step(vm, (t.1, t.2, t.0)) == vertex_step(vm, t),
        edge_step(em, (t.1, t.2, t.0)) == edge_step(em, t),
        tri_record((t.1, t.2, t.0)) == tri_record(t),
{
    crate::order::lemma_sort3_order_independent(t.0, t.1, t.2);
}

/// Contributions of two triangles to the vertex map commute.
pub proof fn lemma_vertex_step_commutes(
    m: Map<V3, (int, int, int)>,
    t1: (V3, V3, V3),
    t2: (V3, V3, V3),
)
    ensures
        vertex_step(vertex_step(m, t1), t2) == vertex_step(vertex_step(m, t2), t1),
{
    if !tri_degenerate(t1) && !tri_degenerate(t2) {
        let n1 = tri_normal(t1);
        let s1 = sort3_spec(t1.0, t1.1, t1.2);
        let g1 = tri_corner_angles(t1);
        let n2 = tri_normal(t2);
        let s2 = sort3_spec(t2.0, t2.1, t2.2);
        let g2 = tri_corner_angles(t2);
        lemma_map_bump3_swap(
            m,
            s1.0,
            v3n(v3_scale_spec(n1, g1.0)),
            s1.1,
            v3n(v3_scale_spec(n1, g1.1)),
            s1.2,
            v3n(v3_scale_spec(n1, g1.2)),
            s2.0,
            v3n(v3_scale_spec(n2, g2.0)),
            s2.1,
            v3n(v3_scale_spec(n2, g2.1)),
            s2.2,
            v3n(v3_scale_spec(n2, g2.2)),
        );
    }
}

/// Contributions of two triangles to the edge map commute.
pub proof fn lemma_edge_step_commutes(
    m: Map<EdgeKey, (int, int, int)>,
    t1: (V3, V3, V3),
    t2: (V3, V3, V3),
)
    ensures
        edge_step(edge_step(m, t1), t2) == edge_step(edge_step(m, t2), t1),
{
    if !tri_degenerate(t1) && !tri_degenerate(t2) {
        let n1 = tri_normal(t1);
        let s1 = sort3_spec(t1.0, t1.1, t1.2);
        let n2 = tri_normal(t2);
        let s2 = sort3_spec(t2.0, t2.1, t2.2);
        lemma_map_bump3_swap(
            m,
            EdgeKey { e0: s1.0, e1: s1.1 },
            v3n(n1),
            EdgeKey { e0: s1.0, e1: s1.2 },
            v3n(n1),
            EdgeKey { e0: s1.1, e1: s1.2 },
            v3n(n1),
            EdgeKey { e0: s2.0, e1: s2.1 },
            v3n(n2),
            EdgeKey { e0: s2.0, e1: s2.2 },
            v3n(n2),
            EdgeKey { e0: s2.1, e1: s2.2 },
            v3n(n2),
        );
    }
}

proof fn lemma_vertex_map_is_fold(
    tris: Seq<(V3, V3, V3)>,
    f: spec_fn(Map<V3, (int, int, int)>, (V3, V3, V3)) -> Map<V3, (int, int, int)>,
)
    requires
        forall|m: Map<V3, (int, int, int)>, t: (V3, V3, V3)| #[trigger] f(m, t) == vertex_step(m, t),
    ensures
        vertex_map_of(tris) == tris.fold_left(Map::<V3, (int, int, int)>::empty(), f),
    decreases tris.len(),
{
    if tris.len() > 0 {
        lemma_vertex_map_is_fold(tris.drop_last(), f);
    }
}

proof fn lemma_edge_map_is_fold(
    tris: Seq<(V3, V3, V3)>,
    f: spec_fn(Map<EdgeKey, (int, int, int)>, (V3, V3, V3)) -> Map<EdgeKey, (int, int, int)>,
)
    requires
        forall|m: Map<EdgeKey, (int, int, int)>, t: (V3, V3, V3)| #[trigger] f(m, t) == edge_step(
            m,
            t,
        ),
    ensures
        edge_map_of(tris) == tris.fold_left(Map::<EdgeKey, (int, int, int)>::empty(), f),
    decreases tris.len(),
{
    if tris.len() > 0 {
        lemma_edge_map_is_fold(tris.drop_last(), f);
    }
}

/// Canonicalization makes preprocessing independent of traversal order: two
/// triangle lists holding the same triangles, in any order, accumulate
/// identical vertex and edge pseudonormal maps.
pub proof fn lemma_preprocess_order_independent(ta: Seq<(V3, V3, V3)>, tb: Seq<(V3, V3, V3)>)
    requires
        ta.to_multiset() == tb.to_multiset(),
    ensures
        vertex_map_of(ta) == vertex_map_of(tb),
        edge_map_of(ta) == edge_map_of(tb),
        vertex_list_of(ta) == vertex_list_of(tb),
        edge_list_of(ta) == edge_list_of(tb),
{
    let fv = |m: Map<V3, (int, int, int)>, t: (V3, V3, V3)| vertex_step(m, t);
    let fe = |m: Map<EdgeKey, (int, int, int)>, t: (V3, V3, V3)| edge_step(m, t);
    lemma_vertex_map_is_fold(ta, fv);
    lemma_vertex_map_is_fold(tb, fv);
    lemma_edge_map_is_fold(ta, fe);
    lemma_edge_map_is_fold(tb, fe);
    assert(commutative_foldl(fv)) by {
        assert forall|x: (V3, V3, V3), y: (V3, V3, V3), v: Map<V3, (int, int, int)>| #[trigger] fv(
            fv(v, x),
            y,
        ) == fv(fv(v, y), x) by {
            lemma_vertex_step_commutes(v, x, y);
        }
    }
    assert(commutative_foldl(fe)) by {
        assert forall|x: (V3, V3, V3), y: (V3, V3, V3), v: Map<EdgeKey, (int, int, int)>|
            #[trigger] fe(fe(v, x), y) == fe(fe(v, y), x) by {
            lemma_edge_step_commutes(v, x, y);
        }
    }
    lemma_fold_left_permutation(ta, tb, fv, Map::<V3, (int, int, int)>::empty());
    lemma_fold_left_permutation(ta, tb, fe, Map::<EdgeKey, (int, int, int)>::empty());
}

} // verus!

//! The nearest-feature signed-distance query.
//!
//! The query point is tested against three feature tiers in turn: vertices,
//! edges and triangle interiors, keeping the closest feature's squared
//! distance, its pseudonormal and the nearest point on it. The sign is then
//! decided by the pseudonormal: the point is outside exactly when the
//! direction from the nearest feature to the query point has a non-negative
//! dot product with the remembered normal.

use vstd::prelude::*;
use crate::fx::{
    fx_add, fx_add_spec, fx_div, fx_div_spec, fx_mul, fx_mul_spec, fx_sqrt, fx_sqrt_spec, fx_sub,
    fx_sub_spec, FX_ONE,
};
use crate::order::EdgeKey;
use crate::preprocess::{PreprocessedMeshData, TriData};
use crate::vec3::{
    sat_i64, v3_add, v3_add_spec, v3_cross, v3_cross_spec, v3_dist_sq, v3_dist_sq_spec, v3_dot,
    v3_dot_spec, v3_length_sq, v3_length_sq_spec, v3_scale, v3_scale_spec, v3_sub, v3_sub_spec,
    v3_zero, V3,
};

verus! {

/// Lower edge dead-zone bound, in raw units (about 0.001): a clamped
/// projection closer than this to the segment start is ceded to the vertex
/// tier. A tunable constant inherited as-is; see the preprocessing notes.
pub const EDGE_DEAD_LOW: i64 = 66;

/// Upper edge dead-zone factor (about 0.999 as a fixed-point fraction): a
/// clamped projection beyond this fraction of the squared edge length is
/// ceded to the vertex tier.
pub const EDGE_DEAD_HIGH: i64 = 65470;

/// The best feature seen so far: squared distance, pseudonormal, and the
/// nearest point on the feature.
#[derive(Clone, Copy, PartialEq, Eq, Structural, Debug)]
pub struct Nearest {
    pub dist_sq: i64,
    pub norm: V3,
    pub nearest: V3,
}

pub open spec fn nearest_init() -> Nearest {
    Nearest { dist_sq: i64::MAX, norm: v3_zero(), nearest: v3_zero() }
}

/// Test one accumulated vertex: keep it when strictly closer.
pub open spec fn vertex_consider(best: Nearest, v: V3, n: V3, p: V3) -> Nearest {
    let d = v3_dist_sq_spec(p, v);
    if d < best.dist_sq {
        Nearest { dist_sq: sat_i64(d), norm: n, nearest: v }
    } else {
        best
    }
}

/// Test one accumulated edge: project the query point onto the segment,
/// clamp into the span, skip the dead zones near the endpoints, keep the
/// clamped point when strictly closer.
pub open spec fn edge_consider(best: Nearest, e0: V3, e1: V3, n: V3, p: V3) -> Nearest {
    let line = v3_sub_spec(e1, e0);
    let len_sq = v3_length_sq_spec(line);
    let along = v3_dot_spec(v3_sub_spec(p, e0), line);
    let intercept = if along < 0 {
        0
    } else if along > len_sq {
        len_sq
    } else {
        along
    };
    if intercept < EDGE_DEAD_LOW || intercept > fx_mul_spec(len_sq, EDGE_DEAD_HIGH as int) {
        best
    } else {
        let tpar = fx_div_spec(intercept, len_sq);
        let near = v3_add_spec(e0, v3_scale_spec(line, tpar));
        let d = v3_dist_sq_spec(p, near);
        if d < best.dist_sq {
            Nearest { dist_sq: sat_i64(d), norm: n, nearest: near }
        } else {
            best
        }
    }
}

/// Test one triangle: reject early when the plane alone is farther than the
/// best; otherwise project onto the plane and accept the projection when
/// all three barycentric coordinates are non-negative (zero counts as
/// inside, standing in for the positive floating-point zero).
pub open spec fn tri_consider(best: Nearest, td: TriData, p: V3) -> Nearest {
    let dtp = fx_add_spec(v3_dot_spec(td.plane_normal, p), td.plane_d as int);
    let dsq = fx_mul_spec(dtp, dtp);
    if dsq > best.dist_sq {
        best
    } else {
        let pop = v3_sub_spec(p, v3_scale_spec(td.plane_normal, dtp));
        let u = fx_mul_spec(
            v3_dot_spec(
                v3_cross_spec(v3_sub_spec(td.c, td.b), v3_sub_spec(pop, td.b)),
                td.plane_normal,
            ),
            td.inv_area as int,
        );
        let v = fx_mul_spec(
            v3_dot_spec(
                v3_cross_spec(v3_sub_spec(td.a, td.c), v3_sub_spec(pop, td.c)),
                td.plane_normal,
            ),
            td.inv_area as int,
        );
        let w = fx_sub_spec(fx_sub_spec(FX_ONE as int, u), v);
        if u >= 0 && v >= 0 && w >= 0 {
            Nearest { dist_sq: sat_i64(dsq), norm: td.plane_normal, nearest: pop }
        } else {
            best
        }
    }
}

/// The best feature after the first `i` vertices.
pub open spec fn scan_vertices(vs: Seq<(V3, V3)>, p: V3, i: int, from: Nearest) -> Nearest
    decreases i,
{
    if i <= 0 {
        from
    } else {
        vertex_consider(scan_vertices(vs, p, i - 1, from), vs[i - 1].0, vs[i - 1].1, p)
    }
}

/// The best feature after the first `i` edges.
pub open spec fn scan_edges(es: Seq<(EdgeKey, V3)>, p: V3, i: int, from: Nearest) -> Nearest
    decreases i,
{
    if i <= 0 {
        from
    } else {
        edge_consider(
            scan_edges(es, p, i - 1, from),
            es[i - 1].0.e0,
            es[i - 1].0.e1,
            es[i - 1].1,
            p,
        )
    }
}

/// The best feature after the first `i` triangles.
pub open spec fn scan_tris(ts: Seq<TriData>, p: V3, i: int, from: Nearest) -> Nearest
    decreases i,
{
    if i <= 0 {
        from
    } else {
        tri_consider(scan_tris(ts, p, i - 1, from), ts[i - 1], p)
    }
}

/// The signed distance from `p` to the nearest feature of the geometry:
/// the square root of the best squared distance, positive outside and
/// negative inside by the pseudonormal sign test.
pub open spec fn signed_distance_spec(
    vs: Seq<(V3, V3)>,
    es: Seq<(EdgeKey, V3)>,
    ts: Seq<TriData>,
    p: V3,
) -> int {
    let b1 = scan_vertices(vs, p, vs.len() as int, nearest_init());
    let b2 = scan_edges(es, p, es.len() as int, b1);
    let b3 = scan_tris(ts, p, ts.len() as int, b2);
    let side = v3_dot_spec(v3_sub_spec(p, b3.nearest), b3.norm);
    let dist = fx_sqrt_spec(b3.dist_sq as int);
    if side >= 0 {
        dist
    } else {
        -dist
    }
}

fn exec_vertex_consider(best: Nearest, v: V3, n: V3, p: V3) -> (r: Nearest)
    ensures
        r == vertex_consider(best, v, n, p),
{
    let d = v3_dist_sq(p, v);
    if d < best.dist_sq {
        Nearest { dist_sq: d, norm: n, nearest: v }
    } else {
        best
    }
}

fn exec_edge_consider(best: Nearest, e0: V3, e1: V3, n: V3, p: V3) -> (r: Nearest)
    ensures
        r == edge_consider(best, e0, e1, n, p),
{
    let line = v3_sub(e1, e0);
    let len_sq = v3_length_sq(line);
    let along = v3_dot(v3_sub(p, e0), line);
    let intercept = if along < 0 {
        0
    } else if along > len_sq {
        len_sq
    } else {
        along
    };
    if intercept < EDGE_DEAD_LOW || intercept > fx_mul(len_sq, EDGE_DEAD_HIGH) {
        best
    } else {
        let tpar = fx_div(intercept, len_sq);
        let near = v3_add(e0, v3_scale(line, tpar));
        let d = v3_dist_sq(p, near);
        if d < best.dist_sq {
            Nearest { dist_sq: d, norm: n, nearest: near }
        } else {
            best
        }
    }
}

fn exec_tri_consider(best: Nearest, td: &TriData, p: V3) -> (r: Nearest)
    ensures
        r == tri_consider(best, *td, p),
{
    let dtp = fx_add(v3_dot(td.plane_normal, p), td.plane_d);
    let dsq = fx_mul(dtp, dtp);
    if dsq > best.dist_sq {
        best
    } else {
        let pop = v3_sub(p, v3_scale(td.plane_normal, dtp));
        let u = fx_mul(
            v3_dot(v3_cross(v3_sub(td.c, td.b), v3_sub(pop, td.b)), td.plane_normal),
            td.inv_area,
        );
        let v = fx_mul(
            v3_dot(v3_cross(v3_sub(td.a, td.c), v3_sub(pop, td.c)), td.plane_normal),
            td.inv_area,
        );
        let w = fx_sub(fx_sub(FX_ONE, u), v);
        if u >= 0 && v >= 0 && w >= 0 {
            Nearest { dist_sq: dsq, norm: td.plane_normal, nearest: pop }
        } else {
            best
        }
    }
}

/// Signed distance from `p` to the nearest feature of the preprocessed
/// geometry.
pub fn compute_distance(geom: &PreprocessedMeshData, p: V3) -> (r: i64)
    ensures
        r == signed_distance_spec(geom.vertices@, geom.edges@, geom.triangles@, p),
{
    let mut best = Nearest { dist_sq: i64::MAX, norm: v3_zero_exec(), nearest: v3_zero_exec() };
    let mut i: usize = 0;
    while i < geom.vertices.len()
        invariant
            0 <= i <= geom.vertices@.len(),
            best == scan_vertices(geom.vertices@, p, i as int, nearest_init()),
        decreases geom.vertices@.len() - i,
    {
        let e = geom.vertices[i];
        best = exec_vertex_consider(best, e.0, e.1, p);
        i = i + 1;
    }
    let b1 = best;
    let mut j: usize = 0;
    while j < geom.edges.len()
        invariant
            0 <= j <= geom.edges@.len(),
            best == scan_edges(geom.edges@, p, j as int, b1),
            b1 == scan_vertices(geom.vertices@, p, geom.vertices@.len() as int, nearest_init()),
        decreases geom.edges@.len() - j,
    {
        let e = geom.edges[j];
        best = exec_edge_consider(best, e.0.e0, e.0.e1, e.1, p);
        j = j + 1;
    }
    let b2 = best;
    let mut k: usize = 0;
    while k < geom.triangles.len()
        invariant
            0 <= k <= geom.triangles@.len(),
            best == scan_tris(geom.triangles@, p, k as int, b2),
            b2 == scan_edges(
                geom.edges@,
                p,
                geom.edges@.len() as int,
                scan_vertices(geom.vertices@, p, geom.vertices@.len() as int, nearest_init()),
            ),
        decreases geom.triangles@.len() - k,
    {
        let td = geom.triangles[k];
        best = exec_tri_consider(best, &td, p);
        k = k + 1;
    }
    let side = v3_dot(v3_sub(p, best.nearest), best.norm);
    let dist = fx_sqrt(best.dist_sq);
    proof {
        assert(0 <= fx_sqrt_spec(best.dist_sq as int) < 0x100_0000_0000) by {
            if best.dist_sq > 0 {
                crate::fx::lemma_isqrt(best.dist_sq as int * 65536);
                let q = crate::fx::isqrt(best.dist_sq as int * 65536);
                assert(q < 0x100_0000_0000) by (nonlinear_arith)
                    requires
                        0 <= q,
                        q * q <= best.dist_sq as int * 65536,
                        best.dist_sq as int * 65536 < 0x1_0000_0000_0000_0000_0000,
                ;
            }
        }
    }
    if side >= 0 {
        dist
    } else {
        -dist
    }
}

fn v3_zero_exec() -> (r: V3)
    ensures
        r == v3_zero(),
{
    V3 { x: 0, y: 0, z: 0 }
}

} // verus!

//! Grid rasterization: walk a node-centered 3D sample lattice over a
//! bounding box and fill a linear buffer with signed distances.
//!
//! Lattice corners align exactly with the box corners: the offset of
//! sample `i` along an axis with `n` samples is `span * i / (n - 1)`,
//! truncated once, so index `n - 1` lands exactly on the far corner.
//! Samples are laid out with x innermost and z outermost, at linear
//! offset `z*dimX*dimY + y*dimX + x`.

use vstd::prelude::*;
use vstd::arithmetic::div_mod::lemma_div_multiples_vanish;
use crate::aabb::{aabb_min_spec, Aabb};
use crate::fx::{fx_add, fx_add_spec, fx_div_spec, sat64, trunc_div, FX_ONE};
use crate::mesh::{mesh_error_spec, mesh_in_bounds, resolved_positions, source_len, MeshError, RawMesh};
use crate::preprocess::{
    edge_list_of, preprocess_mesh_for_sdf, tri_records, tris_of, vertex_list_of,
    PreprocessedMeshData,
};
use crate::sample::{compute_distance, signed_distance_spec};
use crate::vec3::{sat_i64, V3};

verus! {

/// Integer lattice dimensions: the number of samples along each axis.
#[derive(Clone, Copy, PartialEq, Eq, Structural, Debug)]
pub struct GridDim {
    pub x: u32,
    pub y: u32,
    pub z: u32,
}

pub open spec fn sample_count(dim: GridDim) -> int {
    (dim.x as int) * (dim.y as int) * (dim.z as int)
}

/// Linear offset of lattice point `(ix, iy, iz)`.
pub open spec fn lattice_index(dim: GridDim, ix: int, iy: int, iz: int) -> int {
    iz * ((dim.x as int) * (dim.y as int)) + iy * (dim.x as int) + ix
}

/// Node-centered spacing along one axis with `n` samples: `span / (n - 1)`.
pub open spec fn axis_spacing(span: int, n: int) -> int {
    fx_div_spec(span, (n - 1) * (FX_ONE as int))
}

/// Offset of lattice index `i` along an axis with `n1 + 1` samples:
/// `span * i / n1`, truncated toward zero once, so index `n1` lands
/// exactly on the span.
pub open spec fn axis_offset_spec(span: int, i: int, n1: int) -> int
    recommends
        n1 >= 1,
{
    sat64(trunc_div(span * i, n1))
}

/// The world position of lattice point `(ix, iy, iz)`.
pub open spec fn lattice_point(aabb: Aabb, dim: GridDim, ix: int, iy: int, iz: int) -> V3 {
    let mn = aabb_min_spec(aabb);
    V3 {
        x: sat_i64(
            fx_add_spec(
                mn.x as int,
                axis_offset_spec(
                    fx_add_spec(aabb.half_extents.x as int, aabb.half_extents.x as int),
                    ix,
                    dim.x as int - 1,
                ),
            ),
        ),
        y: sat_i64(
            fx_add_spec(
                mn.y as int,
                axis_offset_spec(
                    fx_add_spec(aabb.half_extents.y as int, aabb.half_extents.y as int),
                    iy,
                    dim.y as int - 1,
                ),
            ),
        ),
        z: sat_i64(
            fx_add_spec(
                mn.z as int,
                axis_offset_spec(
                    fx_add_spec(aabb.half_extents.z as int, aabb.half_extents.z as int),
                    iz,
                    dim.z as int - 1,
                ),
            ),
        ),
    }
}

fn axis_offset(span: i64, i: u32, n1: u32) -> (r: i64)
    requires
        n1 >= 1,
    ensures
        r == axis_offset_spec(span as int, i as int, n1 as int),
{
    proof {
        crate::fx::lemma_mul_bound_i64(span as int, i as int);
    }
    let p: i128 = (span as i128) * (i as i128);
    let q: i128 = match p.checked_div(n1 as i128) {
        Some(q) => q,
        None => {
            proof {
                crate::fx::lemma_trunc_div_magnitude(p as int, n1 as int);
            }
            assert(false);
            0
        },
    };
    proof {
        crate::fx::lemma_trunc_div_magnitude(p as int, n1 as int);
    }
    if q > i64::MAX as i128 {
        i64::MAX
    } else if q < i64::MIN as i128 {
        i64::MIN
    } else {
        q as i64
    }
}

/// Lattice corners align exactly with the box corners: index zero lands on
/// the box minimum, and the last index along each axis lands on the
/// minimum plus the full span (the box maximum, absent saturation).
pub proof fn lemma_lattice_corners_aligned(aabb: Aabb, dim: GridDim)
    requires
        dim.x >= 2,
        dim.y >= 2,
        dim.z >= 2,
    ensures
        lattice_point(aabb, dim, 0, 0, 0) == aabb_min_spec(aabb),
        lattice_point(aabb, dim, dim.x as int - 1, dim.y as int - 1, dim.z as int - 1)
            == crate::vec3::v3_add_spec(
            aabb_min_spec(aabb),
            V3 {
                x: sat_i64(fx_add_spec(aabb.half_extents.x as int, aabb.half_extents.x as int)),
                y: sat_i64(fx_add_spec(aabb.half_extents.y as int, aabb.half_extents.y as int)),
                z: sat_i64(fx_add_spec(aabb.half_extents.z as int, aabb.half_extents.z as int)),
            },
        ),
{
    let h = aabb.half_extents;
    lemma_axis_offset_full(fx_add_spec(h.x as int, h.x as int), dim.x as int - 1);
    lemma_axis_offset_full(fx_add_spec(h.y as int, h.y as int), dim.y as int - 1);
    lemma_axis_offset_full(fx_add_spec(h.z as int, h.z as int), dim.z as int - 1);
}

/// The offset of the last lattice index is exactly the span.
proof fn lemma_axis_offset_full(span: int, n1: int)
    requires
        n1 >= 1,
        i64::MIN <= span <= i64::MAX,
    ensures
        axis_offset_spec(span, 0, n1) == 0,
        axis_offset_spec(span, n1, n1) == span,
{
    assert(span * 0 == 0) by (nonlinear_arith);
    assert(trunc_div(span * n1, n1) == span) by {
        if span > 0 {
            lemma_div_multiples_vanish(span, n1);
            assert(span * n1 == n1 * span) by (nonlinear_arith);
            assert(span * n1 > 0) by (nonlinear_arith)
                requires
                    span > 0,
                    n1 >= 1,
            ;
        } else if span < 0 {
            lemma_div_multiples_vanish(-span, n1);
            assert((span * n1) * -1 == n1 * -span) by (nonlinear_arith);
            assert(span * n1 < 0) by (nonlinear_arith)
                requires
                    span < 0,
                    n1 >= 1,
            ;
        }
    }
}

/// The buffer holds, at this lattice point's offset, the signed distance
/// sampled there.
pub open spec fn cell_ok(
    data: Seq<i64>,
    geom: PreprocessedMeshData,
    aabb: Aabb,
    dim: GridDim,
    ix: int,
    iy: int,
    iz: int,
) -> bool {
    data[lattice_index(dim, ix, iy, iz)] == signed_distance_spec(
        geom.vertices@,
        geom.edges@,
        geom.triangles@,
        lattice_point(aabb, dim, ix, iy, iz),
    )
}

/// Lattice point `i` is visited strictly before lattice point `j`.
pub open spec fn lex_before(ix: int, iy: int, iz: int, jx: int, jy: int, jz: int) -> bool {
    iz < jz || (iz == jz && (iy < jy || (iy == jy && ix < jx)))
}

proof fn lemma_lattice_order(
    xd: int,
    yd: int,
    ix: int,
    iy: int,
    iz: int,
    jx: int,
    jy: int,
    jz: int,
)
    by (nonlinear_arith)
    requires
        0 <= ix < xd,
        0 <= iy < yd,
        0 <= iz,
        0 <= jx <= xd,
        0 <= jy <= yd,
        0 <= jz,
        lex_before(ix, iy, iz, jx, jy, jz),
    ensures
        iz * (xd * yd) + iy * xd + ix < jz * (xd * yd) + jy * xd + jx,
{
}

proof fn lemma_lattice_in(xd: int, yd: int, zd: int, ix: int, iy: int, iz: int)
    by (nonlinear_arith)
    requires
        0 <= ix < xd,
        0 <= iy < yd,
        0 <= iz < zd,
    ensures
        0 <= iz * (xd * yd) + iy * xd + ix < xd * yd * zd,
{
}

/// Sample the signed distance field of the geometry on a `dim` lattice over
/// `aabb`, one value per lattice point, in linear-offset order.
pub fn rasterize(geom: &PreprocessedMeshData, aabb: &Aabb, dim: GridDim) -> (data: Vec<i64>)
    requires
        dim.x >= 2,
        dim.y >= 2,
        dim.z >= 2,
        sample_count(dim) <= 0x1000_0000,
    ensures
        data@.len() == sample_count(dim),
        forall|ix: int, iy: int, iz: int|
            0 <= ix < dim.x as int && 0 <= iy < dim.y as int && 0 <= iz < dim.z as int
                ==> cell_ok(data@, *geom, *aabb, dim, ix, iy, iz),
{
    let ghost xd = dim.x as int;
    let ghost yd = dim.y as int;
    let ghost zd = dim.z as int;
    let mn = aabb.min();
    let span_x = fx_add(aabb.half_extents.x, aabb.half_extents.x);
    let span_y = fx_add(aabb.half_extents.y, aabb.half_extents.y);
    let span_z = fx_add(aabb.half_extents.z, aabb.half_extents.z);
    let mut data: Vec<i64> = Vec::new();
    let mut z: u32 = 0;
    while z < dim.z
        invariant
            dim.x >= 2,
            dim.y >= 2,
            dim.z >= 2,
            sample_count(dim) <= 0x1000_0000,
            xd == dim.x as int,
            yd == dim.y as int,
            zd == dim.z as int,
            mn == aabb_min_spec(*aabb),
            span_x == fx_add_spec(aabb.half_extents.x as int, aabb.half_extents.x as int),
            span_y == fx_add_spec(aabb.half_extents.y as int, aabb.half_extents.y as int),
            span_z == fx_add_spec(aabb.half_extents.z as int, aabb.half_extents.z as int),
            0 <= z <= dim.z,
            data@.len() == (z as int) * (xd * yd),
            forall|ix: int, iy: int, iz: int|
                0 <= ix < xd && 0 <= iy < yd && 0 <= iz < zd && iz < z as int ==> cell_ok(
                    data@,
                    *geom,
                    *aabb,
                    dim,
                    ix,
                    iy,
                    iz,
                ),
        decreases dim.z - z,
    {
        let mut y: u32 = 0;
        while y < dim.y
            invariant
                dim.x >= 2,
                dim.y >= 2,
                dim.z >= 2,
                sample_count(dim) <= 0x1000_0000,
                xd == dim.x as int,
                yd == dim.y as int,
                zd == dim.z as int,
                mn == aabb_min_spec(*aabb),
                span_x == fx_add_spec(aabb.half_extents.x as int, aabb.half_extents.x as int),
                span_y == fx_add_spec(aabb.half_extents.y as int, aabb.half_extents.y as int),
                span_z == fx_add_spec(aabb.half_extents.z as int, aabb.half_extents.z as int),
                0 <= z < dim.z,
                0 <= y <= dim.y,
                data@.len() == (z as int) * (xd * yd) + (y as int) * xd,
                forall|ix: int, iy: int, iz: int|
                    0 <= ix < xd && 0 <= iy < yd && 0 <= iz < zd && lex_before(
                        ix,
                        iy,
                        iz,
                        0,
                        y as int,
                        z as int,
                    ) ==> cell_ok(data@, *geom, *aabb, dim, ix, iy, iz),
            decreases dim.y - y,
        {
            let mut x: u32 = 0;
            while x < dim.x
                invariant
                    dim.x >= 2,
                    dim.y >= 2,
                    dim.z >= 2,
                    sample_count(dim) <= 0x1000_0000,
                    xd == dim.x as int,
                    yd == dim.y as int,
                    zd == dim.z as int,
                    mn == aabb_min_spec(*aabb),
                    span_x == fx_add_spec(aabb.half_extents.x as int, aabb.half_extents.x as int),
                    span_y == fx_add_spec(aabb.half_extents.y as int, aabb.half_extents.y as int),
                    span_z == fx_add_spec(aabb.half_extents.z as int, aabb.half_extents.z as int),
                    0 <= z < dim.z,
                    0 <= y < dim.y,
                    0 <= x <= dim.x,
                    data@.len() == (z as int) * (xd * yd) + (y as int) * xd + x as int,
                    forall|ix: int, iy: int, iz: int|
                        0 <= ix < xd && 0 <= iy < yd && 0 <= iz < zd && lex_before(
                            ix,
                            iy,
                            iz,
                            x as int,
                            y as int,
                            z as int,
                        ) ==> cell_ok(data@, *geom, *aabb, dim, ix, iy, iz),
                decreases dim.x - x,
            {
                let ghost data0 = data@;
                let point = V3 {
                    x: fx_add(mn.x, axis_offset(span_x, x, dim.x - 1)),
                    y: fx_add(mn.y, axis_offset(span_y, y, dim.y - 1)),
                    z: fx_add(mn.z, axis_offset(span_z, z, dim.z - 1)),
                };
                proof {
                    assert(point == lattice_point(*aabb, dim, x as int, y as int, z as int));
                }
                let d = compute_distance(geom, point);
                data.push(d);
                proof {
                    assert forall|ix: int, iy: int, iz: int|
                        0 <= ix < xd && 0 <= iy < yd && 0 <= iz < zd && lex_before(
                            ix,
                            iy,
                            iz,
                            x as int + 1,
                            y as int,
                            z as int,
                        ) implies cell_ok(data@, *geom, *aabb, dim, ix, iy, iz) by {
                        lemma_lattice_in(xd, yd, zd, ix, iy, iz);
                        if ix == x as int && iy == y as int && iz == z as int {
                            assert(lattice_index(dim, ix, iy, iz) == data0.len());
                        } else {
                            assert(lex_before(ix, iy, iz, x as int, y as int, z as int));
                            lemma_lattice_order(xd, yd, ix, iy, iz, x as int, y as int, z as int);
                            assert(lattice_index(dim, ix, iy, iz) < data0.len());
                            assert(data@[lattice_index(dim, ix, iy, iz)] == data0[lattice_index(
                                dim,
                                ix,
                                iy,
                                iz,
                            )]);
                        }
                    }
                }
                x = x + 1;
            }
            proof {
                assert(((y as int) + 1) * xd == (y as int) * xd + xd) by (nonlinear_arith);
                assert forall|ix: int, iy: int, iz: int|
                    0 <= ix < xd && 0 <= iy < yd && 0 <= iz < zd && lex_before(
                        ix,
                        iy,
                        iz,
                        0,
                        y as int + 1,
                        z as int,
                    ) implies cell_ok(data@, *geom, *aabb, dim, ix, iy, iz) by {
                    assert(lex_before(ix, iy, iz, dim.x as int, y as int, z as int));
                }
            }
            y = y + 1;
        }
        proof {
            assert(((z as int) + 1) * (xd * yd) == (z as int) * (xd * yd) + yd * xd) by (nonlinear_arith);
            assert forall|ix: int, iy: int, iz: int|
                0 <= ix < xd && 0 <= iy < yd && 0 <= iz < zd && iz < z as int + 1 implies cell_ok(
                data@,
                *geom,
                *aabb,
                dim,
                ix,
                iy,
                iz,
            ) by {
                assert(lex_before(ix, iy, iz, 0, dim.y as int, z as int));
            }
        }
        z = z + 1;
    }
    proof {
        assert(zd * (xd * yd) == (xd * yd) * zd) by (nonlinear_arith);
    }
    data
}

/// A filled volumetric distance field: the lattice dimensions and one
/// fixed-point sample per lattice point, in linear-offset order.
pub struct SdfField {
    pub dim: GridDim,
    pub data: Vec<i64>,
}

/// The little-endian encoding of one raw sample, least significant byte
/// first; negative values are encoded by their two's-complement bits.
pub open spec fn le_bytes_of(v: i64) -> Seq<u8> {
    let u = v as u64;
    seq![
        (u % 256) as u8,
        ((u / 256) % 256) as u8,
        ((u / 0x1_0000) % 256) as u8,
        ((u / 0x100_0000) % 256) as u8,
        ((u / 0x1_0000_0000) % 256) as u8,
        ((u / 0x100_0000_0000) % 256) as u8,
        ((u / 0x1_0000_0000_0000) % 256) as u8,
        ((u / 0x100_0000_0000_0000) % 256) as u8,
    ]
}

impl SdfField {
    /// Serialize the sample buffer: eight little-endian bytes per sample,
    /// in sample order.
    pub fn to_le_bytes(&self) -> (out: Vec<u8>)
        ensures
            out@.len() == 8 * self.data@.len(),
            forall|j: int|
                0 <= j < 8 * self.data@.len() ==> out@[j] == le_bytes_of(self.data@[j / 8])[j % 8],
    {
        let mut out: Vec<u8> = Vec::new();
        let mut i: usize = 0;
        while i < self.data.len()
            invariant
                0 <= i <= self.data@.len(),
                out@.len() == 8 * i,
                forall|j: int|
                    0 <= j < 8 * i ==> out@[j] == le_bytes_of(self.data@[j / 8])[j % 8],
            decreases self.data@.len() - i,
        {
            let v: i64 = self.data[i];
            let u: u64 = #[verifier::truncate] (v as u64);
            let ghost out0 = out@;
            out.push((u % 256) as u8);
            out.push(((u / 256) % 256) as u8);
            out.push(((u / 0x1_0000) % 256) as u8);
            out.push(((u / 0x100_0000) % 256) as u8);
            out.push(((u / 0x1_0000_0000) % 256) as u8);
            out.push(((u / 0x100_0000_0000) % 256) as u8);
            out.push(((u / 0x1_0000_0000_0000) % 256) as u8);
            out.push(((u / 0x100_0000_0000_0000) % 256) as u8);
            proof {
                assert forall|j: int| 0 <= j < 8 * (i + 1) implies out@[j] == le_bytes_of(
                    self.data@[j / 8],
                )[j % 8] by {
                    if j < 8 * i {
                        assert(out@[j] == out0[j]);
                    } else {
                        assert(j / 8 == i as int && j % 8 == j - 8 * i);
                        assert(self.data@[j / 8] == v);
                    }
                }
            }
            i = i + 1;
        }
        out
    }
}

/// Build the signed distance field of a raw, unskinned mesh on a `dimension`
/// lattice spanning `aabb`: preprocess the mesh, then sample every lattice
/// point.
pub fn create_sdf_from_mesh_cpu(mesh: &RawMesh, aabb: &Aabb, dimension: GridDim) -> (r: Result<
    SdfField,
    MeshError,
>)
    requires
        mesh_error_spec(*mesh, false) is None ==> mesh_in_bounds(*mesh, None),
        source_len(*mesh) < 0x4000_0000,
        dimension.x >= 2,
        dimension.y >= 2,
        dimension.z >= 2,
        sample_count(dimension) <= 0x1000_0000,
    ensures
        ({
            let tris = tris_of(resolved_positions(*mesh, None));
            match r {
                Ok(f) => {
                    &&& mesh_error_spec(*mesh, false) is None
                    &&& f.dim == dimension
                    &&& f.data@.len() == sample_count(dimension)
                    &&& forall|ix: int, iy: int, iz: int|
                        0 <= ix < dimension.x as int && 0 <= iy < dimension.y as int && 0 <= iz
                            < dimension.z as int ==> f.data@[lattice_index(dimension, ix, iy, iz)]
                            == signed_distance_spec(
                            vertex_list_of(tris),
                            edge_list_of(tris),
                            tri_records(tris),
                            lattice_point(*aabb, dimension, ix, iy, iz),
                        )
                },
                Err(e) => mesh_error_spec(*mesh, false) == Some(e),
            }
        }),
{
    let geom = match preprocess_mesh_for_sdf(mesh, None) {
        Ok(g) => g,
        Err(e) => {
            return Err(e);
        },
    };
    let data = rasterize(&geom, aabb, dimension);
    proof {
        let tris = tris_of(resolved_positions(*mesh, None));
        assert forall|ix: int, iy: int, iz: int|
            0 <= ix < dimension.x as int && 0 <= iy < dimension.y as int && 0 <= iz
                < dimension.z as int implies data@[lattice_index(dimension, ix, iy, iz)]
            == signed_distance_spec(
            vertex_list_of(tris),
            edge_list_of(tris),
            tri_records(tris),
            lattice_point(*aabb, dimension, ix, iy, iz),
        ) by {
            assert(cell_ok(data@, geom, *aabb, dimension, ix, iy, iz));
        }
    }
    Ok(SdfField { dim: dimension, data })
}

} // verus!

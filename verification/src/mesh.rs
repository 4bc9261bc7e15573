//! Raw mesh input: positions, an optional index buffer, and optional skin
//! attributes, resolved into a flat corner list.
//!
//! When skin data is present each corner is transformed by the weighted sum
//! of up to four joint matrices and divided by the homogeneous coordinate.
//! Missing required attributes are rejected with a descriptive error before
//! any geometry is touched.

use vstd::prelude::*;
use crate::fx::{fx_add, fx_add_spec, fx_div, fx_div_spec, fx_mul, fx_mul_spec};
use crate::vec3::{sat_i64, V3};

verus! {

/// Primitive topology of a raw mesh; the pipeline accepts triangle lists
/// only.
#[derive(Clone, Copy, PartialEq, Eq, Structural, Debug)]
pub enum MeshTopology {
    PointList,
    LineList,
    TriangleList,
    TriangleStrip,
}

/// A fixed-point 4-vector: a homogeneous position or a weight quadruple.
#[derive(Clone, Copy, PartialEq, Eq, Structural, Debug)]
pub struct V4 {
    pub x: i64,
    pub y: i64,
    pub z: i64,
    pub w: i64,
}

/// A column-major fixed-point 4x4 matrix (a joint transform).
#[derive(Clone, Copy, PartialEq, Eq, Structural, Debug)]
pub struct Mat4 {
    pub x_axis: V4,
    pub y_axis: V4,
    pub z_axis: V4,
    pub w_axis: V4,
}

/// The four joint slots that influence one vertex.
#[derive(Clone, Copy, PartialEq, Eq, Structural, Debug)]
pub struct JointIndices {
    pub j0: u16,
    pub j1: u16,
    pub j2: u16,
    pub j3: u16,
}

/// Raw triangle-soup input.
pub struct RawMesh {
    pub topology: MeshTopology,
    pub positions: Option<Vec<V3>>,
    pub indices: Option<Vec<u32>>,
    pub joint_weights: Option<Vec<V4>>,
    pub joint_indices: Option<Vec<JointIndices>>,
}

/// A fatal precondition violation of the preprocessing contract.
#[derive(Clone, Copy, PartialEq, Eq, Structural, Debug)]
pub enum MeshError {
    NotTriangleList,
    MissingPositions,
    MissingJointWeights,
    MissingJointIndices,
}

pub open spec fn v4_scale_spec(a: V4, s: int) -> V4 {
    V4 {
        x: sat_i64(fx_mul_spec(a.x as int, s)),
        y: sat_i64(fx_mul_spec(a.y as int, s)),
        z: sat_i64(fx_mul_spec(a.z as int, s)),
        w: sat_i64(fx_mul_spec(a.w as int, s)),
    }
}

pub open spec fn v4_add_spec(a: V4, b: V4) -> V4 {
    V4 {
        x: sat_i64(fx_add_spec(a.x as int, b.x as int)),
        y: sat_i64(fx_add_spec(a.y as int, b.y as int)),
        z: sat_i64(fx_add_spec(a.z as int, b.z as int)),
        w: sat_i64(fx_add_spec(a.w as int, b.w as int)),
    }
}

pub open spec fn mat_scale_spec(m: Mat4, s: int) -> Mat4 {
    Mat4 {
        x_axis: v4_scale_spec(m.x_axis, s),
        y_axis: v4_scale_spec(m.y_axis, s),
        z_axis: v4_scale_spec(m.z_axis, s),
        w_axis: v4_scale_spec(m.w_axis, s),
    }
}

pub open spec fn mat_add_spec(m: Mat4, n: Mat4) -> Mat4 {
    Mat4 {
        x_axis: v4_add_spec(m.x_axis, n.x_axis),
        y_axis: v4_add_spec(m.y_axis, n.y_axis),
        z_axis: v4_add_spec(m.z_axis, n.z_axis),
        w_axis: v4_add_spec(m.w_axis, n.w_axis),
    }
}

/// Apply a matrix to a point with homogeneous coordinate one.
pub open spec fn mat_point_spec(m: Mat4, v: V3) -> V4 {
    v4_add_spec(
        v4_add_spec(
            v4_add_spec(v4_scale_spec(m.x_axis, v.x as int), v4_scale_spec(m.y_axis, v.y as int)),
            v4_scale_spec(m.z_axis, v.z as int),
        ),
        m.w_axis,
    )
}

/// The blended joint matrix of one vertex.
pub open spec fn skin_matrix_spec(joints: Seq<Mat4>, w: V4, ji: JointIndices) -> Mat4 {
    mat_add_spec(
        mat_add_spec(
            mat_add_spec(
                mat_scale_spec(joints[ji.j0 as int], w.x as int),
                mat_scale_spec(joints[ji.j1 as int], w.y as int),
            ),
            mat_scale_spec(joints[ji.j2 as int], w.z as int),
        ),
        mat_scale_spec(joints[ji.j3 as int], w.w as int),
    )
}

/// One vertex transformed by its blended joint matrix and divided by the
/// homogeneous coordinate.
pub open spec fn skin_point_spec(joints: Seq<Mat4>, w: V4, ji: JointIndices, v: V3) -> V3 {
    let h = mat_point_spec(skin_matrix_spec(joints, w, ji), v);
    V3 {
        x: sat_i64(fx_div_spec(h.x as int, h.w as int)),
        y: sat_i64(fx_div_spec(h.y as int, h.w as int)),
        z: sat_i64(fx_div_spec(h.z as int, h.w as int)),
    }
}

/// The attribute-validation outcome, in checking order.
pub open spec fn mesh_error_spec(mesh: RawMesh, has_joints: bool) -> Option<MeshError> {
    if !(mesh.topology is TriangleList) {
        Some(MeshError::NotTriangleList)
    } else if mesh.positions is None {
        Some(MeshError::MissingPositions)
    } else if has_joints && mesh.joint_weights is None {
        Some(MeshError::MissingJointWeights)
    } else if has_joints && mesh.joint_indices is None {
        Some(MeshError::MissingJointIndices)
    } else {
        None
    }
}

/// How many corners the mesh resolves to: the index buffer's length when
/// present, else the position count.
pub open spec fn source_len(mesh: RawMesh) -> int {
    if mesh.indices is Some {
        mesh.indices->0@.len() as int
    } else {
        mesh.positions->0@.len() as int
    }
}

/// The position slot feeding corner `i`.
pub open spec fn source_index(mesh: RawMesh, i: int) -> int {
    if mesh.indices is Some {
        mesh.indices->0@[i] as int
    } else {
        i
    }
}

/// Corner `i` after index resolution and optional skinning.
pub open spec fn resolved_position(mesh: RawMesh, joints: Option<Seq<Mat4>>, i: int) -> V3 {
    let vi = source_index(mesh, i);
    let base = mesh.positions->0@[vi];
    if joints is Some {
        skin_point_spec(joints->0, mesh.joint_weights->0@[vi], mesh.joint_indices->0@[vi], base)
    } else {
        base
    }
}

/// The flat corner list the preprocessor consumes.
pub open spec fn resolved_positions(mesh: RawMesh, joints: Option<Seq<Mat4>>) -> Seq<V3> {
    Seq::new(source_len(mesh) as nat, |i: int| resolved_position(mesh, joints, i))
}

/// Structural bounds under which resolution cannot index out of range:
/// index-buffer entries address real positions, and when skinning is used
/// the skin attributes cover every position and name real joints.
pub open spec fn mesh_in_bounds(mesh: RawMesh, joints: Option<Seq<Mat4>>) -> bool {
    &&& mesh.positions is Some
    &&& mesh.indices is Some ==> forall|i: int|
        0 <= i < mesh.indices->0@.len() ==> (#[trigger] mesh.indices->0@[i] as int)
            < mesh.positions->0@.len()
    &&& joints is Some ==> {
        &&& mesh.joint_weights is Some
        &&& mesh.joint_indices is Some
        &&& mesh.joint_weights->0@.len() == mesh.positions->0@.len()
        &&& mesh.joint_indices->0@.len() == mesh.positions->0@.len()
        &&& forall|i: int|
            0 <= i < mesh.joint_indices->0@.len() ==> {
                let ji = #[trigger] mesh.joint_indices->0@[i];
                &&& (ji.j0 as int) < joints->0.len()
                &&& (ji.j1 as int) < joints->0.len()
                &&& (ji.j2 as int) < joints->0.len()
                &&& (ji.j3 as int) < joints->0.len()
            }
    }
}

fn v4_scale(a: V4, s: i64) -> (r: V4)
    ensures
        r == v4_scale_spec(a, s as int),
{
    V4 { x: fx_mul(a.x, s), y: fx_mul(a.y, s), z: fx_mul(a.z, s), w: fx_mul(a.w, s) }
}

fn v4_add(a: V4, b: V4) -> (r: V4)
    ensures
        r == v4_add_spec(a, b),
{
    V4 { x: fx_add(a.x, b.x), y: fx_add(a.y, b.y), z: fx_add(a.z, b.z), w: fx_add(a.w, b.w) }
}

fn mat_scale(m: &Mat4, s: i64) -> (r: Mat4)
    ensures
        r == mat_scale_spec(*m, s as int),
{
    Mat4 {
        x_axis: v4_scale(m.x_axis, s),
        y_axis: v4_scale(m.y_axis, s),
        z_axis: v4_scale(m.z_axis, s),
        w_axis: v4_scale(m.w_axis, s),
    }
}

fn mat_add(m: Mat4, n: Mat4) -> (r: Mat4)
    ensures
        r == mat_add_spec(m, n),
{
    Mat4 {
        x_axis: v4_add(m.x_axis, n.x_axis),
        y_axis: v4_add(m.y_axis, n.y_axis),
        z_axis: v4_add(m.z_axis, n.z_axis),
        w_axis: v4_add(m.w_axis, n.w_axis),
    }
}

fn mat_point(m: &Mat4, v: V3) -> (r: V4)
    ensures
        r == mat_point_spec(*m, v),
{
    v4_add(
        v4_add(v4_add(v4_scale(m.x_axis, v.x), v4_scale(m.y_axis, v.y)), v4_scale(m.z_axis, v.z)),
        m.w_axis,
    )
}

/// Transform one vertex by its weighted joint matrices.
pub fn skin_point(joints: &Vec<Mat4>, w: V4, ji: JointIndices, v: V3) -> (r: V3)
    requires
        (ji.j0 as int) < joints@.len(),
        (ji.j1 as int) < joints@.len(),
        (ji.j2 as int) < joints@.len(),
        (ji.j3 as int) < joints@.len(),
    ensures
        r == skin_point_spec(joints@, w, ji, v),
{
    let m = mat_add(
        mat_add(
            mat_add(
                mat_scale(&joints[ji.j0 as usize], w.x),
                mat_scale(&joints[ji.j1 as usize], w.y),
            ),
            mat_scale(&joints[ji.j2 as usize], w.z),
        ),
        mat_scale(&joints[ji.j3 as usize], w.w),
    );
    let h = mat_point(&m, v);
    V3 { x: fx_div(h.x, h.w), y: fx_div(h.y, h.w), z: fx_div(h.z, h.w) }
}

/// Validate the mesh attributes and resolve the flat corner list: indexed
/// or raw order, skinned when joint data is given.
pub fn resolve_positions(mesh: &RawMesh, joints: Option<&Vec<Mat4>>) -> (r: Result<
    Vec<V3>,
    MeshError,
>)
    requires
        mesh_error_spec(*mesh, joints is Some) is None ==> mesh_in_bounds(
            *mesh,
            if joints is Some {
                Some(joints->0@)
            } else {
                None
            },
        ),
    ensures
        ({
            let jv = if joints is Some {
                Some(joints->0@)
            } else {
                None
            };
            match r {
                Ok(v) => mesh_error_spec(*mesh, joints is Some) is None && v@
                    == resolved_positions(*mesh, jv),
                Err(e) => mesh_error_spec(*mesh, joints is Some) == Some(e),
            }
        }),
{
    let ghost jv: Option<Seq<Mat4>> = if joints is Some {
        Some(joints->0@)
    } else {
        None
    };
    if !matches!(mesh.topology, MeshTopology::TriangleList) {
        return Err(MeshError::NotTriangleList);
    }
    let positions = match &mesh.positions {
        Some(p) => p,
        None => {
            return Err(MeshError::MissingPositions);
        },
    };
    if joints.is_some() && mesh.joint_weights.is_none() {
        return Err(MeshError::MissingJointWeights);
    }
    if joints.is_some() && mesh.joint_indices.is_none() {
        return Err(MeshError::MissingJointIndices);
    }
    let count: usize = match &mesh.indices {
        Some(ix) => ix.len(),
        None => positions.len(),
    };
    let mut out: Vec<V3> = Vec::new();
    let mut i: usize = 0;
    while i < count
        invariant
            count == source_len(*mesh),
            jv == (if joints is Some {
                Some(joints->0@)
            } else {
                None::<Seq<Mat4>>
            }),
            mesh.positions == Some(*positions),
            mesh_error_spec(*mesh, joints is Some) is None,
            mesh_in_bounds(*mesh, jv),
            0 <= i <= count,
            out@.len() == i,
            forall|j: int| 0 <= j < i ==> out@[j] == resolved_position(*mesh, jv, j),
        decreases count - i,
    {
        let vi: usize = match &mesh.indices {
            Some(ix) => {
                let e: u32 = ix[i];
                e as usize
            },
            None => i,
        };
        proof {
            assert(vi == source_index(*mesh, i as int));
            assert(vi < positions@.len());
        }
        let base = positions[vi];
        let p = match joints {
            Some(j) => {
                let w = match &mesh.joint_weights {
                    Some(ws) => ws[vi],
                    None => {
                        proof {
                            assert(false);
                        }
                        V4 { x: 0, y: 0, z: 0, w: 0 }
                    },
                };
                let ji = match &mesh.joint_indices {
                    Some(js) => js[vi],
                    None => {
                        proof {
                            assert(false);
                        }
                        JointIndices { j0: 0, j1: 0, j2: 0, j3: 0 }
                    },
                };
                skin_point(j, w, ji, base)
            },
            None => base,
        };
        out.push(p);
        i = i + 1;
    }
    proof {
        assert(out@ =~= resolved_positions(*mesh, jv));
    }
    Ok(out)
}

} // verus!

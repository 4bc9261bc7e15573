//! Axis-aligned bounding boxes, as a center and half-extents.

use vstd::prelude::*;
use crate::fx::{fx_add, fx_add_spec, FX_HALF};
use crate::mesh::{
    mesh_error_spec, mesh_in_bounds, resolve_positions, resolved_positions, Mat4, RawMesh,
};
use crate::vec3::{
    v3_add, v3_add_spec, v3_max, v3_max_spec, v3_min, v3_min_spec, v3_scale, v3_scale_spec,
    v3_sub, v3_sub_spec, V3,
};

verus! {

/// An axis-aligned bounding box: center and half-extents.
#[derive(Clone, Copy, PartialEq, Eq, Structural, Debug)]
pub struct Aabb {
    pub center: V3,
    pub half_extents: V3,
}

pub open spec fn aabb_min_spec(a: Aabb) -> V3 {
    v3_sub_spec(a.center, a.half_extents)
}

pub open spec fn aabb_max_spec(a: Aabb) -> V3 {
    v3_add_spec(a.center, a.half_extents)
}

/// The box spanning the two given corners.
pub open spec fn aabb_from_min_max_spec(mn: V3, mx: V3) -> Aabb {
    Aabb {
        center: v3_scale_spec(v3_add_spec(mn, mx), FX_HALF as int),
        half_extents: v3_scale_spec(v3_sub_spec(mx, mn), FX_HALF as int),
    }
}

/// The box grown by the same margin along every axis.
pub open spec fn aabb_expand_spec(a: Aabb, margin: int) -> Aabb {
    Aabb {
        center: a.center,
        half_extents: V3 {
            x: crate::vec3::sat_i64(fx_add_spec(a.half_extents.x as int, margin)),
            y: crate::vec3::sat_i64(fx_add_spec(a.half_extents.y as int, margin)),
            z: crate::vec3::sat_i64(fx_add_spec(a.half_extents.z as int, margin)),
        },
    }
}

impl Aabb {
    /// The corner with the smallest coordinates.
    pub fn min(&self) -> (r: V3)
        ensures
            r == aabb_min_spec(*self),
    {
        v3_sub(self.center, self.half_extents)
    }

    /// The corner with the largest coordinates.
    pub fn max(&self) -> (r: V3)
        ensures
            r == aabb_max_spec(*self),
    {
        v3_add(self.center, self.half_extents)
    }

    pub fn from_min_max(mn: V3, mx: V3) -> (r: Aabb)
        ensures
            r == aabb_from_min_max_spec(mn, mx),
    {
        Aabb {
            center: v3_scale(v3_add(mn, mx), FX_HALF),
            half_extents: v3_scale(v3_sub(mx, mn), FX_HALF),
        }
    }

    /// Grow the box by `margin` along every axis.
    pub fn expand(&self, margin: i64) -> (r: Aabb)
        ensures
            r == aabb_expand_spec(*self, margin as int),
    {
        Aabb {
            center: self.center,
            half_extents: V3 {
                x: fx_add(self.half_extents.x, margin),
                y: fx_add(self.half_extents.y, margin),
                z: fx_add(self.half_extents.z, margin),
            },
        }
    }
}

/// Running component-wise minimum of the first `i` points, from the
/// largest representable corner.
pub open spec fn points_min(ps: Seq<V3>, i: int) -> V3
    decreases i,
{
    if i <= 0 {
        V3 { x: i64::MAX, y: i64::MAX, z: i64::MAX }
    } else {
        v3_min_spec(points_min(ps, i - 1), ps[i - 1])
    }
}

/// Running component-wise maximum of the first `i` points, from the
/// smallest representable corner.
pub open spec fn points_max(ps: Seq<V3>, i: int) -> V3
    decreases i,
{
    if i <= 0 {
        V3 { x: i64::MIN, y: i64::MIN, z: i64::MIN }
    } else {
        v3_max_spec(points_max(ps, i - 1), ps[i - 1])
    }
}

/// The fold produced a real box: every component moved off its initial
/// sentinel.
pub open spec fn bounds_defined(mn: V3, mx: V3) -> bool {
    &&& mn.x != i64::MAX
    &&& mn.y != i64::MAX
    &&& mn.z != i64::MAX
    &&& mx.x != i64::MIN
    &&& mx.y != i64::MIN
    &&& mx.z != i64::MIN
}

/// The bounding box of the mesh in its current pose: every corner is
/// skinned by the joint matrices, then the component-wise extremes span the
/// box. `None` when an attribute is missing or no corner moved the fold off
/// its sentinel.
#[verifier::rlimit(50)]
pub fn animated_aabb_for_mesh(mesh: &RawMesh, joints: &Vec<Mat4>) -> (r: Option<Aabb>)
    requires
        mesh_error_spec(*mesh, true) is None ==> mesh_in_bounds(*mesh, Some(joints@)),
    ensures
        ({
            let ps = resolved_positions(*mesh, Some(joints@));
            let mn = points_min(ps, ps.len() as int);
            let mx = points_max(ps, ps.len() as int);
            match r {
                Some(ab) => mesh_error_spec(*mesh, true) is None && bounds_defined(mn, mx) && ab
                    == aabb_from_min_max_spec(mn, mx),
                None => mesh_error_spec(*mesh, true) is Some || !bounds_defined(mn, mx),
            }
        }),
{
    let values = match resolve_positions(mesh, Some(joints)) {
        Ok(v) => v,
        Err(_) => {
            return None;
        },
    };
    let mut mn = V3 { x: i64::MAX, y: i64::MAX, z: i64::MAX };
    let mut mx = V3 { x: i64::MIN, y: i64::MIN, z: i64::MIN };
    let mut i: usize = 0;
    while i < values.len()
        invariant
            0 <= i <= values@.len(),
            mn == points_min(values@, i as int),
            mx == points_max(values@, i as int),
        decreases values@.len() - i,
    {
        let v = values[i];
        mn = v3_min(mn, v);
        mx = v3_max(mx, v);
        i = i + 1;
    }
    if mn.x != i64::MAX && mn.y != i64::MAX && mn.z != i64::MAX && mx.x != i64::MIN && mx.y
        != i64::MIN && mx.z != i64::MIN {
        Some(Aabb::from_min_max(mn, mx))
    } else {
        None
    }
}

} // verus!

//! 3-component fixed-point vectors and their exactly-specified operations.

use vstd::prelude::*;
use crate::fx::{
    fx_add, fx_add_spec, fx_div, fx_div_spec, fx_mul, fx_mul_spec, fx_sqrt, fx_sqrt_spec, fx_sub,
    fx_sub_spec, sat64,
};

verus! {

/// A vector of three fixed-point scalars.
#[derive(Clone, Copy, PartialEq, Eq, Structural, Debug)]
pub struct V3 {
    pub x: i64,
    pub y: i64,
    pub z: i64,
}

/// Clamp a mathematical integer into `i64`, as an `i64`.
pub open spec fn sat_i64(x: int) -> i64 {
    sat64(x) as i64
}

pub open spec fn v3_zero() -> V3 {
    V3 { x: 0, y: 0, z: 0 }
}

pub open spec fn v3_add_spec(a: V3, b: V3) -> V3 {
    V3 {
        x: sat_i64(a.x + b.x),
        y: sat_i64(a.y + b.y),
        z: sat_i64(a.z + b.z),
    }
}

pub open spec fn v3_sub_spec(a: V3, b: V3) -> V3 {
    V3 {
        x: sat_i64(a.x - b.x),
        y: sat_i64(a.y - b.y),
        z: sat_i64(a.z - b.z),
    }
}

/// Component-wise scaling by a fixed-point scalar.
pub open spec fn v3_scale_spec(a: V3, s: int) -> V3 {
    V3 {
        x: sat_i64(fx_mul_spec(a.x as int, s)),
        y: sat_i64(fx_mul_spec(a.y as int, s)),
        z: sat_i64(fx_mul_spec(a.z as int, s)),
    }
}

/// Component-wise division by a fixed-point scalar.
pub open spec fn v3_div_spec(a: V3, d: int) -> V3 {
    V3 {
        x: sat_i64(fx_div_spec(a.x as int, d)),
        y: sat_i64(fx_div_spec(a.y as int, d)),
        z: sat_i64(fx_div_spec(a.z as int, d)),
    }
}

pub open spec fn v3_dot_spec(a: V3, b: V3) -> int {
    fx_add_spec(
        fx_add_spec(
            fx_mul_spec(a.x as int, b.x as int),
            fx_mul_spec(a.y as int, b.y as int),
        ),
        fx_mul_spec(a.z as int, b.z as int),
    )
}

pub open spec fn v3_cross_spec(a: V3, b: V3) -> V3 {
    V3 {
        x: sat_i64(
            fx_sub_spec(fx_mul_spec(a.y as int, b.z as int), fx_mul_spec(a.z as int, b.y as int)),
        ),
        y: sat_i64(
            fx_sub_spec(fx_mul_spec(a.z as int, b.x as int), fx_mul_spec(a.x as int, b.z as int)),
        ),
        z: sat_i64(
            fx_sub_spec(fx_mul_spec(a.x as int, b.y as int), fx_mul_spec(a.y as int, b.x as int)),
        ),
    }
}

pub open spec fn v3_length_sq_spec(a: V3) -> int {
    v3_dot_spec(a, a)
}

pub open spec fn v3_length_spec(a: V3) -> int {
    fx_sqrt_spec(v3_length_sq_spec(a))
}

pub open spec fn v3_dist_sq_spec(a: V3, b: V3) -> int {
    v3_length_sq_spec(v3_sub_spec(a, b))
}

/// Normalization divides each component by the vector's length; a vector of
/// length below one raw unit saturates component-wise.
pub open spec fn v3_normalize_spec(a: V3) -> V3 {
    v3_div_spec(a, v3_length_spec(a))
}

/// Component-wise minimum.
pub open spec fn v3_min_spec(a: V3, b: V3) -> V3 {
    V3 {
        x: if a.x <= b.x {
            a.x
        } else {
            b.x
        },
        y: if a.y <= b.y {
            a.y
        } else {
            b.y
        },
        z: if a.z <= b.z {
            a.z
        } else {
            b.z
        },
    }
}

/// Component-wise maximum.
pub open spec fn v3_max_spec(a: V3, b: V3) -> V3 {
    V3 {
        x: if a.x >= b.x {
            a.x
        } else {
            b.x
        },
        y: if a.y >= b.y {
            a.y
        } else {
            b.y
        },
        z: if a.z >= b.z {
            a.z
        } else {
            b.z
        },
    }
}

pub fn v3_min(a: V3, b: V3) -> (r: V3)
    ensures
        r == v3_min_spec(a, b),
{
    V3 {
        x: if a.x <= b.x {
            a.x
        } else {
            b.x
        },
        y: if a.y <= b.y {
            a.y
        } else {
            b.y
        },
        z: if a.z <= b.z {
            a.z
        } else {
            b.z
        },
    }
}

pub fn v3_max(a: V3, b: V3) -> (r: V3)
    ensures
        r == v3_max_spec(a, b),
{
    V3 {
        x: if a.x >= b.x {
            a.x
        } else {
            b.x
        },
        y: if a.y >= b.y {
            a.y
        } else {
            b.y
        },
        z: if a.z >= b.z {
            a.z
        } else {
            b.z
        },
    }
}

pub fn v3_eq(a: &V3, b: &V3) -> (r: bool)
    ensures
        r == (*a == *b),
{
    a.x == b.x && a.y == b.y && a.z == b.z
}

pub fn v3_add(a: V3, b: V3) -> (r: V3)
    ensures
        r == v3_add_spec(a, b),
{
    V3 { x: fx_add(a.x, b.x), y: fx_add(a.y, b.y), z: fx_add(a.z, b.z) }
}

pub fn v3_sub(a: V3, b: V3) -> (r: V3)
    ensures
        r == v3_sub_spec(a, b),
{
    V3 { x: fx_sub(a.x, b.x), y: fx_sub(a.y, b.y), z: fx_sub(a.z, b.z) }
}

pub fn v3_scale(a: V3, s: i64) -> (r: V3)
    ensures
        r == v3_scale_spec(a, s as int),
{
    V3 { x: fx_mul(a.x, s), y: fx_mul(a.y, s), z: fx_mul(a.z, s) }
}

pub fn v3_div(a: V3, d: i64) -> (r: V3)
    ensures
        r == v3_div_spec(a, d as int),
{
    V3 { x: fx_div(a.x, d), y: fx_div(a.y, d), z: fx_div(a.z, d) }
}

pub fn v3_dot(a: V3, b: V3) -> (r: i64)
    ensures
        r == v3_dot_spec(a, b),
{
    fx_add(fx_add(fx_mul(a.x, b.x), fx_mul(a.y, b.y)), fx_mul(a.z, b.z))
}

pub fn v3_cross(a: V3, b: V3) -> (r: V3)
    ensures
        r == v3_cross_spec(a, b),
{
    V3 {
        x: fx_sub(fx_mul(a.y, b.z), fx_mul(a.z, b.y)),
        y: fx_sub(fx_mul(a.z, b.x), fx_mul(a.x, b.z)),
        z: fx_sub(fx_mul(a.x, b.y), fx_mul(a.y, b.x)),
    }
}

pub fn v3_length_sq(a: V3) -> (r: i64)
    ensures
        r == v3_length_sq_spec(a),
{
    v3_dot(a, a)
}

pub fn v3_length(a: V3) -> (r: i64)
    ensures
        r == v3_length_spec(a),
{
    fx_sqrt(v3_length_sq(a))
}

pub fn v3_dist_sq(a: V3, b: V3) -> (r: i64)
    ensures
        r == v3_dist_sq_spec(a, b),
{
    v3_length_sq(v3_sub(a, b))
}

pub fn v3_normalize(a: V3) -> (r: V3)
    ensures
        r == v3_normalize_spec(a),
{
    let len = v3_length(a);
    v3_div(a, len)
}

} // verus!

//! A small analytic SDF path: instead of boxed distance closures, a tagged
//! tree of primitive fields evaluated by an explicit interpreter. Unions of
//! any width compose from the binary node.

use vstd::prelude::*;
use crate::fx::fx_sub_spec;
use crate::fx::fx_sub;
use crate::vec3::{v3_length, v3_length_spec, v3_sub, v3_sub_spec, V3};

verus! {

/// An analytic signed distance field: a sphere, or the union of two
/// fields.
pub enum AnalyticSdf {
    Sphere { origin: V3, radius: i64 },
    Union(Box<AnalyticSdf>, Box<AnalyticSdf>),
}

/// The interpreter's value: a sphere is the distance to its origin less
/// the radius; a union is the smaller of its parts.
pub open spec fn analytic_eval_spec(s: AnalyticSdf, p: V3) -> int
    decreases s,
{
    match s {
        AnalyticSdf::Sphere { origin, radius } => fx_sub_spec(
            v3_length_spec(v3_sub_spec(p, origin)),
            radius as int,
        ),
        AnalyticSdf::Union(a, b) => {
            let da = analytic_eval_spec(*a, p);
            let db = analytic_eval_spec(*b, p);
            if da <= db {
                da
            } else {
                db
            }
        },
    }
}

/// Evaluate an analytic field at a point.
pub fn analytic_eval(s: &AnalyticSdf, p: V3) -> (r: i64)
    ensures
        r == analytic_eval_spec(*s, p),
    decreases *s,
{
    match s {
        AnalyticSdf::Sphere { origin, radius } => fx_sub(v3_length(v3_sub(p, *origin)), *radius),
        AnalyticSdf::Union(a, b) => {
            let da = analytic_eval(a, p);
            let db = analytic_eval(b, p);
            if da <= db {
                da
            } else {
                db
            }
        },
    }
}

/// A union is the pointwise minimum of its parts, and does not depend on
/// their order.
pub proof fn lemma_union_is_min(a: AnalyticSdf, b: AnalyticSdf, p: V3)
    ensures
        analytic_eval_spec(AnalyticSdf::Union(Box::new(a), Box::new(b)), p) <= analytic_eval_spec(
            a,
            p,
        ),
        analytic_eval_spec(AnalyticSdf::Union(Box::new(a), Box::new(b)), p) <= analytic_eval_spec(
            b,
            p,
        ),
        analytic_eval_spec(AnalyticSdf::Union(Box::new(a), Box::new(b)), p) == analytic_eval_spec(
            AnalyticSdf::Union(Box::new(b), Box::new(a)),
            p,
        ),
{
}

} // verus!

//! The per-tick SDF cache and atlas scheduling policy.
//!
//! Each tick the scheduler walks every tracked object once. It derives the
//! object's geometry identity key, decides which bounding box to use
//! (recomputed from the pose for skinned objects), expands it by the buffer
//! margin, computes the required grid size rounded up to the work-group
//! width, and asks the external atlas allocator for a slot of that size
//! plus one boundary sample per axis. A `New` answer queues the object for
//! recomputation; an `Existing` answer means the cached field is still
//! valid; `NoFit` is reported and non-fatal. Skinned objects purge their
//! previous slot first, since their bounds change every tick.
//!
//! The allocator itself is an external service: the scheduler states
//! exactly what it asks of it (`SlotPlan`) and what it does with every
//! possible answer (`record_response`), so the whole policy is verified
//! for any allocator behavior.

use vstd::prelude::*;
use crate::aabb::{aabb_expand_spec, aabb_min_spec, Aabb};
use crate::fx::{fx_add, fx_add_spec, fx_div, fx_div_spec, FX_ONE};
use crate::grid::{axis_spacing, GridDim};
use crate::vec3::{sat_i64, v3_zero, V3};

verus! {

/// The fixed GPU work-group tile width; grid dimensions are rounded up to
/// multiples of it.
pub const WORKGROUP_SIZE: u32 = 8;

/// A content-stable asset identity: an integer identifier plus a
/// generation counter that changes when the asset is replaced.
#[derive(Clone, Copy, PartialEq, Eq, Structural, Debug, Hash)]
pub struct AssetId {
    pub id: u64,
    pub generation: u32,
}

/// Where an object's SDF geometry comes from.
#[derive(Clone, Copy, PartialEq, Eq, Structural, Debug)]
pub enum SdfGenMode {
    FromPrimaryMesh,
    Precomputed(AssetId),
    FromCustomMesh(AssetId),
}

/// Per-object generation options.
#[derive(Clone, Copy, PartialEq, Eq, Structural, Debug)]
pub struct SdfOptions {
    /// Scales the generated resolution on this object for precision or
    /// speed; one by default.
    pub scale_multiplier: i64,
    /// Buffer margin override; the global setting applies when absent.
    pub buffer_size: Option<i64>,
}

/// One object's SDF configuration and its last resolved bounds.
#[derive(Clone, Copy, PartialEq, Eq, Structural, Debug)]
pub struct Sdf {
    pub mode: SdfGenMode,
    pub options: SdfOptions,
    pub aabb: Aabb,
}

/// Global scheduler settings.
#[derive(Clone, Copy, PartialEq, Eq, Structural, Debug)]
pub struct SdfGlobalSettings {
    /// Size of the shared atlas volume.
    pub atlas_page_size: GridDim,
    /// Default buffer margin added around every object's bounds.
    pub buffer_size: i64,
    /// World units per voxel.
    pub unit_size: i64,
    /// Ambient occlusion tap distance.
    pub ambient_distance: i64,
}

impl Default for SdfOptions {
    fn default() -> (r: SdfOptions)
        ensures
            r == (SdfOptions { scale_multiplier: FX_ONE, buffer_size: None }),
    {
        SdfOptions { scale_multiplier: FX_ONE, buffer_size: None }
    }
}

impl Default for Sdf {
    fn default() -> (r: Sdf)
        ensures
            r == (Sdf {
                mode: SdfGenMode::FromPrimaryMesh,
                options: SdfOptions { scale_multiplier: FX_ONE, buffer_size: None },
                aabb: Aabb { center: v3_zero(), half_extents: v3_zero() },
            }),
    {
        Sdf {
            mode: SdfGenMode::FromPrimaryMesh,
            options: SdfOptions { scale_multiplier: FX_ONE, buffer_size: None },
            aabb: Aabb { center: V3 { x: 0, y: 0, z: 0 }, half_extents: V3 { x: 0, y: 0, z: 0 } },
        }
    }
}

impl Default for SdfGlobalSettings {
    fn default() -> (r: SdfGlobalSettings)
        ensures
            r == (SdfGlobalSettings {
                atlas_page_size: GridDim { x: 200, y: 200, z: 200 },
                buffer_size: FX_ONE,
                unit_size: FX_ONE,
                ambient_distance: FX_ONE,
            }),
    {
        SdfGlobalSettings {
            atlas_page_size: GridDim { x: 200, y: 200, z: 200 },
            buffer_size: FX_ONE,
            unit_size: FX_ONE,
            ambient_distance: FX_ONE,
        }
    }
}

impl Sdf {
    /// A default configuration whose resolution is scaled by the given
    /// fixed-point multiplier.
    pub fn new_scaled(scale: i64) -> (r: Sdf)
        ensures
            r.mode == SdfGenMode::FromPrimaryMesh,
            r.options == (SdfOptions { scale_multiplier: scale, buffer_size: None }),
            r.aabb == (Aabb { center: v3_zero(), half_extents: v3_zero() }),
    {
        Sdf {
            mode: SdfGenMode::FromPrimaryMesh,
            options: SdfOptions { scale_multiplier: scale, buffer_size: None },
            aabb: Aabb { center: V3 { x: 0, y: 0, z: 0 }, half_extents: V3 { x: 0, y: 0, z: 0 } },
        }
    }
}

/// The identity of a cached SDF: two objects sharing a mesh share a key
/// and therefore a field.
#[derive(Clone, Copy, PartialEq, Eq, Structural, Debug, Hash)]
pub enum SdfAtlasKey {
    Mesh(AssetId),
    Image(AssetId),
}

pub open spec fn try_from_sdf_spec(sdf: Sdf, maybe_mesh: Option<AssetId>) -> Option<SdfAtlasKey> {
    match sdf.mode {
        SdfGenMode::FromPrimaryMesh => match maybe_mesh {
            Some(h) => Some(SdfAtlasKey::Mesh(h)),
            None => None,
        },
        SdfGenMode::Precomputed(h) => Some(SdfAtlasKey::Image(h)),
        SdfGenMode::FromCustomMesh(h) => Some(SdfAtlasKey::Mesh(h)),
    }
}

impl SdfAtlasKey {
    /// The key backing this object's field, if any mesh is resolvable.
    pub fn try_from_sdf(sdf: &Sdf, maybe_mesh: Option<AssetId>) -> (r: Option<SdfAtlasKey>)
        ensures
            r == try_from_sdf_spec(*sdf, maybe_mesh),
    {
        match &sdf.mode {
            SdfGenMode::FromPrimaryMesh => match maybe_mesh {
                Some(h) => Some(SdfAtlasKey::Mesh(h)),
                None => None,
            },
            SdfGenMode::Precomputed(h) => Some(SdfAtlasKey::Image(*h)),
            SdfGenMode::FromCustomMesh(h) => Some(SdfAtlasKey::Mesh(*h)),
        }
    }
}

/// One axis of the required grid dimension: the margin-padded span divided
/// by the unit size gives the voxel count as a fixed-point ratio; one
/// ceiling division by eight work-group widths of raw units turns it into
/// whole tiles, rounded up, capped at the largest tile count a `u32`
/// dimension can hold.
pub open spec fn axis_dim_spec(half: int, buffer: int, unit: int) -> int {
    let t = fx_add_spec(half, buffer);
    let span = fx_add_spec(t, t);
    let ratio = fx_div_spec(span, unit);
    let blocks = if ratio <= 0 {
        0
    } else {
        (ratio - 1) / 524288 + 1
    };
    let capped = if blocks > 536870911 {
        536870911
    } else {
        blocks
    };
    8 * capped
}

fn axis_dim(half: i64, buffer: i64, unit: i64) -> (r: u32)
    ensures
        r == axis_dim_spec(half as int, buffer as int, unit as int),
        r as int % 8 == 0,
{
    let t = fx_add(half, buffer);
    let span = fx_add(t, t);
    let ratio = fx_div(span, unit);
    if ratio <= 0 {
        0
    } else {
        let blocks: u64 = ((ratio - 1) as u64) / 524288 + 1;
        let capped: u64 = if blocks > 536870911 {
            536870911
        } else {
            blocks
        };
        (8 * capped) as u32
    }
}

/// The grid dimension required for a bounding box, rounded up to the
/// work-group width along each axis. The margin is added to the
/// half-extents before sizing; pass zero when the box is already expanded.
pub fn sdf_dim(aabb: &Aabb, unit_size: i64, buffer_size: i64) -> (r: GridDim)
    ensures
        r.x == axis_dim_spec(aabb.half_extents.x as int, buffer_size as int, unit_size as int),
        r.y == axis_dim_spec(aabb.half_extents.y as int, buffer_size as int, unit_size as int),
        r.z == axis_dim_spec(aabb.half_extents.z as int, buffer_size as int, unit_size as int),
        r.x as int % 8 == 0,
        r.y as int % 8 == 0,
        r.z as int % 8 == 0,
{
    GridDim {
        x: axis_dim(aabb.half_extents.x, buffer_size, unit_size),
        y: axis_dim(aabb.half_extents.y, buffer_size, unit_size),
        z: axis_dim(aabb.half_extents.z, buffer_size, unit_size),
    }
}

/// A slot inside the shared atlas volume, as the external allocator
/// reported it: a voxel position and a size.
#[derive(Clone, Copy, PartialEq, Eq, Structural, Debug)]
pub struct SlotInfo {
    pub position: GridDim,
    pub size: GridDim,
}

/// The external allocator's answer to one slot request.
#[derive(Clone, Copy, PartialEq, Eq, Structural, Debug)]
pub enum SlotResponse {
    New(SlotInfo),
    Existing(SlotInfo),
    NoFit,
}

/// What the scheduler asks of the allocator for one object this tick.
#[derive(Clone, Copy, PartialEq, Eq, Structural, Debug)]
pub struct SlotPlan {
    /// The geometry identity to assert.
    pub key: SdfAtlasKey,
    /// Purge the key's previous slot first (skinned objects always do).
    pub purge_first: bool,
    /// The buffered bounds the field will cover.
    pub aabb: Aabb,
    /// The slot size to request, one boundary sample beyond the grid
    /// dimension per axis; absent for invisible objects, which request
    /// nothing.
    pub request_size: Option<GridDim>,
}

/// How one object's request ended.
#[derive(Clone, Copy, PartialEq, Eq, Structural, Debug)]
pub enum SlotOutcome {
    Queued,
    Unchanged,
    NoSpace,
}

/// One tracked object's state this tick, as plain values.
#[derive(Clone, Copy, PartialEq, Eq, Structural, Debug)]
pub struct ObjectState {
    pub entity: u64,
    pub visible: bool,
    pub skinned: bool,
    /// The mesh attached to the object, if any.
    pub primary_mesh: Option<AssetId>,
    /// The object's static bounds.
    pub static_aabb: Aabb,
    /// Bounds recomputed from the current pose; required for skinned
    /// visible objects.
    pub animated_aabb: Option<Aabb>,
}

/// The tick plan for one object, by the policy's steps: key derivation,
/// bounds selection, buffering, and grid sizing for visible objects.
pub open spec fn plan_object_spec(
    settings: SdfGlobalSettings,
    sdf: Sdf,
    obj: ObjectState,
) -> Option<SlotPlan> {
    match try_from_sdf_spec(sdf, obj.primary_mesh) {
        None => None,
        Some(key) => {
            let base = if obj.skinned && obj.visible {
                obj.animated_aabb->0
            } else {
                obj.static_aabb
            };
            let buffer = if sdf.options.buffer_size is Some {
                sdf.options.buffer_size->0
            } else {
                settings.buffer_size
            };
            let expanded = aabb_expand_spec(base, buffer as int);
            let unit = fx_div_spec(settings.unit_size as int, sdf.options.scale_multiplier as int);
            let request_size = if obj.visible {
                Some(
                    GridDim {
                        x: (axis_dim_spec(expanded.half_extents.x as int, 0, unit) + 1) as u32,
                        y: (axis_dim_spec(expanded.half_extents.y as int, 0, unit) + 1) as u32,
                        z: (axis_dim_spec(expanded.half_extents.z as int, 0, unit) + 1) as u32,
                    },
                )
            } else {
                None
            };
            Some(
                SlotPlan { key, purge_first: obj.skinned, aabb: expanded, request_size },
            )
        },
    }
}

/// Decide one object's actions for this tick. Returns `None` when no mesh
/// is resolvable, in which case the object is skipped entirely.
pub fn plan_object(settings: &SdfGlobalSettings, sdf: &Sdf, obj: &ObjectState) -> (r: Option<
    SlotPlan,
>)
    requires
        obj.skinned && obj.visible ==> obj.animated_aabb is Some && !(sdf.mode is Precomputed),
    ensures
        r == plan_object_spec(*settings, *sdf, *obj),
{
    let key = match SdfAtlasKey::try_from_sdf(sdf, obj.primary_mesh) {
        Some(k) => k,
        None => {
            return None;
        },
    };
    let base = if obj.skinned && obj.visible {
        match obj.animated_aabb {
            Some(ab) => ab,
            None => {
                proof {
                    assert(false);
                }
                obj.static_aabb
            },
        }
    } else {
        obj.static_aabb
    };
    let buffer = match sdf.options.buffer_size {
        Some(b) => b,
        None => settings.buffer_size,
    };
    let expanded = base.expand(buffer);
    let unit = fx_div(settings.unit_size, sdf.options.scale_multiplier);
    let request_size = if obj.visible {
        // The bounds already carry the margin: size from their span alone.
        let d = sdf_dim(&expanded, unit, 0);
        Some(GridDim { x: d.x + 1, y: d.y + 1, z: d.z + 1 })
    } else {
        None
    };
    Some(SlotPlan { key, purge_first: obj.skinned, aabb: expanded, request_size })
}

/// Scheduler state: the objects queued for recomputation this tick.
pub struct SdfAtlas {
    pub need_computing: Vec<(u64, SdfAtlasKey, Aabb)>,
}

/// At most one queued recomputation per object.
pub open spec fn atlas_wf(a: SdfAtlas) -> bool {
    forall|i: int, j: int|
        0 <= i < j < a.need_computing@.len() ==> (#[trigger] a.need_computing@[i]).0 != (
        #[trigger] a.need_computing@[j]).0
}

impl SdfAtlas {
    pub fn new() -> (r: SdfAtlas)
        ensures
            r.need_computing@ == Seq::<(u64, SdfAtlasKey, Aabb)>::empty(),
            atlas_wf(r),
    {
        SdfAtlas { need_computing: Vec::new() }
    }

    /// Start a tick: clear the work list. The caller must at the same time
    /// tell the external allocator to release every slot that is not
    /// re-asserted during the coming scan.
    pub fn begin_tick(&mut self)
        ensures
            final(self).need_computing@ == Seq::<(u64, SdfAtlasKey, Aabb)>::empty(),
            atlas_wf(*final(self)),
    {
        self.need_computing = Vec::new();
    }

    /// Whether an object is already queued this tick.
    pub fn contains_entity(&self, entity: u64) -> (r: bool)
        ensures
            r == exists|i: int|
                0 <= i < self.need_computing@.len() && self.need_computing@[i].0 == entity,
    {
        let mut i: usize = 0;
        while i < self.need_computing.len()
            invariant
                0 <= i <= self.need_computing@.len(),
                forall|j: int| 0 <= j < i ==> (#[trigger] self.need_computing@[j]).0 != entity,
            decreases self.need_computing@.len() - i,
        {
            if self.need_computing[i].0 == entity {
                return true;
            }
            i = i + 1;
        }
        false
    }

    /// Record the allocator's answer for one planned, visible object. A
    /// `New` slot queues the object for full recomputation and stores its
    /// resolved bounds on the object; an `Existing` slot leaves everything
    /// as it is; `NoFit` is reported as a recoverable outcome and changes
    /// nothing.
    pub fn record_response(
        &mut self,
        sdf: &mut Sdf,
        entity: u64,
        plan: &SlotPlan,
        response: SlotResponse,
    ) -> (outcome: SlotOutcome)
        requires
            atlas_wf(*old(self)),
            !exists|i: int|
                0 <= i < old(self).need_computing@.len() && old(self).need_computing@[i].0
                    == entity,
        ensures
            atlas_wf(*final(self)),
            match response {
                SlotResponse::New(_) => {
                    &&& outcome == SlotOutcome::Queued
                    &&& final(self).need_computing@ == old(self).need_computing@.push(
                        (entity, plan.key, plan.aabb),
                    )
                    &&& final(sdf).mode == old(sdf).mode
                    &&& final(sdf).options == old(sdf).options
                    &&& final(sdf).aabb == plan.aabb
                },
                SlotResponse::Existing(_) => {
                    &&& outcome == SlotOutcome::Unchanged
                    &&& final(self).need_computing@ == old(self).need_computing@
                    &&& *final(sdf) == *old(sdf)
                },
                SlotResponse::NoFit => {
                    &&& outcome == SlotOutcome::NoSpace
                    &&& final(self).need_computing@ == old(self).need_computing@
                    &&& *final(sdf) == *old(sdf)
                },
            },
    {
        match response {
            SlotResponse::New(_) => {
                self.need_computing.push((entity, plan.key, plan.aabb));
                sdf.aabb = plan.aabb;
                proof {
                    let s = self.need_computing@;
                    assert forall|i: int, j: int| 0 <= i < j < s.len() implies (
                    #[trigger] s[i]).0 != (#[trigger] s[j]).0 by {
                        if j == s.len() - 1 {
                            assert(s[i].0 != entity);
                        }
                    }
                }
                SlotOutcome::Queued
            },
            SlotResponse::Existing(_) => SlotOutcome::Unchanged,
            SlotResponse::NoFit => SlotOutcome::NoSpace,
        }
    }
}

/// The per-object dispatch header handed to the compute pass: where to
/// write in the atlas, the tile layout, the sampling transform and the
/// feature counts.
#[derive(Clone, Copy, PartialEq, Eq, Structural, Debug)]
pub struct SdfInstanceHeader {
    pub write_position: GridDim,
    pub block_dimensions: GridDim,
    pub block_count: u32,
    pub aabb_min: V3,
    pub scale: V3,
    pub vertex_count: u32,
    pub edge_count: u32,
    pub triangle_count: u32,
}

/// Build the dispatch header for one freshly allocated slot. The slot size
/// carries one boundary sample per axis beyond the grid dimension, so the
/// grid dimension is the size less one, and the tile counts divide it by
/// the work-group width.
pub fn build_instance_header(
    slot: &SlotInfo,
    aabb: &Aabb,
    vertex_count: u32,
    edge_count: u32,
    triangle_count: u32,
) -> (h: SdfInstanceHeader)
    requires
        slot.size.x >= 3,
        slot.size.y >= 3,
        slot.size.z >= 3,
        ((slot.size.x - 1) as int / 8) * ((slot.size.y - 1) as int / 8) * ((slot.size.z - 1) as int
            / 8) <= u32::MAX,
    ensures
        h.write_position == slot.position,
        h.block_dimensions.x as int == (slot.size.x - 1) as int / 8,
        h.block_dimensions.y as int == (slot.size.y - 1) as int / 8,
        h.block_dimensions.z as int == (slot.size.z - 1) as int / 8,
        h.block_count as int == (h.block_dimensions.x as int) * (h.block_dimensions.y as int) * (
        h.block_dimensions.z as int),
        h.aabb_min == aabb_min_spec(*aabb),
        h.scale.x == sat_i64(
            axis_spacing(
                fx_add_spec(aabb.half_extents.x as int, aabb.half_extents.x as int),
                (slot.size.x - 1) as int,
            ),
        ),
        h.scale.y == sat_i64(
            axis_spacing(
                fx_add_spec(aabb.half_extents.y as int, aabb.half_extents.y as int),
                (slot.size.y - 1) as int,
            ),
        ),
        h.scale.z == sat_i64(
            axis_spacing(
                fx_add_spec(aabb.half_extents.z as int, aabb.half_extents.z as int),
                (slot.size.z - 1) as int,
            ),
        ),
        h.vertex_count == vertex_count,
        h.edge_count == edge_count,
        h.triangle_count == triangle_count,
{
    let bd = GridDim {
        x: (slot.size.x - 1) / 8,
        y: (slot.size.y - 1) / 8,
        z: (slot.size.z - 1) / 8,
    };
    proof {
        assert((bd.x as int) * (bd.y as int) * (bd.z as int) <= u32::MAX);
    }
    let mn = aabb.min();
    let block_count = if bd.z == 0 || bd.y == 0 || bd.x == 0 {
        proof {
            assert((bd.x as int) * (bd.y as int) * (bd.z as int) == 0) by (nonlinear_arith)
                requires
                    bd.x as int == 0 || bd.y as int == 0 || bd.z as int == 0,
            ;
        }
        0
    } else {
        proof {
            assert((bd.x as int) * (bd.y as int) <= (bd.x as int) * (bd.y as int) * (
            bd.z as int)) by (nonlinear_arith)
                requires
                    0 <= bd.x as int,
                    0 <= bd.y as int,
                    1 <= bd.z as int,
            ;
        }
        (bd.x * bd.y) * bd.z
    };
    let sx = fx_add(aabb.half_extents.x, aabb.half_extents.x);
    let sy = fx_add(aabb.half_extents.y, aabb.half_extents.y);
    let sz = fx_add(aabb.half_extents.z, aabb.half_extents.z);
    SdfInstanceHeader {
        write_position: slot.position,
        block_dimensions: bd,
        block_count,
        aabb_min: mn,
        scale: V3 {
            x: fx_div(sx, ((slot.size.x - 2) as i64) * 65536),
            y: fx_div(sy, ((slot.size.y - 2) as i64) * 65536),
            z: fx_div(sz, ((slot.size.z - 2) as i64) * 65536),
        },
        vertex_count,
        edge_count,
        triangle_count,
    }
}

/// A fraction of the atlas page, as a fixed-point value in `[0, 1]`.
pub open spec fn atlas_fraction_spec(v: int, page: int) -> int {
    fx_div_spec(v * 65536, page * 65536)
}

/// The per-object shader header: world bounds and the slot's placement as
/// UV-normalized fractions of the atlas page.
#[derive(Clone, Copy, PartialEq, Eq, Structural, Debug)]
pub struct SdfShaderHeader {
    pub aabb_min: V3,
    pub aabb_size: V3,
    pub atlas_position: V3,
    pub atlas_size: V3,
}

fn atlas_fraction(v: u32, page: u32) -> (r: i64)
    ensures
        r == atlas_fraction_spec(v as int, page as int),
{
    fx_div((v as i64) * 65536, (page as i64) * 65536)
}

/// Build the shader-visible header for one resolved slot: the object's
/// world bounds and its region of the atlas page in normalized
/// coordinates. The one boundary sample is excluded from the region size.
pub fn build_shader_header(slot: &SlotInfo, page: GridDim, aabb: &Aabb) -> (h: SdfShaderHeader)
    requires
        slot.size.x >= 1,
        slot.size.y >= 1,
        slot.size.z >= 1,
    ensures
        h.aabb_min == aabb_min_spec(*aabb),
        h.aabb_size.x == sat_i64(
            fx_add_spec(aabb.half_extents.x as int, aabb.half_extents.x as int),
        ),
        h.aabb_size.y == sat_i64(
            fx_add_spec(aabb.half_extents.y as int, aabb.half_extents.y as int),
        ),
        h.aabb_size.z == sat_i64(
            fx_add_spec(aabb.half_extents.z as int, aabb.half_extents.z as int),
        ),
        h.atlas_position.x == atlas_fraction_spec(slot.position.x as int, page.x as int),
        h.atlas_position.y == atlas_fraction_spec(slot.position.y as int, page.y as int),
        h.atlas_position.z == atlas_fraction_spec(slot.position.z as int, page.z as int),
        h.atlas_size.x == atlas_fraction_spec((slot.size.x - 1) as int, page.x as int),
        h.atlas_size.y == atlas_fraction_spec((slot.size.y - 1) as int, page.y as int),
        h.atlas_size.z == atlas_fraction_spec((slot.size.z - 1) as int, page.z as int),
{
    SdfShaderHeader {
        aabb_min: aabb.min(),
        aabb_size: V3 {
            x: fx_add(aabb.half_extents.x, aabb.half_extents.x),
            y: fx_add(aabb.half_extents.y, aabb.half_extents.y),
            z: fx_add(aabb.half_extents.z, aabb.half_extents.z),
        },
        atlas_position: V3 {
            x: atlas_fraction(slot.position.x, page.x),
            y: atlas_fraction(slot.position.y, page.y),
            z: atlas_fraction(slot.position.z, page.z),
        },
        atlas_size: V3 {
            x: atlas_fraction(slot.size.x - 1, page.x),
            y: atlas_fraction(slot.size.y - 1, page.y),
            z: atlas_fraction(slot.size.z - 1, page.z),
        },
    }
}

} // verus!

use sdf_volume::aabb::{animated_aabb_for_mesh, Aabb};
use sdf_volume::grid::GridDim;
use sdf_volume::mesh::{JointIndices, Mat4, MeshTopology, RawMesh, V4};
use sdf_volume::schedule::{
    build_instance_header, build_shader_header, plan_object, sdf_dim, AssetId, ObjectState, Sdf,
    SdfAtlas, SdfAtlasKey, SdfGenMode, SdfGlobalSettings, SdfOptions, SlotInfo, SlotOutcome,
    SlotResponse,
};
use sdf_volume::vec3::V3;

fn fx(v: f64) -> i64 {
    (v * 65536.0).round() as i64
}

fn v(x: f64, y: f64, z: f64) -> V3 {
    V3 { x: fx(x), y: fx(y), z: fx(z) }
}

fn aabb(half: f64) -> Aabb {
    Aabb { center: v(0.0, 0.0, 0.0), half_extents: v(half, half, half) }
}

fn settings() -> SdfGlobalSettings {
    SdfGlobalSettings {
        atlas_page_size: GridDim { x: 200, y: 200, z: 200 },
        buffer_size: fx(1.0),
        unit_size: fx(1.0),
        ambient_distance: fx(1.0),
    }
}

fn mesh_id(n: u64) -> AssetId {
    AssetId { id: n, generation: 0 }
}

/// A minimal stand-in for the external atlas allocator: slots stacked
/// along x, first fit, with the sweep semantics the scheduler relies on.
struct ToyAtlas {
    page: GridDim,
    slots: Vec<(SdfAtlasKey, SlotInfo, bool)>,
}

impl ToyAtlas {
    fn new(page: GridDim) -> ToyAtlas {
        ToyAtlas { page, slots: Vec::new() }
    }

    fn remove_all(&mut self) {
        self.slots.retain(|s| s.2);
        for s in self.slots.iter_mut() {
            s.2 = false;
        }
    }

    fn purge(&mut self, key: &SdfAtlasKey) {
        self.slots.retain(|s| s.0 != *key);
    }

    fn place(&self, size: GridDim) -> Option<GridDim> {
        if size.y > self.page.y || size.z > self.page.z {
            return None;
        }
        let mut starts: Vec<u32> = vec![0];
        for s in &self.slots {
            starts.push(s.1.position.x + s.1.size.x);
        }
        starts.sort();
        for x in starts {
            let in_page = x + size.x <= self.page.x;
            let free = self
                .slots
                .iter()
                .all(|s| x >= s.1.position.x + s.1.size.x || s.1.position.x >= x + size.x);
            if in_page && free {
                return Some(GridDim { x, y: 0, z: 0 });
            }
        }
        None
    }

    fn insert(&mut self, key: SdfAtlasKey, size: GridDim) -> SlotResponse {
        if let Some(i) = self.slots.iter().position(|s| s.0 == key) {
            if self.slots[i].1.size == size {
                self.slots[i].2 = true;
                return SlotResponse::Existing(self.slots[i].1);
            }
            self.slots.remove(i);
        }
        match self.place(size) {
            Some(position) => {
                let info = SlotInfo { position, size };
                self.slots.push((key, info, true));
                SlotResponse::New(info)
            },
            None => SlotResponse::NoFit,
        }
    }
}

fn object(entity: u64, mesh: u64) -> ObjectState {
    ObjectState {
        entity,
        visible: true,
        skinned: false,
        primary_mesh: Some(mesh_id(mesh)),
        static_aabb: aabb(1.0),
        animated_aabb: None,
    }
}

#[test]
fn sdf_dim_exact_and_multiple_of_workgroup() {
    // Span (1 + 1) * 2 = 4 world units, one unit per voxel: half a
    // work-group tile, rounded up to one tile of 8 voxels.
    let d = sdf_dim(&aabb(1.0), fx(1.0), fx(1.0));
    assert_eq!((d.x, d.y, d.z), (8, 8, 8));
    // A larger box needs more tiles, still multiples of eight.
    let d2 = sdf_dim(&aabb(7.3), fx(1.0), fx(1.0));
    assert_eq!(d2.x % 8, 0);
    assert!(d2.x >= 16);
    // Finer voxels (smaller unit) increase the dimension.
    let d3 = sdf_dim(&aabb(1.0), fx(0.25), fx(1.0));
    assert_eq!((d3.x, d3.y, d3.z), (16, 16, 16));
    // A span one raw unit past a whole tile still rounds up to the next.
    let just_over = Aabb {
        center: v(0.0, 0.0, 0.0),
        half_extents: V3 { x: 262145, y: 262145, z: 262145 },
    };
    let d4 = sdf_dim(&just_over, fx(1.0), 0);
    assert_eq!((d4.x, d4.y, d4.z), (16, 16, 16));
    // A tiny positive span still needs one tile.
    let tiny = Aabb { center: v(0.0, 0.0, 0.0), half_extents: V3 { x: 1, y: 1, z: 1 } };
    let d5 = sdf_dim(&tiny, fx(1.0), 0);
    assert_eq!((d5.x, d5.y, d5.z), (8, 8, 8));
}

#[test]
fn key_derivation_follows_mode() {
    let mut sdf = Sdf::default();
    assert_eq!(
        SdfAtlasKey::try_from_sdf(&sdf, Some(mesh_id(7))),
        Some(SdfAtlasKey::Mesh(mesh_id(7)))
    );
    assert_eq!(SdfAtlasKey::try_from_sdf(&sdf, None), None);
    sdf.mode = SdfGenMode::Precomputed(mesh_id(9));
    assert_eq!(SdfAtlasKey::try_from_sdf(&sdf, None), Some(SdfAtlasKey::Image(mesh_id(9))));
    sdf.mode = SdfGenMode::FromCustomMesh(mesh_id(11));
    assert_eq!(
        SdfAtlasKey::try_from_sdf(&sdf, Some(mesh_id(7))),
        Some(SdfAtlasKey::Mesh(mesh_id(11)))
    );
}

#[test]
fn plan_respects_visibility_and_skinning() {
    let s = settings();
    let sdf = Sdf { aabb: aabb(1.0), ..Sdf::default() };
    // Visible static object: a request one sample beyond the dimension.
    let plan = plan_object(&s, &sdf, &object(1, 5)).unwrap();
    assert_eq!(plan.key, SdfAtlasKey::Mesh(mesh_id(5)));
    assert!(!plan.purge_first);
    assert_eq!(plan.request_size, Some(GridDim { x: 9, y: 9, z: 9 }));
    // The buffered bounds grew by the default margin.
    assert_eq!(plan.aabb.half_extents, v(2.0, 2.0, 2.0));

    // Invisible object: nothing requested.
    let mut hidden = object(2, 5);
    hidden.visible = false;
    let plan = plan_object(&s, &sdf, &hidden).unwrap();
    assert_eq!(plan.request_size, None);

    // Skinned object: purge first, bounds from the current pose.
    let mut skinned = object(3, 5);
    skinned.skinned = true;
    skinned.animated_aabb = Some(aabb(2.0));
    let plan = plan_object(&s, &sdf, &skinned).unwrap();
    assert!(plan.purge_first);
    assert_eq!(plan.aabb.half_extents, v(3.0, 3.0, 3.0));

    // No resolvable mesh: skipped entirely.
    let mut unkeyed = object(4, 5);
    unkeyed.primary_mesh = None;
    assert!(plan_object(&s, &sdf, &unkeyed).is_none());

    // A per-object buffer override takes precedence.
    let mut with_override = sdf;
    with_override.options = SdfOptions { scale_multiplier: fx(1.0), buffer_size: Some(fx(0.5)) };
    let plan = plan_object(&s, &with_override, &object(5, 5)).unwrap();
    assert_eq!(plan.aabb.half_extents, v(1.5, 1.5, 1.5));

    // The margin enters the size exactly once, through the expanded
    // bounds: half-extents 2.5 plus margin 1.0 span seven units, one
    // eight-voxel tile, requested as nine samples per axis.
    let mut medium = object(6, 5);
    medium.static_aabb = aabb(2.5);
    let plan = plan_object(&s, &sdf, &medium).unwrap();
    assert_eq!(plan.aabb.half_extents, v(3.5, 3.5, 3.5));
    assert_eq!(plan.request_size, Some(GridDim { x: 9, y: 9, z: 9 }));
}

#[test]
fn same_key_same_size_twice_yields_existing() {
    let s = settings();
    let mut atlas = SdfAtlas::new();
    let mut toy = ToyAtlas::new(s.atlas_page_size);
    let sdf0 = Sdf { aabb: aabb(1.0), ..Sdf::default() };

    // First tick: the shared key is new and queued once.
    let mut sdf_a = sdf0;
    let mut sdf_b = sdf0;
    atlas.begin_tick();
    toy.remove_all();
    let plan_a = plan_object(&s, &sdf_a, &object(1, 5)).unwrap();
    let resp = toy.insert(plan_a.key, plan_a.request_size.unwrap());
    assert!(matches!(resp, SlotResponse::New(_)));
    assert_eq!(atlas.record_response(&mut sdf_a, 1, &plan_a, resp), SlotOutcome::Queued);
    assert_eq!(atlas.need_computing.len(), 1);

    // Second tick: both objects re-assert the same key with unchanged
    // size; the allocator answers Existing both times and nothing is
    // queued.
    atlas.begin_tick();
    toy.remove_all();
    let plan_a = plan_object(&s, &sdf_a, &object(1, 5)).unwrap();
    let resp_a = toy.insert(plan_a.key, plan_a.request_size.unwrap());
    assert!(matches!(resp_a, SlotResponse::Existing(_)));
    assert_eq!(atlas.record_response(&mut sdf_a, 1, &plan_a, resp_a), SlotOutcome::Unchanged);
    let plan_b = plan_object(&s, &sdf_b, &object(2, 5)).unwrap();
    let resp_b = toy.insert(plan_b.key, plan_b.request_size.unwrap());
    assert!(matches!(resp_b, SlotResponse::Existing(_)));
    assert_eq!(atlas.record_response(&mut sdf_b, 2, &plan_b, resp_b), SlotOutcome::Unchanged);
    assert_eq!(atlas.need_computing.len(), 0);
    assert_eq!(toy.slots.len(), 1);
}

#[test]
fn size_change_resizes_or_rejects() {
    let s = settings();
    let mut atlas = SdfAtlas::new();
    let mut toy = ToyAtlas::new(s.atlas_page_size);
    let mut sdf = Sdf { aabb: aabb(1.0), ..Sdf::default() };

    atlas.begin_tick();
    toy.remove_all();
    let plan = plan_object(&s, &sdf, &object(1, 5)).unwrap();
    let resp = toy.insert(plan.key, plan.request_size.unwrap());
    assert_eq!(atlas.record_response(&mut sdf, 1, &plan, resp), SlotOutcome::Queued);

    // The object grows: the old slot is freed and a resized slot comes
    // back as New.
    atlas.begin_tick();
    toy.remove_all();
    let mut grown = object(1, 5);
    grown.static_aabb = aabb(5.0);
    let plan = plan_object(&s, &sdf, &grown).unwrap();
    assert_eq!(plan.request_size, Some(GridDim { x: 17, y: 17, z: 17 }));
    let resp = toy.insert(plan.key, plan.request_size.unwrap());
    assert!(matches!(resp, SlotResponse::New(_)));
    assert_eq!(atlas.record_response(&mut sdf, 1, &plan, resp), SlotOutcome::Queued);
    assert_eq!(toy.slots.len(), 1);

    // A request beyond the page reports NoFit; the outcome is recoverable
    // and nothing is queued.
    atlas.begin_tick();
    toy.remove_all();
    let mut huge = object(1, 5);
    huge.static_aabb = aabb(900.0);
    let plan = plan_object(&s, &sdf, &huge).unwrap();
    let resp = toy.insert(plan.key, plan.request_size.unwrap());
    assert!(matches!(resp, SlotResponse::NoFit));
    assert_eq!(atlas.record_response(&mut sdf, 1, &plan, resp), SlotOutcome::NoSpace);
    assert_eq!(atlas.need_computing.len(), 0);
}

#[test]
fn purge_insert_cycles_leak_no_slots() {
    let s = settings();
    let mut atlas = SdfAtlas::new();
    let mut toy = ToyAtlas::new(s.atlas_page_size);
    let mut sdf = Sdf { aabb: aabb(1.0), ..Sdf::default() };
    let mut skinned = object(1, 5);
    skinned.skinned = true;
    skinned.animated_aabb = Some(aabb(2.0));

    for _ in 0..50 {
        atlas.begin_tick();
        toy.remove_all();
        let plan = plan_object(&s, &sdf, &skinned).unwrap();
        assert!(plan.purge_first);
        toy.purge(&plan.key);
        let resp = toy.insert(plan.key, plan.request_size.unwrap());
        assert!(matches!(resp, SlotResponse::New(_)));
        assert_eq!(atlas.record_response(&mut sdf, 1, &plan, resp), SlotOutcome::Queued);
        assert_eq!(toy.slots.len(), 1);
        assert_eq!(atlas.need_computing.len(), 1);
        // The freed region is reused, not leaked.
        if let SlotResponse::New(info) = resp {
            assert_eq!(info.position.x, 0);
        }
    }
}

#[test]
fn new_slot_updates_resolved_bounds() {
    let s = settings();
    let mut atlas = SdfAtlas::new();
    let mut sdf = Sdf { aabb: aabb(1.0), ..Sdf::default() };
    atlas.begin_tick();
    let plan = plan_object(&s, &sdf, &object(1, 5)).unwrap();
    let info = SlotInfo { position: GridDim { x: 0, y: 0, z: 0 }, size: GridDim { x: 9, y: 9, z: 9 } };
    atlas.record_response(&mut sdf, 1, &plan, SlotResponse::New(info));
    assert_eq!(sdf.aabb, plan.aabb);
    assert!(atlas.contains_entity(1));
    assert!(!atlas.contains_entity(2));
}

#[test]
fn instance_header_layout() {
    let slot = SlotInfo {
        position: GridDim { x: 32, y: 0, z: 8 },
        size: GridDim { x: 9, y: 9, z: 9 },
    };
    let h = build_instance_header(&slot, &aabb(3.5), 10, 20, 30);
    assert_eq!(h.write_position, slot.position);
    assert_eq!((h.block_dimensions.x, h.block_dimensions.y, h.block_dimensions.z), (1, 1, 1));
    assert_eq!(h.block_count, 1);
    assert_eq!(h.aabb_min, v(-3.5, -3.5, -3.5));
    // Span 7 over 7 intervals: exactly one world unit per voxel.
    assert_eq!(h.scale, v(1.0, 1.0, 1.0));
    assert_eq!((h.vertex_count, h.edge_count, h.triangle_count), (10, 20, 30));
}

#[test]
fn shader_header_fractions() {
    let slot = SlotInfo {
        position: GridDim { x: 50, y: 0, z: 100 },
        size: GridDim { x: 9, y: 9, z: 9 },
    };
    let page = GridDim { x: 200, y: 200, z: 200 };
    let h = build_shader_header(&slot, page, &aabb(2.0));
    assert_eq!(h.aabb_min, v(-2.0, -2.0, -2.0));
    assert_eq!(h.aabb_size, v(4.0, 4.0, 4.0));
    assert_eq!(h.atlas_position, v(0.25, 0.0, 0.5));
    // 8 / 200 = 0.04, truncated in fixed point.
    assert_eq!(h.atlas_size.x, (0.04f64 * 65536.0) as i64);
}

#[test]
fn animated_bounds_with_identity_pose() {
    let identity = Mat4 {
        x_axis: V4 { x: fx(1.0), y: 0, z: 0, w: 0 },
        y_axis: V4 { x: 0, y: fx(1.0), z: 0, w: 0 },
        z_axis: V4 { x: 0, y: 0, z: fx(1.0), w: 0 },
        w_axis: V4 { x: 0, y: 0, z: 0, w: fx(1.0) },
    };
    let positions = vec![
        v(-0.5, -0.5, -0.5),
        v(0.5, 0.5, 0.5),
        v(0.5, -0.5, 0.0),
    ];
    let n = positions.len();
    let mesh = RawMesh {
        topology: MeshTopology::TriangleList,
        positions: Some(positions),
        indices: None,
        joint_weights: Some(vec![V4 { x: fx(1.0), y: 0, z: 0, w: 0 }; n]),
        joint_indices: Some(vec![JointIndices { j0: 0, j1: 0, j2: 0, j3: 0 }; n]),
    };
    let joints = vec![identity];
    let ab = animated_aabb_for_mesh(&mesh, &joints).unwrap();
    assert_eq!(ab.center, v(0.0, 0.0, 0.0));
    assert_eq!(ab.half_extents, v(0.5, 0.5, 0.5));

    // A translated pose moves the box with it.
    let mut translated = identity;
    translated.w_axis = V4 { x: fx(2.0), y: fx(0.0), z: fx(0.0), w: fx(1.0) };
    let moved = vec![translated];
    let ab2 = animated_aabb_for_mesh(&mesh, &moved).unwrap();
    assert_eq!(ab2.center, v(2.0, 0.0, 0.0));
    assert_eq!(ab2.half_extents, v(0.5, 0.5, 0.5));

    // Missing skin attributes yield no bounds.
    let mut missing = RawMesh {
        topology: MeshTopology::TriangleList,
        positions: Some(vec![v(0.0, 0.0, 0.0)]),
        indices: None,
        joint_weights: None,
        joint_indices: None,
    };
    assert!(animated_aabb_for_mesh(&missing, &joints).is_none());
    missing.positions = None;
    assert!(animated_aabb_for_mesh(&missing, &joints).is_none());
}

use sdf_volume::aabb::Aabb;
use sdf_volume::fx::fx_add;
use sdf_volume::grid::{create_sdf_from_mesh_cpu, GridDim, SdfField};
use sdf_volume::mesh::{MeshTopology, RawMesh};
use sdf_volume::vec3::V3;

fn fx(v: f64) -> i64 {
    (v * 65536.0).round() as i64
}

fn v(x: f64, y: f64, z: f64) -> V3 {
    V3 { x: fx(x), y: fx(y), z: fx(z) }
}

fn quad(out: &mut Vec<V3>, a: V3, b: V3, c: V3, d: V3) {
    out.push(a);
    out.push(b);
    out.push(c);
    out.push(a);
    out.push(c);
    out.push(d);
}

fn cube_positions(h: f64) -> Vec<V3> {
    let mut p = Vec::new();
    quad(&mut p, v(h, -h, -h), v(h, h, -h), v(h, h, h), v(h, -h, h));
    quad(&mut p, v(-h, -h, -h), v(-h, -h, h), v(-h, h, h), v(-h, h, -h));
    quad(&mut p, v(-h, h, -h), v(-h, h, h), v(h, h, h), v(h, h, -h));
    quad(&mut p, v(-h, -h, -h), v(h, -h, -h), v(h, -h, h), v(-h, -h, h));
    quad(&mut p, v(-h, -h, h), v(h, -h, h), v(h, h, h), v(-h, h, h));
    quad(&mut p, v(-h, -h, -h), v(-h, h, -h), v(h, h, -h), v(h, -h, -h));
    p
}

fn cube_mesh(h: f64) -> RawMesh {
    RawMesh {
        topology: MeshTopology::TriangleList,
        positions: Some(cube_positions(h)),
        indices: None,
        joint_weights: None,
        joint_indices: None,
    }
}

/// Rebuild a lattice point exactly as the rasterizer does: the offset of
/// index `i` is `span * i / (n - 1)`, truncated once.
fn lattice(aabb: &Aabb, dim: &GridDim, ix: u32, iy: u32, iz: u32) -> V3 {
    let mn = aabb.min();
    let off = |h: i64, i: u32, n: u32| {
        let span = fx_add(h, h);
        ((span as i128 * i as i128) / ((n - 1) as i128)) as i64
    };
    V3 {
        x: fx_add(mn.x, off(aabb.half_extents.x, ix, dim.x)),
        y: fx_add(mn.y, off(aabb.half_extents.y, iy, dim.y)),
        z: fx_add(mn.z, off(aabb.half_extents.z, iz, dim.z)),
    }
}

#[test]
fn cube_grid_signs() {
    // Unit cube (corners at +-0.5), 24^3 lattice over a slightly larger
    // box: interior samples negative, exterior samples positive, with the
    // sign transition confined to one voxel around each face.
    let mesh = cube_mesh(0.5);
    let aabb = Aabb { center: v(0.0, 0.0, 0.0), half_extents: v(0.6, 0.6, 0.6) };
    let dim = GridDim { x: 24, y: 24, z: 24 };
    assert_eq!(aabb.max(), v(0.6, 0.6, 0.6));
    // Lattice corners land exactly on the box corners.
    assert_eq!(lattice(&aabb, &dim, 0, 0, 0), aabb.min());
    assert_eq!(lattice(&aabb, &dim, 23, 23, 23), aabb.max());
    let field = create_sdf_from_mesh_cpu(&mesh, &aabb, dim).unwrap();
    assert_eq!(field.data.len(), 24 * 24 * 24);
    let voxel = 1.2 / 23.0;
    let mut interior = 0u32;
    let mut exterior = 0u32;
    for iz in 0..24u32 {
        for iy in 0..24u32 {
            for ix in 0..24u32 {
                let p = lattice(&aabb, &dim, ix, iy, iz);
                let px = p.x as f64 / 65536.0;
                let py = p.y as f64 / 65536.0;
                let pz = p.z as f64 / 65536.0;
                let m = px.abs().max(py.abs()).max(pz.abs());
                let lin = (iz * 24 * 24 + iy * 24 + ix) as usize;
                let d = field.data[lin];
                if m < 0.5 - voxel {
                    assert!(d < 0, "interior sample ({px},{py},{pz}) got {d}");
                    interior += 1;
                } else if m > 0.5 + voxel {
                    assert!(d > 0, "exterior sample ({px},{py},{pz}) got {d}");
                    exterior += 1;
                }
            }
        }
    }
    assert!(interior > 1000);
    assert!(exterior > 1000);
}

#[test]
fn rejects_non_triangle_topology() {
    let mut mesh = cube_mesh(0.5);
    mesh.topology = MeshTopology::TriangleStrip;
    let aabb = Aabb { center: v(0.0, 0.0, 0.0), half_extents: v(1.0, 1.0, 1.0) };
    let dim = GridDim { x: 2, y: 2, z: 2 };
    assert!(create_sdf_from_mesh_cpu(&mesh, &aabb, dim).is_err());
}

#[test]
fn le_byte_serialization() {
    let field = SdfField { dim: GridDim { x: 2, y: 1, z: 1 }, data: vec![1, -2] };
    let bytes = field.to_le_bytes();
    assert_eq!(bytes.len(), 16);
    assert_eq!(&bytes[0..8], &[1, 0, 0, 0, 0, 0, 0, 0]);
    assert_eq!(&bytes[8..16], &[0xfe, 0xff, 0xff, 0xff, 0xff, 0xff, 0xff, 0xff]);
}

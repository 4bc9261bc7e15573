use sdf_volume::aabb::Aabb;
use sdf_volume::fx::fx_add;
use sdf_volume::grid::{create_sdf_from_mesh_cpu, GridDim};
use sdf_volume::mesh::{MeshTopology, RawMesh};
use sdf_volume::vec3::V3;

fn fx(v: f64) -> i64 {
    (v * 65536.0).round() as i64
}

fn v(x: f64, y: f64, z: f64) -> V3 {
    V3 { x: fx(x), y: fx(y), z: fx(z) }
}

/// Latitude-longitude sphere soup with outward windings. Quads touching a
/// pole degenerate into one real triangle and one zero-area triangle; the
/// preprocessor is documented to drop the latter.
fn sphere_positions(radius: f64, stacks: u32, slices: u32) -> Vec<V3> {
    let pi = std::f64::consts::PI;
    let point = |i: u32, j: u32| -> V3 {
        let theta = pi * (i as f64) / (stacks as f64);
        let phi = 2.0 * pi * (j as f64) / (slices as f64);
        v(
            radius * theta.sin() * phi.cos(),
            radius * theta.sin() * phi.sin(),
            radius * theta.cos(),
        )
    };
    let mut out = Vec::new();
    for i in 0..stacks {
        for j in 0..slices {
            let a = point(i, j);
            let b = point(i + 1, j);
            let c = point(i + 1, j + 1);
            let d = point(i, j + 1);
            out.push(a);
            out.push(b);
            out.push(c);
            out.push(a);
            out.push(c);
            out.push(d);
        }
    }
    out
}

#[test]
fn sphere_grid_matches_analytic_distance() {
    // Sphere of radius 6.5, 25^3 lattice over a box of half-extent 10:
    // every sample within one voxel diagonal of the analytic distance.
    let radius = 6.5;
    let mesh = RawMesh {
        topology: MeshTopology::TriangleList,
        positions: Some(sphere_positions(radius, 6, 8)),
        indices: None,
        joint_weights: None,
        joint_indices: None,
    };
    let aabb = Aabb { center: v(0.0, 0.0, 0.0), half_extents: v(10.0, 10.0, 10.0) };
    let dim = GridDim { x: 25, y: 25, z: 25 };
    let field = create_sdf_from_mesh_cpu(&mesh, &aabb, dim).unwrap();
    assert_eq!(field.data.len(), 25 * 25 * 25);

    let span_fx = fx_add(fx(10.0), fx(10.0));
    let off = |i: u32| ((span_fx as i128 * i as i128) / 24) as i64;
    let min_fx = fx(-10.0);
    let voxel = 20.0 / 24.0;
    let tolerance = voxel * 3.0f64.sqrt();
    let mut worst = 0.0f64;
    for iz in 0..25u32 {
        for iy in 0..25u32 {
            for ix in 0..25u32 {
                let px = fx_add(min_fx, off(ix)) as f64 / 65536.0;
                let py = fx_add(min_fx, off(iy)) as f64 / 65536.0;
                let pz = fx_add(min_fx, off(iz)) as f64 / 65536.0;
                let analytic = (px * px + py * py + pz * pz).sqrt() - radius;
                let lin = (iz * 25 * 25 + iy * 25 + ix) as usize;
                let got = field.data[lin] as f64 / 65536.0;
                let err = (got - analytic).abs();
                if err > worst {
                    worst = err;
                }
                assert!(
                    err < tolerance,
                    "sample ({px},{py},{pz}): got {got}, analytic {analytic}"
                );
            }
        }
    }
    // The polyhedral approximation plus fixed-point rounding stays well
    // inside the voxel-diagonal budget.
    assert!(worst < tolerance);
}

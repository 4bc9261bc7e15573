use sdf_volume::mesh::{MeshError, MeshTopology, RawMesh, V4};
use sdf_volume::preprocess::{preprocess_mesh_for_sdf, preprocess_positions};
use sdf_volume::sample::compute_distance;
use sdf_volume::vec3::V3;

fn fx(v: f64) -> i64 {
    (v * 65536.0).round() as i64
}

fn v(x: f64, y: f64, z: f64) -> V3 {
    V3 { x: fx(x), y: fx(y), z: fx(z) }
}

fn quad(out: &mut Vec<V3>, a: V3, b: V3, c: V3, d: V3) {
    out.push(a);
    out.push(b);
    out.push(c);
    out.push(a);
    out.push(c);
    out.push(d);
}

/// Unit-cube triangle soup with outward-facing windings, corners at `±h`.
fn cube_positions(h: f64) -> Vec<V3> {
    let mut p = Vec::new();
    quad(&mut p, v(h, -h, -h), v(h, h, -h), v(h, h, h), v(h, -h, h));
    quad(&mut p, v(-h, -h, -h), v(-h, -h, h), v(-h, h, h), v(-h, h, -h));
    quad(&mut p, v(-h, h, -h), v(-h, h, h), v(h, h, h), v(h, h, -h));
    quad(&mut p, v(-h, -h, -h), v(h, -h, -h), v(h, -h, h), v(-h, -h, h));
    quad(&mut p, v(-h, -h, h), v(h, -h, h), v(h, h, h), v(-h, h, h));
    quad(&mut p, v(-h, -h, -h), v(-h, h, -h), v(h, h, -h), v(h, -h, -h));
    p
}

fn cube_mesh(h: f64) -> RawMesh {
    RawMesh {
        topology: MeshTopology::TriangleList,
        positions: Some(cube_positions(h)),
        indices: None,
        joint_weights: None,
        joint_indices: None,
    }
}

#[test]
fn far_outside_point_positive_distance() {
    let geom = preprocess_positions(&cube_positions(0.5));
    let d = compute_distance(&geom, v(10.0, 0.0, 0.0));
    assert!(d > 0);
    assert!((d - fx(9.5)).abs() < fx(0.05), "distance {} not near 9.5", d);
}

#[test]
fn centroid_of_cube_negative_distance() {
    let geom = preprocess_positions(&cube_positions(0.5));
    let d = compute_distance(&geom, v(0.0, 0.0, 0.0));
    assert!(d < 0);
    assert!((d + fx(0.5)).abs() < fx(0.05), "distance {} not near -0.5", d);
}

#[test]
fn pseudonormals_independent_of_traversal_and_corner_order() {
    let soup = cube_positions(0.5);
    // Reverse the triangle traversal order and rotate each triangle's
    // starting corner; orientation (winding direction) is preserved.
    let mut shuffled: Vec<V3> = Vec::new();
    let tri_count = soup.len() / 3;
    for t in (0..tri_count).rev() {
        shuffled.push(soup[3 * t + 1]);
        shuffled.push(soup[3 * t + 2]);
        shuffled.push(soup[3 * t]);
    }
    let g1 = preprocess_positions(&soup);
    let g2 = preprocess_positions(&shuffled);
    assert_eq!(g1.vertices, g2.vertices);
    assert_eq!(g1.edges, g2.edges);
    assert_eq!(g1.vertices.len(), 8);
    // 12 cube edges plus 6 face diagonals.
    assert_eq!(g1.edges.len(), 18);
    assert_eq!(g1.triangles.len(), 12);
}

#[test]
fn degenerate_triangle_contributes_nothing() {
    // One zero-area triangle (three collinear corners), spliced into the
    // middle of the soup rather than appended.
    let clean = cube_positions(0.5);
    let mut soup: Vec<V3> = clean[..18].to_vec();
    soup.push(v(3.0, 3.0, 3.0));
    soup.push(v(4.0, 4.0, 4.0));
    soup.push(v(5.0, 5.0, 5.0));
    soup.extend_from_slice(&clean[18..]);
    let with_degenerate = preprocess_positions(&soup);
    let without = preprocess_positions(&cube_positions(0.5));
    assert_eq!(with_degenerate.vertices, without.vertices);
    assert_eq!(with_degenerate.edges, without.edges);
    assert_eq!(with_degenerate.triangles, without.triangles);
    // The field itself is untouched by the degenerate triangle.
    let d1 = compute_distance(&with_degenerate, v(0.2, 0.1, -0.3));
    let d2 = compute_distance(&without, v(0.2, 0.1, -0.3));
    assert_eq!(d1, d2);
}

#[test]
fn single_triangle_exact_distances() {
    // A right triangle in the z = 0 plane with unit legs; its face normal
    // is exactly +z in fixed point.
    let soup = vec![v(0.0, 0.0, 0.0), v(1.0, 0.0, 0.0), v(0.0, 1.0, 0.0)];
    let geom = preprocess_positions(&soup);
    assert_eq!(geom.triangles.len(), 1);
    assert_eq!(geom.triangles[0].plane_normal, v(0.0, 0.0, 1.0));
    // Above the interior: plane distance, exactly.
    assert_eq!(compute_distance(&geom, v(0.25, 0.25, 2.0)), fx(2.0));
    // Below the interior: same magnitude, negative side.
    assert_eq!(compute_distance(&geom, v(0.25, 0.25, -2.0)), fx(-2.0));
    // In the plane but outside the triangle: the nearest corner decides,
    // at an exact 3-4-5 distance.
    assert_eq!(compute_distance(&geom, v(-3.0, -4.0, 0.0)), fx(5.0));
}

#[test]
fn equilateral_corner_angles_are_equal() {
    // An equilateral triangle spreads its angle weight evenly: all three
    // accumulated vertex pseudonormals are identical.
    let soup = vec![v(0.0, 0.0, 0.0), v(1.0, 0.0, 0.0), v(0.5, 0.75f64.sqrt(), 0.0)];
    let geom = preprocess_positions(&soup);
    assert_eq!(geom.vertices.len(), 3);
    let n0 = geom.vertices[0].1;
    // The three weights come from the same law-of-cosines formula on
    // nearly equal side lengths; allow one raw unit of rounding per
    // component.
    for (_, n) in &geom.vertices {
        assert!((n.x - n0.x).abs() <= 2 && (n.y - n0.y).abs() <= 2 && (n.z - n0.z).abs() <= 2);
        // Each weight is about pi/3 of a unit normal.
        assert!((n.z as f64 / 65536.0 - std::f64::consts::PI / 3.0).abs() < 0.01);
    }
}

#[test]
fn empty_geometry_is_total() {
    // No features at all: the query is still defined. The best squared
    // distance stays at its saturated initial value, the zero pseudonormal
    // counts as outside, and the result is the (huge) positive root.
    let geom = preprocess_positions(&Vec::new());
    assert!(geom.vertices.is_empty() && geom.edges.is_empty() && geom.triangles.is_empty());
    let d = compute_distance(&geom, v(1.0, 2.0, 3.0));
    assert!(d > 0);
}

#[test]
fn mesh_error_not_triangle_list() {
    let mut mesh = cube_mesh(0.5);
    mesh.topology = MeshTopology::LineList;
    assert_eq!(preprocess_mesh_for_sdf(&mesh, None).unwrap_err(), MeshError::NotTriangleList);
}

#[test]
fn mesh_error_missing_positions() {
    let mut mesh = cube_mesh(0.5);
    mesh.positions = None;
    assert_eq!(preprocess_mesh_for_sdf(&mesh, None).unwrap_err(), MeshError::MissingPositions);
}

#[test]
fn mesh_error_missing_joint_attributes() {
    let joints = Vec::new();
    let mesh = cube_mesh(0.5);
    assert_eq!(
        preprocess_mesh_for_sdf(&mesh, Some(&joints)).unwrap_err(),
        MeshError::MissingJointWeights
    );
    let mut with_weights = cube_mesh(0.5);
    let n = with_weights.positions.as_ref().unwrap().len();
    with_weights.joint_weights = Some(vec![V4 { x: 65536, y: 0, z: 0, w: 0 }; n]);
    assert_eq!(
        preprocess_mesh_for_sdf(&with_weights, Some(&joints)).unwrap_err(),
        MeshError::MissingJointIndices
    );
}

#[test]
fn indexed_mesh_matches_flat_mesh() {
    // The same cube described with an index buffer.
    let flat = cube_positions(0.5);
    let mut uniq: Vec<V3> = Vec::new();
    let mut indices: Vec<u32> = Vec::new();
    for p in &flat {
        match uniq.iter().position(|q| q == p) {
            Some(i) => indices.push(i as u32),
            None => {
                indices.push(uniq.len() as u32);
                uniq.push(*p);
            },
        }
    }
    assert_eq!(uniq.len(), 8);
    let mesh = RawMesh {
        topology: MeshTopology::TriangleList,
        positions: Some(uniq),
        indices: Some(indices),
        joint_weights: None,
        joint_indices: None,
    };
    let g1 = preprocess_mesh_for_sdf(&mesh, None).unwrap();
    let g2 = preprocess_positions(&flat);
    assert_eq!(g1.vertices, g2.vertices);
    assert_eq!(g1.edges, g2.edges);
    assert_eq!(g1.triangles, g2.triangles);
}

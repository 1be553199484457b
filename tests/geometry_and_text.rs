use sphere_vectors::geometry::{clamp_coord, face_normal, triangle_mesh, Coords, Point, COORD_SCALE};
use sphere_vectors::text::{identifier, untitled};

#[test]
fn normal_is_cross_product_of_edges() {
    let n = face_normal(Coords { x: 2, y: 3, z: 5 });
    assert_eq!(n, Point { x: 15, y: 10, z: 6 });
    let n = face_normal(Coords { x: -10000, y: 10000, z: -10000 });
    assert_eq!(n, Point { x: -100000000, y: 100000000, z: -100000000 });
}

#[test]
fn normal_vanishes_on_degenerate_triangles() {
    assert_eq!(face_normal(Coords { x: 0, y: 0, z: 7 }), Point { x: 0, y: 0, z: 0 });
    assert_eq!(face_normal(Coords { x: 0, y: 4, z: 0 }), Point { x: 0, y: 0, z: 0 });
    assert_eq!(face_normal(Coords { x: 0, y: 0, z: 0 }), Point { x: 0, y: 0, z: 0 });
}

#[test]
fn normal_is_nonzero_with_one_zero_intercept() {
    assert_eq!(face_normal(Coords { x: 0, y: 4, z: 3 }), Point { x: 12, y: 0, z: 0 });
}

#[test]
fn triangle_corners_are_axis_intercepts() {
    let m = triangle_mesh(Coords { x: 1, y: -2, z: 3 });
    assert_eq!(m.a, Point { x: 1, y: 0, z: 0 });
    assert_eq!(m.b, Point { x: 0, y: -2, z: 0 });
    assert_eq!(m.c, Point { x: 0, y: 0, z: 3 });
    assert_eq!(m.normal, Point { x: -6, y: 3, z: -2 });
}

#[test]
fn coordinates_clamp_to_unit_range() {
    assert_eq!(clamp_coord(COORD_SCALE + 1), COORD_SCALE);
    assert_eq!(clamp_coord(i32::MIN), -COORD_SCALE);
    assert_eq!(clamp_coord(-5), -5);
}

#[test]
fn identifiers_and_default_names() {
    assert_eq!(identifier(1), "T1");
    assert_eq!(identifier(10), "T10");
    assert_eq!(identifier(907), "T907");
    assert_eq!(identifier(u64::MAX), format!("T{}", u64::MAX));
    assert_eq!(untitled(3), "Untitled(3)");
    assert_eq!(untitled(0), "Untitled(0)");
}

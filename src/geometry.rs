//! Axis-intercept triangles in fixed-point coordinates.
//!
//! A coordinate is an integer count of `1 / COORD_SCALE` units, so the
//! interval [-1, 1] is [-COORD_SCALE, COORD_SCALE].
use vstd::prelude::*;

verus! {

/// Number of coordinate units in one scene unit.
pub const COORD_SCALE: i32 = 10000;

/// The three axis intercepts of a vector, each in [-COORD_SCALE, COORD_SCALE].
#[derive(Clone, Copy, Debug, PartialEq, Eq, Structural)]
pub struct Coords {
    pub x: i32,
    pub y: i32,
    pub z: i32,
}

/// A point or direction in space, in coordinate units (or their products).
#[derive(Clone, Copy, Debug, PartialEq, Eq, Structural)]
pub struct Point {
    pub x: i64,
    pub y: i64,
    pub z: i64,
}

/// Geometry of a flat-shaded triangle: its three corners and the direction
/// of its face normal. The renderer scales the normal to unit length (a zero
/// direction stays zero) and draws the corners as the single fan 0, 1, 2.
#[derive(Clone, Copy, Debug, PartialEq, Eq, Structural)]
pub struct TriangleMesh {
    pub a: Point,
    pub b: Point,
    pub c: Point,
    pub normal: Point,
}

pub open spec fn in_unit_range(v: int) -> bool {
    -COORD_SCALE <= v <= COORD_SCALE
}

/// Whether every intercept of `c` lies in [-1, 1].
pub open spec fn coords_valid(c: Coords) -> bool {
    in_unit_range(c.x as int) && in_unit_range(c.y as int) && in_unit_range(c.z as int)
}

/// `v` brought into [-COORD_SCALE, COORD_SCALE].
pub open spec fn clamped(v: int) -> int {
    if v < -COORD_SCALE {
        -COORD_SCALE as int
    } else if v > COORD_SCALE {
        COORD_SCALE as int
    } else {
        v
    }
}

pub open spec fn point(x: int, y: int, z: int) -> Point {
    Point { x: x as i64, y: y as i64, z: z as i64 }
}

pub open spec fn minus(p: Point, q: Point) -> Point {
    point(p.x - q.x, p.y - q.y, p.z - q.z)
}

pub open spec fn cross(p: Point, q: Point) -> Point {
    point(p.y * q.z - p.z * q.y, p.z * q.x - p.x * q.z, p.x * q.y - p.y * q.x)
}

pub open spec fn origin() -> Point {
    point(0, 0, 0)
}

/// The corners of the triangle: (x,0,0), (0,y,0), (0,0,z).
pub open spec fn corner_x(c: Coords) -> Point {
    point(c.x as int, 0, 0)
}

pub open spec fn corner_y(c: Coords) -> Point {
    point(0, c.y as int, 0)
}

pub open spec fn corner_z(c: Coords) -> Point {
    point(0, 0, c.z as int)
}

/// Direction of the face normal: cross(b - a, c - a).
pub open spec fn normal_direction(c: Coords) -> Point {
    cross(minus(corner_y(c), corner_x(c)), minus(corner_z(c), corner_x(c)))
}

/// A triangle is degenerate when its corners are collinear, which for axis
/// intercepts means that two of them sit at the origin.
pub open spec fn degenerate(c: Coords) -> bool {
    (c.x == 0 && c.y == 0) || (c.x == 0 && c.z == 0) || (c.y == 0 && c.z == 0)
}

pub open spec fn spec_triangle_mesh(c: Coords) -> TriangleMesh {
    TriangleMesh { a: corner_x(c), b: corner_y(c), c: corner_z(c), normal: normal_direction(c) }
}

/// Where a vector's label marker goes, scaled by three: the sum of the
/// triangle's corners, so the marker stands at (x/3, y/3, z/3).
pub open spec fn label_anchor(c: Coords) -> Point {
    point(c.x as int, c.y as int, c.z as int)
}

/// Brings `v` into [-COORD_SCALE, COORD_SCALE].
pub fn clamp_coord(v: i32) -> (r: i32)
    ensures
        r as int == clamped(v as int),
{
    if v < -COORD_SCALE {
        -COORD_SCALE
    } else if v > COORD_SCALE {
        COORD_SCALE
    } else {
        v
    }
}

/// The face normal's direction, before scaling to unit length.
pub fn face_normal(c: Coords) -> (r: Point)
    requires
        coords_valid(c),
    ensures
        r == normal_direction(c),
{
    let x = c.x as i64;
    let y = c.y as i64;
    let z = c.z as i64;
    proof {
        lemma_normal_direction(c);
    }
    Point { x: y * z, y: x * z, z: x * y }
}

/// The triangle whose corners are the axis intercepts of `c`.
pub fn triangle_mesh(c: Coords) -> (r: TriangleMesh)
    requires
        coords_valid(c),
    ensures
        r == spec_triangle_mesh(c),
{
    TriangleMesh {
        a: Point { x: c.x as i64, y: 0, z: 0 },
        b: Point { x: 0, y: c.y as i64, z: 0 },
        c: Point { x: 0, y: 0, z: c.z as i64 },
        normal: face_normal(c),
    }
}

/// The face normal's direction vanishes exactly on degenerate triangles.
/// Scaled to unit length by the renderer, it is therefore a unit vector on
/// every other triangle and the zero vector on degenerate ones.
pub proof fn lemma_normal_zero_iff_degenerate(c: Coords)
    requires
        coords_valid(c),
    ensures
        (normal_direction(c) == origin()) <==> degenerate(c),
{
    let x = c.x as int;
    let y = c.y as int;
    let z = c.z as int;
    lemma_normal_direction(c);
    assert((y * z == 0 && x * z == 0 && x * y == 0) <==> ((x == 0 && y == 0) || (x == 0 && z
        == 0) || (y == 0 && z == 0))) by (nonlinear_arith);
}

/// The normal direction in closed form: (y*z, x*z, x*y).
proof fn lemma_normal_direction(c: Coords)
    requires
        coords_valid(c),
    ensures
        normal_direction(c) == point(
            c.y as int * c.z as int,
            c.x as int * c.z as int,
            c.x as int * c.y as int,
        ),
        -100000000 <= c.y as int * c.z as int <= 100000000,
        -100000000 <= c.x as int * c.z as int <= 100000000,
        -100000000 <= c.x as int * c.y as int <= 100000000,
{
    let x = c.x as int;
    let y = c.y as int;
    let z = c.z as int;
    assert(-100000000 <= y * z <= 100000000) by (nonlinear_arith)
        requires -10000 <= y <= 10000, -10000 <= z <= 10000;
    assert(-100000000 <= x * z <= 100000000) by (nonlinear_arith)
        requires -10000 <= x <= 10000, -10000 <= z <= 10000;
    assert(-100000000 <= x * y <= 100000000) by (nonlinear_arith)
        requires -10000 <= x <= 10000, -10000 <= y <= 10000;
    let p = minus(corner_y(c), corner_x(c));
    let q = minus(corner_z(c), corner_x(c));
    assert(p == point(-x, y, 0));
    assert(q == point(-x, 0, z));
    assert(p.y * q.z - p.z * q.y == y * z) by (nonlinear_arith)
        requires p.y == y, q.z == z, p.z == 0;
    assert(p.z * q.x - p.x * q.z == x * z) by (nonlinear_arith)
        requires p.z == 0, p.x == -x, q.z == z;
    assert(p.x * q.y - p.y * q.x == x * y) by (nonlinear_arith)
        requires q.y == 0, p.y == y, q.x == -x;
}

} // verus!

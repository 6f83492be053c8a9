//! Fixed-point geometry: every length is an integer count of hundredths of a
//! world unit, so a coin of radius 0.5 has radius 50.
use vstd::prelude::*;

verus! {

/// A point or displacement in world space, in hundredths of a world unit.
#[derive(Clone, Copy, Debug, PartialEq, Eq, Structural)]
pub struct Vec3i {
    pub x: i64,
    pub y: i64,
    pub z: i64,
}

impl Vec3i {
    pub fn new(x: i64, y: i64, z: i64) -> (r: Vec3i)
        ensures
            r == (Vec3i { x, y, z }),
    {
        Vec3i { x, y, z }
    }
}

/// The collision shape of a body, given by its half extents.
#[derive(Clone, Copy, Debug, PartialEq, Eq, Structural)]
pub enum Shape {
    /// A box with the given half extents along x, y and z.
    Cuboid { hx: i64, hy: i64, hz: i64 },
    /// An upright cylinder (axis along y).
    Cylinder { half_height: i64, radius: i64 },
}

/// How the physics step treats a body.
#[derive(Clone, Copy, Debug, PartialEq, Eq, Structural)]
pub enum BodyKind {
    /// Never moves.
    Fixed,
    /// Moved only by an external command; pushes dynamic bodies.
    KinematicPositionBased,
    /// Moved by the physics step.
    Dynamic,
}

/// Whether two upright cylinders centred at `a` and `b` interpenetrate:
/// their axes are closer than the sum of the radii and their vertical
/// extents overlap.
pub open spec fn cylinders_overlap_spec(
    a: Vec3i,
    ra: int,
    ha: int,
    b: Vec3i,
    rb: int,
    hb: int,
) -> bool {
    let dx = a.x - b.x;
    let dz = a.z - b.z;
    let dy = a.y - b.y;
    &&& dx * dx + dz * dz < (ra + rb) * (ra + rb)
    &&& -(ha + hb) < dy < ha + hb
}

/// Largest coordinate magnitude for which the overlap test cannot overflow.
pub const COORD_LIMIT: i64 = 1_000_000_000;

/// Largest radius or half height for which the overlap test cannot overflow.
pub const SIZE_LIMIT: i64 = 1_000_000_000;

pub open spec fn coord_in_range(v: Vec3i) -> bool {
    &&& -COORD_LIMIT <= v.x <= COORD_LIMIT
    &&& -COORD_LIMIT <= v.y <= COORD_LIMIT
    &&& -COORD_LIMIT <= v.z <= COORD_LIMIT
}

/// Decides `cylinders_overlap_spec`: a positive answer is a contact of
/// negative depth between the two cylinders.
pub fn cylinders_overlap(a: Vec3i, ra: i64, ha: i64, b: Vec3i, rb: i64, hb: i64) -> (r: bool)
    requires
        coord_in_range(a),
        coord_in_range(b),
        0 <= ra <= SIZE_LIMIT,
        0 <= ha <= SIZE_LIMIT,
        0 <= rb <= SIZE_LIMIT,
        0 <= hb <= SIZE_LIMIT,
    ensures
        r == cylinders_overlap_spec(a, ra as int, ha as int, b, rb as int, hb as int),
{
    let dx: i128 = a.x as i128 - b.x as i128;
    let dz: i128 = a.z as i128 - b.z as i128;
    let dy: i128 = a.y as i128 - b.y as i128;
    let rs: i128 = ra as i128 + rb as i128;
    let hs: i128 = ha as i128 + hb as i128;
    assert(0 <= dx * dx <= 4_000_000_000_000_000_000) by (nonlinear_arith)
        requires
            -2_000_000_000 <= dx <= 2_000_000_000,
    ;
    assert(0 <= dz * dz <= 4_000_000_000_000_000_000) by (nonlinear_arith)
        requires
            -2_000_000_000 <= dz <= 2_000_000_000,
    ;
    assert(0 <= rs * rs <= 4_000_000_000_000_000_000) by (nonlinear_arith)
        requires
            0 <= rs <= 2_000_000_000,
    ;
    dx * dx + dz * dz < rs * rs && -hs < dy && dy < hs
}

} // verus!

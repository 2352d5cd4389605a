//! Points and vectors of the world, in thousandths of a unit.
use vstd::prelude::*;
use crate::fixed::{isqrt_wide, sqrt_floor};

verus! {

/// Largest coordinate magnitude of a point in the world: squared distances
/// between such points fit in 128 bits.
pub const WORLD_LIMIT: i64 = 0x4000_0000_0000_0000;

/// A point or vector of the world, `y` pointing up.
#[derive(Clone, Copy, Debug, PartialEq, Eq, Structural)]
pub struct Point3 {
    pub x: i64,
    pub y: i64,
    pub z: i64,
}

/// `v` clamped to the range of `i64`.
pub open spec fn clamp_i64(v: int) -> i64 {
    if v < i64::MIN {
        i64::MIN
    } else if v > i64::MAX {
        i64::MAX
    } else {
        v as i64
    }
}

/// `v` clamped to the range of `i64`.
pub fn clamp_wide(v: i128) -> (r: i64)
    ensures
        r == clamp_i64(v as int),
{
    if v < i64::MIN as i128 {
        i64::MIN
    } else if v > i64::MAX as i128 {
        i64::MAX
    } else {
        v as i64
    }
}

/// Squared Euclidean distance between two points.
pub open spec fn dist_sq3(a: Point3, b: Point3) -> int {
    (a.x - b.x) * (a.x - b.x) + (a.y - b.y) * (a.y - b.y) + (a.z - b.z) * (a.z - b.z)
}

/// Squared distance between two points seen from above (`x` and `z` only).
pub open spec fn dist_sq_xz(a: Point3, b: Point3) -> int {
    (a.x - b.x) * (a.x - b.x) + (a.z - b.z) * (a.z - b.z)
}

impl Point3 {
    /// Every coordinate within `WORLD_LIMIT`.
    pub open spec fn in_world(&self) -> bool {
        -WORLD_LIMIT <= self.x <= WORLD_LIMIT && -WORLD_LIMIT <= self.y <= WORLD_LIMIT && -WORLD_LIMIT
            <= self.z <= WORLD_LIMIT
    }

    pub fn new(x: i64, y: i64, z: i64) -> (p: Point3)
        ensures
            p == (Point3 { x, y, z }),
    {
        Point3 { x, y, z }
    }

    /// The zero vector.
    pub fn zero() -> (p: Point3)
        ensures
            p == (Point3 { x: 0, y: 0, z: 0 }),
    {
        Point3 { x: 0, y: 0, z: 0 }
    }
}

proof fn lemma_square_bound(d: int)
    requires
        -2 * WORLD_LIMIT <= d <= 2 * WORLD_LIMIT,
    ensures
        0 <= d * d <= 4 * WORLD_LIMIT * WORLD_LIMIT,
{
    assert(0 <= d * d <= 4 * WORLD_LIMIT * WORLD_LIMIT) by (nonlinear_arith)
        requires
            -2 * WORLD_LIMIT <= d <= 2 * WORLD_LIMIT,
    ;
}

/// Squared distance between two points of the world.
pub fn dist_sq(a: Point3, b: Point3) -> (r: u128)
    requires
        a.in_world(),
        b.in_world(),
    ensures
        r == dist_sq3(a, b),
{
    let dx: i128 = a.x as i128 - b.x as i128;
    let dy: i128 = a.y as i128 - b.y as i128;
    let dz: i128 = a.z as i128 - b.z as i128;
    proof {
        lemma_square_bound(dx as int);
        lemma_square_bound(dy as int);
        lemma_square_bound(dz as int);
    }
    let sx: u128 = (dx * dx) as u128;
    let sy: u128 = (dy * dy) as u128;
    let sz: u128 = (dz * dz) as u128;
    sx + sy + sz
}

/// Squared distance between two points of the world seen from above.
pub fn dist_sq_flat(a: Point3, b: Point3) -> (r: u128)
    requires
        a.in_world(),
        b.in_world(),
    ensures
        r == dist_sq_xz(a, b),
{
    let dx: i128 = a.x as i128 - b.x as i128;
    let dz: i128 = a.z as i128 - b.z as i128;
    proof {
        lemma_square_bound(dx as int);
        lemma_square_bound(dz as int);
    }
    (dx * dx) as u128 + (dz * dz) as u128
}

/// Euclidean distance between two points of the world, rounded down.
pub fn distance(a: Point3, b: Point3) -> (r: u64)
    requires
        a.in_world(),
        b.in_world(),
    ensures
        r == sqrt_floor(dist_sq3(a, b) as nat),
{
    isqrt_wide(dist_sq(a, b))
}

} // verus!

//! Fixed-point 3D geometry: points in milli-units, an exact integer square
//! root, Euclidean distance, and linear interpolation along a segment.
//!
//! Coordinates are bounded by `COORD_LIMIT`, which keeps every squared
//! distance inside `u64` and every scaled product inside the machine range.

use vstd::prelude::*;
use vstd::arithmetic::mul::{lemma_mul_inequality, lemma_mul_nonnegative, lemma_mul_upper_bound};
use vstd::arithmetic::div_mod::{lemma_div_by_multiple, lemma_div_is_ordered, lemma_div_pos_is_pos};

verus! {

/// Largest coordinate magnitude a world point may have, in milli-units
/// (one thousand world units in either direction).
pub const COORD_LIMIT: i64 = 1_000_000;

/// Upper bound on the squared distance of two in-bounds points:
/// `3 * (2 * COORD_LIMIT)^2`.
pub const DIST_SQ_LIMIT: u64 = 12_000_000_000_000;

/// Upper bound on the distance of two in-bounds points (a little above the
/// square root of `DIST_SQ_LIMIT`).
pub const DIST_LIMIT: u64 = 3_500_000;

/// A point or offset in 3D space, in milli-units.
#[derive(Clone, Copy, Debug, PartialEq, Eq, Structural)]
pub struct Vec3Milli {
    pub x: i64,
    pub y: i64,
    pub z: i64,
}

impl Vec3Milli {
    /// The point lies inside the world volume.
    pub open spec fn in_bounds(self) -> bool {
        &&& -COORD_LIMIT <= self.x <= COORD_LIMIT
        &&& -COORD_LIMIT <= self.y <= COORD_LIMIT
        &&& -COORD_LIMIT <= self.z <= COORD_LIMIT
    }

    /// The offset's components stay within twice the coordinate limit, as a
    /// difference of two in-bounds points always does.
    pub open spec fn offset_bounded(self) -> bool {
        &&& -2 * COORD_LIMIT <= self.x <= 2 * COORD_LIMIT
        &&& -2 * COORD_LIMIT <= self.y <= 2 * COORD_LIMIT
        &&& -2 * COORD_LIMIT <= self.z <= 2 * COORD_LIMIT
    }

    pub fn new(x: i64, y: i64, z: i64) -> (v: Vec3Milli)
        ensures
            v == (Vec3Milli { x, y, z }),
    {
        Vec3Milli { x, y, z }
    }

    pub open spec fn spec_zero() -> Vec3Milli {
        Vec3Milli { x: 0, y: 0, z: 0 }
    }

    pub fn zero() -> (v: Vec3Milli)
        ensures
            v == Vec3Milli::spec_zero(),
            v.in_bounds(),
    {
        Vec3Milli { x: 0, y: 0, z: 0 }
    }

    /// The componentwise offset leading from `self` to `to`.
    pub open spec fn spec_offset_to(self, to: Vec3Milli) -> Vec3Milli {
        Vec3Milli { x: (to.x - self.x) as i64, y: (to.y - self.y) as i64, z: (to.z - self.z) as i64 }
    }

    pub fn offset_to(&self, to: &Vec3Milli) -> (r: Vec3Milli)
        requires
            self.in_bounds(),
            to.in_bounds(),
        ensures
            r == self.spec_offset_to(*to),
            r.offset_bounded(),
    {
        Vec3Milli { x: to.x - self.x, y: to.y - self.y, z: to.z - self.z }
    }
}

/// `r` is the floor of the square root of `n`.
pub open spec fn is_sqrt_floor(n: int, r: int) -> bool {
    0 <= r && r * r <= n && n < (r + 1) * (r + 1)
}

/// The floor of the square root of `n`.
pub open spec fn sqrt_floor(n: nat) -> nat
    decreases n,
{
    if n == 0 {
        0
    } else {
        let p = sqrt_floor((n - 1) as nat);
        if (p + 1) * (p + 1) <= n {
            p + 1
        } else {
            p
        }
    }
}

pub proof fn lemma_sqrt_floor_is_sqrt(n: nat)
    ensures
        is_sqrt_floor(n as int, sqrt_floor(n) as int),
    decreases n,
{
    if n == 0 {
    } else {
        let m = (n - 1) as nat;
        lemma_sqrt_floor_is_sqrt(m);
        let p = sqrt_floor(m) as int;
        if (p + 1) * (p + 1) <= n {
            assert((p + 1) * (p + 1) < (p + 2) * (p + 2)) by (nonlinear_arith)
                requires
                    p >= 0,
            ;
        }
    }
}

/// Two floors of the same square root are equal.
pub proof fn lemma_sqrt_floor_unique(n: int, r: int)
    requires
        n >= 0,
        is_sqrt_floor(n, r),
    ensures
        r == sqrt_floor(n as nat) as int,
{
    lemma_sqrt_floor_is_sqrt(n as nat);
    let s = sqrt_floor(n as nat) as int;
    assert(r == s) by (nonlinear_arith)
        requires
            0 <= r,
            r * r <= n,
            n < (r + 1) * (r + 1),
            0 <= s,
            s * s <= n,
            n < (s + 1) * (s + 1),
    ;
}

/// Exact integer square root (rounded down), by binary search.
pub fn isqrt(n: u64) -> (r: u64)
    ensures
        r == sqrt_floor(n as nat),
        is_sqrt_floor(n as int, r as int),
{
    let mut lo: u64 = 0;
    let mut hi: u64 = 4_294_967_295;
    assert((n as int) < (hi as int + 1) * (hi as int + 1));
    while lo < hi
        invariant
            lo <= hi <= 4_294_967_295,
            (lo as int) * (lo as int) <= n as int,
            (n as int) < (hi as int + 1) * (hi as int + 1),
        decreases hi - lo,
    {
        let mid = lo + (hi - lo + 1) / 2;
        proof {
            lemma_mul_upper_bound(mid as int, 4_294_967_295, mid as int, 4_294_967_295);
        }
        let sq: u128 = (mid as u128) * (mid as u128);
        if sq <= n as u128 {
            lo = mid;
        } else {
            hi = mid - 1;
        }
    }
    proof {
        lemma_sqrt_floor_unique(n as int, lo as int);
    }
    lo
}

/// Squared Euclidean distance between two points.
pub open spec fn dist_sq(a: Vec3Milli, b: Vec3Milli) -> int {
    (a.x - b.x) * (a.x - b.x) + (a.y - b.y) * (a.y - b.y) + (a.z - b.z) * (a.z - b.z)
}

/// Euclidean distance between two points, rounded down to whole milli-units.
pub open spec fn dist(a: Vec3Milli, b: Vec3Milli) -> int {
    sqrt_floor(dist_sq(a, b) as nat) as int
}

/// A square of a value with magnitude at most `b` lies in `[0, b*b]`.
proof fn lemma_square_bounds(v: int, b: int)
    requires
        -b <= v <= b,
        0 <= b,
    ensures
        0 <= v * v <= b * b,
{
    assert(0 <= v * v <= b * b) by (nonlinear_arith)
        requires
            -b <= v <= b,
            0 <= b,
    ;
}

pub fn distance_sq(a: &Vec3Milli, b: &Vec3Milli) -> (r: u64)
    requires
        a.in_bounds(),
        b.in_bounds(),
    ensures
        r == dist_sq(*a, *b),
        r <= DIST_SQ_LIMIT,
{
    let dx = a.x - b.x;
    let dy = a.y - b.y;
    let dz = a.z - b.z;
    proof {
        lemma_square_bounds(dx as int, 2 * COORD_LIMIT as int);
        lemma_square_bounds(dy as int, 2 * COORD_LIMIT as int);
        lemma_square_bounds(dz as int, 2 * COORD_LIMIT as int);
    }
    (dx * dx) as u64 + (dy * dy) as u64 + (dz * dz) as u64
}

pub fn distance(a: &Vec3Milli, b: &Vec3Milli) -> (r: u64)
    requires
        a.in_bounds(),
        b.in_bounds(),
    ensures
        r == dist(*a, *b),
        r <= DIST_LIMIT,
{
    let sq = distance_sq(a, b);
    let r = isqrt(sq);
    proof {
        assert(r <= DIST_LIMIT) by (nonlinear_arith)
            requires
                0 <= r,
                (r as int) * (r as int) <= sq as int,
                sq <= DIST_SQ_LIMIT,
        ;
    }
    r
}

/// One coordinate of the interpolation at fraction `p / d` between `a`
/// and `b`, rounded toward `a`.
pub open spec fn lerp_coord(a: int, b: int, p: int, d: int) -> int {
    if b >= a {
        a + (b - a) * p / d
    } else {
        a - (a - b) * p / d
    }
}

/// The point at fraction `p / d` along the segment from `a` to `b`.
pub open spec fn lerp(a: Vec3Milli, b: Vec3Milli, p: int, d: int) -> Vec3Milli {
    Vec3Milli {
        x: lerp_coord(a.x as int, b.x as int, p, d) as i64,
        y: lerp_coord(a.y as int, b.y as int, p, d) as i64,
        z: lerp_coord(a.z as int, b.z as int, p, d) as i64,
    }
}

/// The scaled offset `delta * p / d` never leaves `[0, delta]` while
/// `p < d`, so an interpolated coordinate stays between its endpoints.
pub proof fn lemma_scaled_offset_bounds(delta: int, p: int, d: int)
    requires
        0 <= delta,
        0 <= p < d,
    ensures
        0 <= delta * p / d <= delta,
{
    lemma_mul_nonnegative(delta, p);
    lemma_div_pos_is_pos(delta * p, d);
    lemma_mul_inequality(p, d, delta);
    assert(delta * p == p * delta) by (nonlinear_arith);
    assert(delta * d == d * delta) by (nonlinear_arith);
    lemma_div_is_ordered(delta * p, delta * d, d);
    lemma_div_by_multiple(delta, d);
}

/// One more milli-unit of progress moves the scaled offset by at most the
/// slope `delta / d` plus one rounding step, and never backward.
proof fn lemma_scaled_offset_step(delta: int, p: int, d: int)
    requires
        0 <= delta,
        0 <= p,
        p + 1 < d,
    ensures
        delta * p / d <= delta * (p + 1) / d <= delta * p / d + delta / d + 1,
{
    lemma_mul_inequality(p, p + 1, delta);
    assert(delta * p == p * delta) by (nonlinear_arith);
    assert(delta * (p + 1) == (p + 1) * delta) by (nonlinear_arith);
    lemma_div_is_ordered(delta * p, delta * (p + 1), d);
    assert(delta * (p + 1) == delta * p + delta) by (nonlinear_arith);
    vstd::arithmetic::div_mod::lemma_fundamental_div_mod(delta, d);
    vstd::arithmetic::div_mod::lemma_remainder_upper(delta, d);
    lemma_div_pos_is_pos(delta, d);
    assert((delta / d + 1) * d == (delta / d) * d + d) by (nonlinear_arith);
    assert(delta <= (delta / d + 1) * d) by {
        assert(d * (delta / d) == (delta / d) * d) by (nonlinear_arith);
    }
    lemma_div_is_ordered(delta * p + delta, delta * p + (delta / d + 1) * d, d);
    vstd::arithmetic::div_mod::lemma_hoist_over_denominator(delta * p, delta / d + 1, d as nat);
}

/// An interpolated coordinate is continuous in the discrete sense: one more
/// milli-unit of progress moves it toward the far endpoint by at most the
/// segment's slope plus one rounding step, and never backward. Together
/// with the agreement at segment boundaries this renders the continuity of
/// the path position.
pub proof fn lemma_lerp_coord_continuous(a: int, b: int, p: int, d: int)
    requires
        0 <= p,
        p + 1 < d,
    ensures
        b >= a ==> lerp_coord(a, b, p, d) <= lerp_coord(a, b, p + 1, d) <= lerp_coord(a, b, p, d)
            + (b - a) / d + 1,
        b < a ==> lerp_coord(a, b, p, d) - ((a - b) / d + 1) <= lerp_coord(a, b, p + 1, d)
            <= lerp_coord(a, b, p, d),
{
    if b >= a {
        lemma_scaled_offset_step(b - a, p, d);
    } else {
        lemma_scaled_offset_step(a - b, p, d);
    }
}

fn lerp_coord_exec(a: i64, b: i64, p: u64, d: u64) -> (r: i64)
    requires
        -COORD_LIMIT <= a <= COORD_LIMIT,
        -COORD_LIMIT <= b <= COORD_LIMIT,
        0 < d <= DIST_LIMIT,
        p < d,
    ensures
        r == lerp_coord(a as int, b as int, p as int, d as int),
        a <= b ==> a <= r <= b,
        b <= a ==> b <= r <= a,
{
    if b >= a {
        let delta = (b - a) as u64;
        proof {
            lemma_mul_upper_bound(delta as int, 2 * COORD_LIMIT as int, p as int, DIST_LIMIT as int);
            lemma_scaled_offset_bounds(delta as int, p as int, d as int);
        }
        let off = (delta * p) / d;
        a + off as i64
    } else {
        let delta = (a - b) as u64;
        proof {
            lemma_mul_upper_bound(delta as int, 2 * COORD_LIMIT as int, p as int, DIST_LIMIT as int);
            lemma_scaled_offset_bounds(delta as int, p as int, d as int);
        }
        let off = (delta * p) / d;
        a - off as i64
    }
}

/// Largest distance a moving entity may cover in one tick, in milli-units.
pub const STEP_LIMIT: u64 = 10_000_000_000;

/// A coordinate clamped into the world volume.
pub open spec fn clamp_coord(v: int) -> int {
    if v < -COORD_LIMIT {
        -COORD_LIMIT as int
    } else if v > COORD_LIMIT {
        COORD_LIMIT as int
    } else {
        v
    }
}

fn clamp_coord_exec(v: i64) -> (r: i64)
    ensures
        r == clamp_coord(v as int),
{
    if v < -COORD_LIMIT {
        -COORD_LIMIT
    } else if v > COORD_LIMIT {
        COORD_LIMIT
    } else {
        v
    }
}

/// The point moved by the offset and clamped into the world volume.
pub open spec fn translate_clamped(pos: Vec3Milli, off: Vec3Milli) -> Vec3Milli {
    Vec3Milli {
        x: clamp_coord(pos.x + off.x) as i64,
        y: clamp_coord(pos.y + off.y) as i64,
        z: clamp_coord(pos.z + off.z) as i64,
    }
}

/// Move a point by an offset, clamped into the world volume.
pub fn translate_clamped_exec(pos: &Vec3Milli, off: &Vec3Milli) -> (r: Vec3Milli)
    requires
        pos.in_bounds(),
        off.offset_bounded(),
    ensures
        r == translate_clamped(*pos, *off),
        r.in_bounds(),
{
    Vec3Milli {
        x: clamp_coord_exec(pos.x + off.x),
        y: clamp_coord_exec(pos.y + off.y),
        z: clamp_coord_exec(pos.z + off.z),
    }
}

/// One coordinate of a movement of `step` milli-units along the direction
/// whose length is `len`: the coordinate's share of the step, rounded
/// toward zero.
pub open spec fn scaled_step(c: int, step: int, len: int) -> int {
    if c >= 0 {
        c * step / len
    } else {
        -((-c) * step / len)
    }
}

/// The squared length of an offset vector.
pub open spec fn norm_sq(v: Vec3Milli) -> int {
    v.x * v.x + v.y * v.y + v.z * v.z
}

/// The point reached by travelling `step` milli-units from `pos` along the
/// direction `dir`, clamped into the world volume; a zero direction moves
/// nothing.
pub open spec fn advance_spec(pos: Vec3Milli, dir: Vec3Milli, step: int) -> Vec3Milli {
    let len = sqrt_floor(norm_sq(dir) as nat) as int;
    if len == 0 {
        pos
    } else {
        Vec3Milli {
            x: clamp_coord(pos.x + scaled_step(dir.x as int, step, len)) as i64,
            y: clamp_coord(pos.y + scaled_step(dir.y as int, step, len)) as i64,
            z: clamp_coord(pos.z + scaled_step(dir.z as int, step, len)) as i64,
        }
    }
}

fn advance_coord(pos_c: i64, dir_c: i64, step: u64, len: u64) -> (r: i64)
    requires
        -COORD_LIMIT <= pos_c <= COORD_LIMIT,
        -2 * COORD_LIMIT <= dir_c <= 2 * COORD_LIMIT,
        step <= STEP_LIMIT,
        0 < len,
    ensures
        r == clamp_coord(pos_c + scaled_step(dir_c as int, step as int, len as int)),
{
    if dir_c >= 0 {
        let mag = dir_c as u64;
        proof {
            lemma_mul_upper_bound(mag as int, 2 * COORD_LIMIT as int, step as int, STEP_LIMIT as int);
            lemma_mul_nonnegative(mag as int, step as int);
            lemma_div_pos_is_pos(mag as int * step as int, len as int);
            vstd::arithmetic::div_mod::lemma_div_nonincreasing(mag as int * step as int, len as int);
        }
        let off = (mag * step) / len;
        clamp_coord_exec(pos_c + off as i64)
    } else {
        let mag = (-dir_c) as u64;
        proof {
            lemma_mul_upper_bound(mag as int, 2 * COORD_LIMIT as int, step as int, STEP_LIMIT as int);
            lemma_mul_nonnegative(mag as int, step as int);
            lemma_div_pos_is_pos(mag as int * step as int, len as int);
            vstd::arithmetic::div_mod::lemma_div_nonincreasing(mag as int * step as int, len as int);
        }
        let off = (mag * step) / len;
        clamp_coord_exec(pos_c - off as i64)
    }
}

/// Travel `step` milli-units from `pos` along `dir` (the world volume
/// clamps the result); a zero direction stays put.
pub fn advance_toward(pos: &Vec3Milli, dir: &Vec3Milli, step: u64) -> (r: Vec3Milli)
    requires
        pos.in_bounds(),
        dir.offset_bounded(),
        step <= STEP_LIMIT,
    ensures
        r == advance_spec(*pos, *dir, step as int),
        r.in_bounds(),
{
    let dx = dir.x;
    let dy = dir.y;
    let dz = dir.z;
    proof {
        lemma_square_bounds(dx as int, 2_000_000);
        lemma_square_bounds(dy as int, 2_000_000);
        lemma_square_bounds(dz as int, 2_000_000);
    }
    let len_sq = (dx * dx) as u64 + (dy * dy) as u64 + (dz * dz) as u64;
    let len = isqrt(len_sq);
    if len == 0 {
        *pos
    } else {
        Vec3Milli {
            x: advance_coord(pos.x, dir.x, step, len),
            y: advance_coord(pos.y, dir.y, step, len),
            z: advance_coord(pos.z, dir.z, step, len),
        }
    }
}

/// The point at fraction `p / d` along the segment from `a` to `b`; each
/// coordinate stays between the endpoints, so the result is in bounds.
pub fn lerp_toward(a: &Vec3Milli, b: &Vec3Milli, p: u64, d: u64) -> (r: Vec3Milli)
    requires
        a.in_bounds(),
        b.in_bounds(),
        0 < d <= DIST_LIMIT,
        p < d,
    ensures
        r == lerp(*a, *b, p as int, d as int),
        r.in_bounds(),
{
    Vec3Milli {
        x: lerp_coord_exec(a.x, b.x, p, d),
        y: lerp_coord_exec(a.y, b.y, p, d),
        z: lerp_coord_exec(a.z, b.z, p, d),
    }
}

} // verus!

//! Fixed-point plane geometry: points, distances, integer square root.
//!
//! Coordinates are i64 milli-units (one world unit is 1000). All reasoning
//! is over exact integers, so contracts can pin results down completely.

use vstd::prelude::*;

verus! {

use vstd::arithmetic::mul::{
    lemma_mul_cancels_negatives,
    lemma_mul_inequality,
    lemma_mul_is_commutative,
    lemma_mul_left_inequality,
    lemma_mul_nonnegative,
    lemma_mul_nonzero,
    lemma_mul_upper_bound,
};
use vstd::arithmetic::div_mod::{
    lemma_basic_div,
    lemma_div_by_self,
    lemma_div_is_ordered,
    lemma_div_multiples_vanish,
    lemma_div_pos_is_pos,
};

/// A 2D point or displacement in fixed-point world coordinates.
#[derive(Clone, Copy, PartialEq, Eq, Structural, Debug)]
pub struct Vec2I {
    pub x: i64,
    pub y: i64,
}

/// Coordinates of game entities stay within this bound; it leaves ample
/// headroom in i64 for squared distances of any two in-bounds points.
pub const POS_LIMIT: i64 = 1_000_000_000;

/// Per-tick movement steps stay within this bound.
pub const SPEED_LIMIT: i64 = 1_000_000;

/// Absolute value of a mathematical integer.
pub open spec fn abs_i(x: int) -> int {
    if x >= 0 {
        x
    } else {
        -x
    }
}

/// Sign of a mathematical integer: -1, 0 or 1.
pub open spec fn sgn(x: int) -> int {
    if x > 0 {
        1int
    } else if x < 0 {
        -1int
    } else {
        0int
    }
}

/// Squared Euclidean distance between two points.
pub open spec fn dist_sq(a: Vec2I, b: Vec2I) -> int {
    (b.x - a.x) * (b.x - a.x) + (b.y - a.y) * (b.y - a.y)
}

/// `r` is the floor of the (real) square root of `n`.
pub open spec fn is_floor_sqrt(n: int, r: int) -> bool {
    0 <= r && r * r <= n && n < (r + 1) * (r + 1)
}

/// Integer division rounded toward zero, for a positive divisor: the
/// fixed-point rendering of multiplying by `1/d`.
pub open spec fn div_toward_zero(x: int, d: int) -> int {
    if x >= 0 {
        x / d
    } else {
        -((-x) / d)
    }
}

/// `p` lies in the axis-aligned window of the given half-extents centered
/// on `center` (bounds inclusive).
pub open spec fn in_window(center: Vec2I, p: Vec2I, half_w: int, half_h: int) -> bool {
    abs_i(p.x - center.x) <= half_w && abs_i(p.y - center.y) <= half_h
}

impl Vec2I {
    pub fn new(x: i64, y: i64) -> (v: Vec2I)
        ensures
            v.x == x,
            v.y == y,
    {
        Vec2I { x, y }
    }

    /// Both coordinates lie within `limit` in absolute value.
    pub open spec fn bounded(self, limit: int) -> bool {
        abs_i(self.x as int) <= limit && abs_i(self.y as int) <= limit
    }
}

/// Whether both coordinates lie within `limit` in absolute value.
pub fn in_bounds(v: &Vec2I, limit: i64) -> (r: bool)
    requires
        0 <= limit,
    ensures
        r == v.bounded(limit as int),
{
    -limit <= v.x && v.x <= limit && -limit <= v.y && v.y <= limit
}

/// Absolute value of an i64, as a u64.
pub fn abs_i64(x: i64) -> (r: u64)
    requires
        x != i64::MIN,
    ensures
        r as int == abs_i(x as int),
{
    if x >= 0 {
        x as u64
    } else {
        (-x) as u64
    }
}

/// Floor of the square root, by binary search on the whole u64 range.
pub fn isqrt(n: u64) -> (r: u64)
    ensures
        is_floor_sqrt(n as int, r as int),
{
    let mut lo: u64 = 0;
    let mut hi: u64 = 4_294_967_296;
    assert((4_294_967_296int) * (4_294_967_296int) > u64::MAX as int);
    while lo + 1 < hi
        invariant
            lo < hi,
            hi <= 4_294_967_296,
            (lo as int) * (lo as int) <= n as int,
            (n as int) < (hi as int) * (hi as int),
        decreases hi - lo,
    {
        let mid: u64 = lo + (hi - lo) / 2;
        proof {
            assert((mid as int) * (mid as int) <= 4_294_967_296int * 4_294_967_296int)
                by (nonlinear_arith)
                requires 0 <= mid as int <= 4_294_967_296int;
        }
        let sq: u128 = (mid as u128) * (mid as u128);
        if sq <= n as u128 {
            lo = mid;
        } else {
            hi = mid;
        }
    }
    lo
}

/// Where one seek step along one axis lands: the coordinate moves toward
/// `to` by `floor(|to - from| * speed / d)`, `d` being the floor square
/// root of the squared distance between the two points.
pub open spec fn seek_axis(from: int, to: int, speed: int, d: int) -> int {
    if d <= 0 {
        from
    } else {
        from + sgn(to - from) * ((abs_i(to - from) * speed) / d)
    }
}

/// `v` lies on the segment from `from` toward `to`, allowing overshoot
/// past `to` by at most `step`.
pub open spec fn within_overshoot(from: int, to: int, v: int, step: int) -> bool {
    if from <= to {
        from <= v <= to + step
    } else {
        to - step <= v <= from
    }
}

/// Squaring ignores sign.
pub proof fn lemma_abs_sq(x: int)
    ensures
        abs_i(x) * abs_i(x) == x * x,
{
    if x < 0 {
        lemma_mul_cancels_negatives(x, x);
    }
}

/// Squaring is monotone on nonnegative integers, in both directions.
pub proof fn lemma_sq_order(a: int, b: int)
    by (nonlinear_arith)
    requires
        0 <= a,
        0 <= b,
    ensures
        a <= b ==> a * a <= b * b,
        a < b ==> a * a < b * b,
        a * a <= b * b ==> a <= b,
{
}

/// A number has exactly one floor square root.
pub proof fn lemma_floor_sqrt_unique(n: int, r: int, s: int)
    requires
        is_floor_sqrt(n, r),
        is_floor_sqrt(n, s),
    ensures
        r == s,
{
    if r < s {
        lemma_sq_order(r + 1, s);
        assert(false);
    }
    if s < r {
        lemma_sq_order(s + 1, r);
        assert(false);
    }
}

/// Each leg of a right triangle is at most the floor square root of the
/// squared hypotenuse.
pub proof fn lemma_component_le_sqrt(ax: int, ay: int, d: int)
    requires
        0 <= ax,
        0 <= ay,
        is_floor_sqrt(ax * ax + ay * ay, d),
    ensures
        ax <= d,
        ay <= d,
{
    lemma_mul_nonnegative(ax, ax);
    lemma_mul_nonnegative(ay, ay);
    if ax > d {
        lemma_sq_order(d + 1, ax);
        assert(false);
    }
    if ay > d {
        lemma_sq_order(d + 1, ay);
        assert(false);
    }
}

/// The per-axis step `floor(a * speed / d)` never exceeds `speed`
/// when the leg `a` is at most the distance `d`.
pub proof fn lemma_axis_step_le_speed(a: int, speed: int, d: int)
    requires
        0 <= a <= d,
        0 < d,
        0 <= speed,
    ensures
        0 <= (a * speed) / d <= speed,
{
    lemma_mul_nonnegative(a, speed);
    lemma_div_pos_is_pos(a * speed, d);
    lemma_mul_inequality(a, d, speed);
    lemma_div_is_ordered(a * speed, d * speed, d);
    lemma_div_multiples_vanish(speed, d);
}

/// The per-axis step never exceeds the leg itself when the whole step
/// `speed` is at most the distance `d` (no per-axis overshoot).
pub proof fn lemma_axis_step_le_leg(a: int, speed: int, d: int)
    requires
        0 <= a,
        0 < d,
        0 <= speed <= d,
    ensures
        (a * speed) / d <= a,
{
    lemma_mul_is_commutative(a, speed);
    lemma_mul_inequality(speed, d, a);
    lemma_mul_is_commutative(d, a);
    lemma_div_is_ordered(speed * a, d * a, d);
    lemma_div_multiples_vanish(a, d);
}

/// When the squared distance exceeds the squared step, the dominant axis
/// moves by at least one unit.
pub proof fn lemma_dominant_step_pos(ax: int, ay: int, speed: int, d: int)
    requires
        0 <= ay <= ax,
        2 <= speed,
        is_floor_sqrt(ax * ax + ay * ay, d),
        ax * ax + ay * ay > speed * speed,
    ensures
        1 <= (ax * speed) / d,
{
    lemma_sq_order(ay, ax);
    assert(d * d <= ax * ax + ay * ay);
    assert((2 * ax) * (2 * ax) == 4 * (ax * ax)) by (nonlinear_arith);
    lemma_mul_nonnegative(d, d);
    assert(d * d <= (2 * ax) * (2 * ax));
    lemma_sq_order(d, 2 * ax);
    assert(d <= 2 * ax);
    if ax == 0 {
        lemma_mul_inequality(2, speed, speed);
        assert(ax * ax + ay * ay == 0) by (nonlinear_arith)
            requires ax == 0, ay == 0;
        assert(false);
    }
    if d == 0 {
        lemma_mul_inequality(2, speed, speed);
        assert((d + 1) * (d + 1) == 1) by (nonlinear_arith)
            requires d == 0;
        assert(false);
    }
    lemma_mul_left_inequality(ax, 2, speed);
    assert(ax * 2 <= ax * speed);
    assert(d <= ax * speed);
    lemma_div_is_ordered(d, ax * speed, d);
    lemma_div_by_self(d);
}

/// Shrinking both legs of the offset, one of them strictly, strictly
/// shrinks the squared norm.
pub proof fn lemma_offset_shrinks(ax: int, ay: int, mx: int, my: int)
    requires
        0 <= mx <= ax,
        0 <= my <= ay,
        1 <= mx || 1 <= my,
    ensures
        (ax - mx) * (ax - mx) + (ay - my) * (ay - my) < ax * ax + ay * ay,
{
    lemma_sq_order(ax - mx, ax);
    lemma_sq_order(ay - my, ay);
}

/// Evaluates `seek_axis` by the sign of the offset: the coordinate moves
/// by the per-axis step `m`, toward the destination.
pub proof fn lemma_seek_axis_value(from: int, to: int, speed: int, d: int, m: int)
    requires
        0 < d,
        0 <= speed,
        m == (abs_i(to - from) * speed) / d,
    ensures
        to >= from ==> seek_axis(from, to, speed, d) == from + m,
        to < from ==> seek_axis(from, to, speed, d) == from - m,
{
    if to == from {
        assert(abs_i(to - from) * speed == 0) by (nonlinear_arith)
            requires abs_i(to - from) == 0;
        lemma_basic_div(0, d);
        assert(sgn(to - from) * m == 0) by (nonlinear_arith)
            requires sgn(to - from) == 0;
    } else if to > from {
        assert(sgn(to - from) * m == m) by (nonlinear_arith)
            requires sgn(to - from) == 1;
    } else {
        assert(sgn(to - from) * m == -m) by (nonlinear_arith)
            requires sgn(to - from) == -1;
    }
}

/// Seek correctness: when the distance to the destination exceeds the
/// per-tick step, one seek step lands strictly closer to the destination.
pub proof fn lemma_seek_strictly_closer(pos: Vec2I, dest: Vec2I, speed: int, d: int)
    requires
        2 <= speed,
        is_floor_sqrt(dist_sq(pos, dest), d),
        dist_sq(pos, dest) > speed * speed,
    ensures
        ({
            let nx = seek_axis(pos.x as int, dest.x as int, speed, d);
            let ny = seek_axis(pos.y as int, dest.y as int, speed, d);
            (dest.x - nx) * (dest.x - nx) + (dest.y - ny) * (dest.y - ny) < dist_sq(pos, dest)
        }),
{
    let dx = dest.x - pos.x as int;
    let dy = dest.y - pos.y as int;
    let ax = abs_i(dx);
    let ay = abs_i(dy);
    lemma_abs_sq(dx);
    lemma_abs_sq(dy);
    assert(dist_sq(pos, dest) == ax * ax + ay * ay);
    // The step fits inside the distance: speed <= d.
    if d < speed {
        lemma_sq_order(d + 1, speed);
        assert(false);
    }
    let mx = (ax * speed) / d;
    let my = (ay * speed) / d;
    lemma_axis_step_le_leg(ax, speed, d);
    lemma_axis_step_le_leg(ay, speed, d);
    lemma_mul_nonnegative(ax, speed);
    lemma_mul_nonnegative(ay, speed);
    lemma_div_pos_is_pos(ax * speed, d);
    lemma_div_pos_is_pos(ay * speed, d);
    // The dominant axis moves by at least one unit.
    if ay <= ax {
        lemma_dominant_step_pos(ax, ay, speed, d);
    } else {
        lemma_dominant_step_pos(ay, ax, speed, d);
    }
    lemma_offset_shrinks(ax, ay, mx, my);
    // Tie the new offsets to the shrunken legs.
    let nx = seek_axis(pos.x as int, dest.x as int, speed, d);
    let ny = seek_axis(pos.y as int, dest.y as int, speed, d);
    lemma_seek_axis_value(pos.x as int, dest.x as int, speed, d, mx);
    lemma_seek_axis_value(pos.y as int, dest.y as int, speed, d, my);
    assert(abs_i(dest.x - nx) == ax - mx);
    assert(abs_i(dest.y - ny) == ay - my);
    lemma_abs_sq(dest.x - nx);
    lemma_abs_sq(dest.y - ny);
}

/// One seek step: move from `pos` toward `dest` by `speed`, splitting the
/// step across the axes in proportion to the offset, as a fixed-point
/// rendering of `pos + normalize(dest - pos) * speed`. At the destination
/// itself the entity stays put; within `speed` of it the step overshoots
/// (there is no arrival check, matching the shipped seek behavior).
pub fn seek_step(pos: Vec2I, dest: Vec2I, speed: u64) -> (new_pos: Vec2I)
    requires
        pos.bounded(POS_LIMIT as int + SPEED_LIMIT as int),
        dest.bounded(POS_LIMIT as int),
        2 <= speed <= SPEED_LIMIT as u64,
    ensures
        forall|dd: int|
            #[trigger] is_floor_sqrt(dist_sq(pos, dest), dd) ==> new_pos.x as int == seek_axis(
                pos.x as int,
                dest.x as int,
                speed as int,
                dd,
            ) && new_pos.y as int == seek_axis(pos.y as int, dest.y as int, speed as int, dd),
        within_overshoot(pos.x as int, dest.x as int, new_pos.x as int, speed as int),
        within_overshoot(pos.y as int, dest.y as int, new_pos.y as int, speed as int),
        dist_sq(pos, dest) > (speed as int) * (speed as int) ==> dist_sq(new_pos, dest) < dist_sq(
            pos,
            dest,
        ),
        dist_sq(pos, dest) == 0 ==> new_pos == pos,
{
    let ghost dxg: int = dest.x - pos.x as int;
    let ghost dyg: int = dest.y - pos.y as int;
    let ax: u64 = abs_i64(dest.x - pos.x);
    let ay: u64 = abs_i64(dest.y - pos.y);
    proof {
        lemma_mul_upper_bound(ax as int, 2_001_000_000int, ax as int, 2_001_000_000int);
        lemma_mul_upper_bound(ay as int, 2_001_000_000int, ay as int, 2_001_000_000int);
        lemma_abs_sq(dxg);
        lemma_abs_sq(dyg);
    }
    let d2: u64 = ax * ax + ay * ay;
    proof {
        assert(d2 as int == dist_sq(pos, dest));
    }
    let d: u64 = isqrt(d2);
    if d == 0 {
        proof {
            assert((d as int + 1) * (d as int + 1) == 1) by (nonlinear_arith)
                requires d == 0;
            assert(d2 < 1);
            lemma_mul_nonnegative(ax as int, ax as int);
            lemma_mul_nonnegative(ay as int, ay as int);
            if ax != 0 {
                lemma_mul_nonzero(ax as int, ax as int);
            }
            if ay != 0 {
                lemma_mul_nonzero(ay as int, ay as int);
            }
            assert(ax == 0 && ay == 0);
            assert(dest.x == pos.x && dest.y == pos.y);
            assert(pos == dest);
            assert forall|dd: int| #[trigger] is_floor_sqrt(dist_sq(pos, dest), dd) implies dd
                == 0 by {
                lemma_floor_sqrt_unique(dist_sq(pos, dest), dd, 0);
            }
        }
        return pos;
    }
    proof {
        lemma_component_le_sqrt(ax as int, ay as int, d as int);
        lemma_axis_step_le_speed(ax as int, speed as int, d as int);
        lemma_axis_step_le_speed(ay as int, speed as int, d as int);
        lemma_mul_upper_bound(ax as int, 2_001_000_000int, speed as int, SPEED_LIMIT as int);
        lemma_mul_upper_bound(ay as int, 2_001_000_000int, speed as int, SPEED_LIMIT as int);
    }
    let mx: u64 = ax * speed / d;
    let my: u64 = ay * speed / d;
    let nx: i64 = if dest.x >= pos.x {
        pos.x + mx as i64
    } else {
        pos.x - mx as i64
    };
    let ny: i64 = if dest.y >= pos.y {
        pos.y + my as i64
    } else {
        pos.y - my as i64
    };
    let new_pos = Vec2I { x: nx, y: ny };
    proof {
        if dxg == 0 {
            assert(ax == 0);
            lemma_basic_div(0, d as int);
        }
        if dyg == 0 {
            assert(ay == 0);
            lemma_basic_div(0, d as int);
        }
        lemma_seek_axis_value(pos.x as int, dest.x as int, speed as int, d as int, mx as int);
        lemma_seek_axis_value(pos.y as int, dest.y as int, speed as int, d as int, my as int);
        assert(nx as int == seek_axis(pos.x as int, dest.x as int, speed as int, d as int));
        assert(ny as int == seek_axis(pos.y as int, dest.y as int, speed as int, d as int));
        assert forall|dd: int| #[trigger] is_floor_sqrt(dist_sq(pos, dest), dd) implies nx as int
            == seek_axis(pos.x as int, dest.x as int, speed as int, dd) && ny as int == seek_axis(
            pos.y as int,
            dest.y as int,
            speed as int,
            dd,
        ) by {
            lemma_floor_sqrt_unique(dist_sq(pos, dest), dd, d as int);
        }
        if dist_sq(pos, dest) > (speed as int) * (speed as int) {
            lemma_seek_strictly_closer(pos, dest, speed as int, d as int);
        }
        lemma_mul_nonnegative(d as int, d as int);
        lemma_mul_nonzero(d as int, d as int);
    }
    new_pos
}

} // verus!

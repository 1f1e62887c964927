use infinite_shooter_game::geometry::{abs_i64, in_bounds, isqrt, seek_step, Vec2I};

fn dist_sq(a: Vec2I, b: Vec2I) -> i128 {
    let dx = (b.x - a.x) as i128;
    let dy = (b.y - a.y) as i128;
    dx * dx + dy * dy
}

#[test]
fn isqrt_small_values() {
    assert_eq!(isqrt(0), 0);
    assert_eq!(isqrt(1), 1);
    assert_eq!(isqrt(2), 1);
    assert_eq!(isqrt(3), 1);
    assert_eq!(isqrt(4), 2);
    assert_eq!(isqrt(99), 9);
    assert_eq!(isqrt(100), 10);
    assert_eq!(isqrt(101), 10);
}

#[test]
fn isqrt_large_values() {
    assert_eq!(isqrt(u64::MAX), 4_294_967_295);
    assert_eq!(isqrt(1_000_000_000_000), 1_000_000);
    assert_eq!(isqrt(999_999_999_999), 999_999);
}

#[test]
fn abs_of_i64() {
    assert_eq!(abs_i64(0), 0);
    assert_eq!(abs_i64(17), 17);
    assert_eq!(abs_i64(-17), 17);
    assert_eq!(abs_i64(i64::MAX), i64::MAX as u64);
}

#[test]
fn bounds_check() {
    assert!(in_bounds(&Vec2I { x: 5, y: -5 }, 5));
    assert!(!in_bounds(&Vec2I { x: 6, y: 0 }, 5));
    assert!(!in_bounds(&Vec2I { x: 0, y: -6 }, 5));
}

#[test]
fn seek_step_along_axis() {
    let pos = Vec2I { x: 0, y: 0 };
    let dest = Vec2I { x: 10_000, y: 0 };
    let new_pos = seek_step(pos, dest, 1_000);
    assert_eq!(new_pos, Vec2I { x: 1_000, y: 0 });
}

#[test]
fn seek_step_diagonal_three_four_five() {
    // Distance 5000; the step splits 1000 into (600, 800).
    let pos = Vec2I { x: 0, y: 0 };
    let dest = Vec2I { x: 3_000, y: 4_000 };
    let new_pos = seek_step(pos, dest, 1_000);
    assert_eq!(new_pos, Vec2I { x: 600, y: 800 });
}

#[test]
fn seek_step_at_destination_stays() {
    let pos = Vec2I { x: 42, y: -42 };
    let new_pos = seek_step(pos, pos, 1_000);
    assert_eq!(new_pos, pos);
}

#[test]
fn seek_step_overshoots_near_destination() {
    // Within one step of the destination there is no arrival check:
    // the entity crosses over.
    let pos = Vec2I { x: 0, y: 0 };
    let dest = Vec2I { x: 500, y: 0 };
    let new_pos = seek_step(pos, dest, 1_000);
    assert_eq!(new_pos, Vec2I { x: 1_000, y: 0 });
}

#[test]
fn seek_step_moves_strictly_closer_when_far() {
    let pos = Vec2I { x: -7_000, y: 9_500 };
    let dest = Vec2I { x: 12_345, y: -6_789 };
    let before = dist_sq(pos, dest);
    let new_pos = seek_step(pos, dest, 1_000);
    let after = dist_sq(new_pos, dest);
    assert!(after < before);
}

#[test]
fn seek_step_negative_direction() {
    let pos = Vec2I { x: 10_000, y: 0 };
    let dest = Vec2I { x: 0, y: 0 };
    let new_pos = seek_step(pos, dest, 1_000);
    assert_eq!(new_pos, Vec2I { x: 9_000, y: 0 });
}

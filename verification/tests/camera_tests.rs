use infinite_shooter_game::camera::camera_follow_player;
use infinite_shooter_game::geometry::Vec2I;

#[test]
fn follow_moves_a_tenth_of_the_offset() {
    let mut cam = Vec2I { x: 0, y: 0 };
    camera_follow_player(&mut cam, Vec2I { x: 1_000, y: -1_000 });
    assert_eq!(cam, Vec2I { x: 100, y: -100 });
}

#[test]
fn follow_formula_from_nonzero_start() {
    let mut cam = Vec2I { x: 500, y: 200 };
    camera_follow_player(&mut cam, Vec2I { x: 1_500, y: -800 });
    // new = old + (target - old) / 10
    assert_eq!(cam, Vec2I { x: 600, y: 100 });
}

#[test]
fn follow_rounds_toward_zero() {
    let mut cam = Vec2I { x: 0, y: 0 };
    camera_follow_player(&mut cam, Vec2I { x: -95, y: 95 });
    assert_eq!(cam, Vec2I { x: -9, y: 9 });
}

#[test]
fn follow_stops_short_of_small_offsets() {
    let mut cam = Vec2I { x: 0, y: 0 };
    camera_follow_player(&mut cam, Vec2I { x: 5, y: -5 });
    assert_eq!(cam, Vec2I { x: 0, y: 0 });
}

#[test]
fn follow_converges_monotonically() {
    let target = Vec2I { x: 100_000, y: 0 };
    let mut cam = Vec2I { x: 0, y: 0 };
    let mut last_gap = (target.x - cam.x).abs();
    for _ in 0..50 {
        camera_follow_player(&mut cam, target);
        let gap = (target.x - cam.x).abs();
        assert!(gap <= last_gap);
        last_gap = gap;
    }
    assert!(last_gap < 100_000 / 2);
}

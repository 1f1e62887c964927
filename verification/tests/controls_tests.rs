use infinite_shooter_game::controls::{
    begin_drag, mouse_drag_begin, mouse_drag_end, on_overlap_started, on_overlap_stopped,
    update_drag, update_target_destination, BoxSelection, CursorPosition, TargetDestination,
};
use infinite_shooter_game::enemy::{Enemy, EnemyEntity, EnemyType};
use infinite_shooter_game::geometry::Vec2I;

fn enemy(selected: bool) -> EnemyEntity {
    EnemyEntity {
        enemy: Enemy { health: 100 },
        pos: Vec2I { x: 0, y: 0 },
        variant: EnemyType::Green,
        target: TargetDestination(None),
        selected,
    }
}

#[test]
fn drag_begins_empty_at_cursor() {
    let b = begin_drag(Vec2I { x: 7, y: 8 });
    assert_eq!(b.start, Vec2I { x: 7, y: 8 });
    assert_eq!(b.end, Vec2I { x: 7, y: 8 });
    assert!(b.selected.is_empty());
}

#[test]
fn overlap_events_grow_and_shrink_the_set() {
    let mut b = begin_drag(Vec2I { x: 0, y: 0 });
    on_overlap_started(&mut b, 3);
    on_overlap_started(&mut b, 5);
    on_overlap_started(&mut b, 3);
    assert_eq!(b.selected.len(), 2);
    on_overlap_stopped(&mut b, 3);
    assert_eq!(b.selected, vec![5]);
    on_overlap_stopped(&mut b, 99);
    assert_eq!(b.selected, vec![5]);
    on_overlap_stopped(&mut b, 5);
    assert!(b.selected.is_empty());
}

#[test]
fn drag_motion_resizes_the_volume() {
    let mut b = begin_drag(Vec2I { x: 0, y: 0 });
    let (half, mid) = update_drag(&mut b, Vec2I { x: 10, y: 20 });
    assert_eq!(b.end, Vec2I { x: 10, y: 20 });
    assert_eq!(half, Vec2I { x: 5, y: 10 });
    assert_eq!(mid, Vec2I { x: 5, y: 10 });
}

#[test]
fn drag_motion_negative_quadrant() {
    let mut b = begin_drag(Vec2I { x: 0, y: 0 });
    let (half, mid) = update_drag(&mut b, Vec2I { x: -10, y: -21 });
    assert_eq!(half, Vec2I { x: 5, y: 10 });
    assert_eq!(mid, Vec2I { x: -5, y: -10 });
}

#[test]
fn drag_end_applies_selection() {
    let mut enemies = vec![enemy(false), enemy(false), enemy(false)];
    let mut selection = None;
    mouse_drag_begin(&mut selection, &mut enemies, Vec2I { x: 0, y: 0 });
    let b = selection.as_mut().unwrap();
    on_overlap_started(b, 0);
    on_overlap_started(b, 2);
    mouse_drag_end(&mut selection, &mut enemies);
    assert!(selection.is_none());
    assert!(enemies[0].selected);
    assert!(!enemies[1].selected);
    assert!(enemies[2].selected);
}

#[test]
fn new_drag_clears_previous_selection() {
    let mut enemies = vec![enemy(true), enemy(true)];
    let mut selection = None;
    mouse_drag_begin(&mut selection, &mut enemies, Vec2I { x: 0, y: 0 });
    assert!(!enemies[0].selected);
    assert!(!enemies[1].selected);
    assert!(selection.is_some());
}

#[test]
fn drag_end_without_box_does_nothing() {
    let mut enemies = vec![enemy(false)];
    let mut selection = None;
    mouse_drag_end(&mut selection, &mut enemies);
    assert!(!enemies[0].selected);
}

#[test]
fn right_click_commands_selected_enemies() {
    let mut enemies = vec![enemy(true), enemy(false), enemy(true)];
    let cursor = CursorPosition(Some(Vec2I { x: 400, y: -500 }));
    update_target_destination(&mut enemies, &cursor, true);
    assert_eq!(enemies[0].target, TargetDestination(Some(Vec2I { x: 400, y: -500 })));
    assert_eq!(enemies[1].target, TargetDestination(None));
    assert_eq!(enemies[2].target, TargetDestination(Some(Vec2I { x: 400, y: -500 })));
}

#[test]
fn no_click_or_no_cursor_commands_nothing() {
    let mut enemies = vec![enemy(true)];
    let cursor = CursorPosition(Some(Vec2I { x: 400, y: -500 }));
    update_target_destination(&mut enemies, &cursor, false);
    assert_eq!(enemies[0].target, TargetDestination(None));
    let no_cursor = CursorPosition(None);
    update_target_destination(&mut enemies, &no_cursor, true);
    assert_eq!(enemies[0].target, TargetDestination(None));
}

#[test]
fn stale_overlap_index_is_ignored_on_apply() {
    let mut enemies = vec![enemy(false)];
    let mut selection = Some(BoxSelection {
        start: Vec2I { x: 0, y: 0 },
        end: Vec2I { x: 0, y: 0 },
        selected: vec![0, 17],
    });
    mouse_drag_end(&mut selection, &mut enemies);
    assert!(enemies[0].selected);
    assert_eq!(enemies.len(), 1);
}

use infinite_shooter_game::configs::GameConfig;
use infinite_shooter_game::controls::TargetDestination;
use infinite_shooter_game::enemy::{
    despawn_dead_enemies, get_random_position_around, spawn_enemies,
    update_enemies_movements_based_on_click_position, Enemy, EnemyEntity, EnemyType,
};
use infinite_shooter_game::geometry::Vec2I;

fn enemy_at(x: i64, y: i64, health: i64, target: Option<Vec2I>) -> EnemyEntity {
    EnemyEntity {
        enemy: Enemy { health },
        pos: Vec2I { x, y },
        variant: EnemyType::Green,
        target: TargetDestination(target),
        selected: false,
    }
}

fn dist_sq(a: Vec2I, b: Vec2I) -> i128 {
    let dx = (b.x - a.x) as i128;
    let dy = (b.y - a.y) as i128;
    dx * dx + dy * dy
}

#[test]
fn enemy_sprite_indices() {
    assert_eq!(EnemyType::Green.get_base_sprite_index(), 16);
    assert_eq!(EnemyType::Red.get_base_sprite_index(), 24);
    assert_eq!(EnemyType::Skin.get_base_sprite_index(), 32);
    assert_eq!(EnemyType::White.get_base_sprite_index(), 40);
}

#[test]
fn enemy_default_health() {
    let e = Enemy::default();
    assert_eq!(e.health, 500_000);
}

#[test]
fn random_position_lies_in_annulus() {
    let cfg = GameConfig::standard();
    let origin = Vec2I { x: 123, y: -456 };
    for _ in 0..100 {
        let p = get_random_position_around(origin, &cfg);
        let d2 = dist_sq(origin, p);
        let min = cfg.spawn_min_radius as i128;
        let max = cfg.spawn_max_radius as i128;
        assert!(min * min <= d2 && d2 < max * max);
    }
}

#[test]
fn spawner_fills_to_cap_with_small_cap() {
    let mut cfg = GameConfig::standard();
    cfg.max_num_enemies = 10;
    let mut enemies: Vec<EnemyEntity> = Vec::new();
    spawn_enemies(&mut enemies, Vec2I { x: 0, y: 0 }, &cfg);
    assert_eq!(enemies.len(), 10);
    for e in &enemies {
        assert_eq!(e.enemy.health, cfg.enemy_health);
        assert_eq!(e.target, TargetDestination(None));
        assert!(!e.selected);
        let d2 = dist_sq(Vec2I { x: 0, y: 0 }, e.pos);
        let min = cfg.spawn_min_radius as i128;
        let max = cfg.spawn_max_radius as i128;
        assert!(min * min <= d2 && d2 < max * max);
    }
}

#[test]
fn spawner_never_exceeds_cap() {
    let mut cfg = GameConfig::standard();
    cfg.max_num_enemies = 10;
    let mut enemies: Vec<EnemyEntity> = Vec::new();
    spawn_enemies(&mut enemies, Vec2I { x: 0, y: 0 }, &cfg);
    spawn_enemies(&mut enemies, Vec2I { x: 0, y: 0 }, &cfg);
    spawn_enemies(&mut enemies, Vec2I { x: 0, y: 0 }, &cfg);
    assert_eq!(enemies.len(), 10);
}

#[test]
fn spawner_limited_by_rate_per_interval() {
    let cfg = GameConfig::standard();
    let mut enemies: Vec<EnemyEntity> = Vec::new();
    spawn_enemies(&mut enemies, Vec2I { x: 0, y: 0 }, &cfg);
    assert_eq!(enemies.len(), 500);
    spawn_enemies(&mut enemies, Vec2I { x: 0, y: 0 }, &cfg);
    assert_eq!(enemies.len(), 1_000);
    spawn_enemies(&mut enemies, Vec2I { x: 0, y: 0 }, &cfg);
    assert_eq!(enemies.len(), 1_000);
}

#[test]
fn spawner_leaves_overfull_population_alone() {
    let mut cfg = GameConfig::standard();
    cfg.max_num_enemies = 2;
    let mut enemies = vec![
        enemy_at(0, 0, 100, None),
        enemy_at(1, 1, 100, None),
        enemy_at(2, 2, 100, None),
    ];
    spawn_enemies(&mut enemies, Vec2I { x: 0, y: 0 }, &cfg);
    assert_eq!(enemies.len(), 3);
}

#[test]
fn movement_seeks_commanded_destination() {
    let cfg = GameConfig::standard();
    let mut enemies = vec![enemy_at(0, 0, 100, Some(Vec2I { x: 10_000, y: 0 }))];
    update_enemies_movements_based_on_click_position(&mut enemies, &cfg);
    assert_eq!(enemies[0].pos, Vec2I { x: 1_000, y: 0 });
}

#[test]
fn movement_without_destination_stays() {
    let cfg = GameConfig::standard();
    let mut enemies = vec![enemy_at(77, -77, 100, None)];
    update_enemies_movements_based_on_click_position(&mut enemies, &cfg);
    assert_eq!(enemies[0].pos, Vec2I { x: 77, y: -77 });
}

#[test]
fn movement_brings_each_enemy_strictly_closer() {
    let cfg = GameConfig::standard();
    let dest = Vec2I { x: -5_000, y: 8_000 };
    let mut enemies = vec![
        enemy_at(0, 0, 100, Some(dest)),
        enemy_at(9_999, 123, 100, Some(dest)),
    ];
    let before: Vec<i128> = enemies.iter().map(|e| dist_sq(e.pos, dest)).collect();
    update_enemies_movements_based_on_click_position(&mut enemies, &cfg);
    for (e, b) in enemies.iter().zip(before.iter()) {
        assert!(dist_sq(e.pos, dest) < *b);
    }
}

#[test]
fn despawn_keeps_living_enemies_in_order() {
    let mut enemies = vec![
        enemy_at(1, 0, 5, None),
        enemy_at(2, 0, 0, None),
        enemy_at(3, 0, -3, None),
        enemy_at(4, 0, 10, None),
    ];
    despawn_dead_enemies(&mut enemies);
    assert_eq!(enemies.len(), 2);
    assert_eq!(enemies[0].pos.x, 1);
    assert_eq!(enemies[1].pos.x, 4);
}

#[test]
fn despawn_of_empty_is_empty() {
    let mut enemies: Vec<EnemyEntity> = Vec::new();
    despawn_dead_enemies(&mut enemies);
    assert!(enemies.is_empty());
}

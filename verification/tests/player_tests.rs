use infinite_shooter_game::configs::GameConfig;
use infinite_shooter_game::geometry::Vec2I;
use infinite_shooter_game::player::{
    handle_player_death, handle_player_enemy_collision_events, handle_player_input, spawn_player,
    Health, InputState, Player, PlayerEnemyCollisionEvent, PlayerState,
};
use infinite_shooter_game::state::{GameState, StateFlow};

fn idle_player() -> Player {
    Player { pos: Vec2I { x: 0, y: 0 }, health: Health(100_000), state: PlayerState::Idle }
}

fn keys(up: bool, down: bool, left: bool, right: bool) -> InputState {
    InputState { up, down, left, right }
}

#[test]
fn single_axis_moves_full_speed() {
    let cfg = GameConfig::standard();
    let mut p = idle_player();
    handle_player_input(&mut p, keys(false, false, false, true), &cfg);
    assert_eq!(p.pos, Vec2I { x: 2_000, y: 0 });
    assert_eq!(p.state, PlayerState::Run);
}

#[test]
fn up_moves_positive_y() {
    let cfg = GameConfig::standard();
    let mut p = idle_player();
    handle_player_input(&mut p, keys(true, false, false, false), &cfg);
    assert_eq!(p.pos, Vec2I { x: 0, y: 2_000 });
}

#[test]
fn diagonal_is_normalized() {
    // 2000 * 707 / 1000 = 1414 on each axis.
    let cfg = GameConfig::standard();
    let mut p = idle_player();
    handle_player_input(&mut p, keys(true, false, false, true), &cfg);
    assert_eq!(p.pos, Vec2I { x: 1_414, y: 1_414 });
    assert_eq!(p.state, PlayerState::Run);
}

#[test]
fn diagonal_magnitude_within_two_percent() {
    let cfg = GameConfig::standard();
    let mut p = idle_player();
    handle_player_input(&mut p, keys(true, false, false, true), &cfg);
    let m2 = p.pos.x * p.pos.x + p.pos.y * p.pos.y;
    let s2 = cfg.player_speed * cfg.player_speed;
    assert!(98 * s2 <= 100 * m2);
    assert!(100 * m2 <= 100 * s2);
}

#[test]
fn no_keys_is_idle() {
    let cfg = GameConfig::standard();
    let mut p = idle_player();
    p.state = PlayerState::Run;
    handle_player_input(&mut p, keys(false, false, false, false), &cfg);
    assert_eq!(p.pos, Vec2I { x: 0, y: 0 });
    assert_eq!(p.state, PlayerState::Idle);
}

#[test]
fn opposite_keys_cancel_to_idle() {
    let cfg = GameConfig::standard();
    let mut p = idle_player();
    handle_player_input(&mut p, keys(true, true, true, true), &cfg);
    assert_eq!(p.pos, Vec2I { x: 0, y: 0 });
    assert_eq!(p.state, PlayerState::Idle);
}

#[test]
fn down_left_diagonal() {
    let cfg = GameConfig::standard();
    let mut p = idle_player();
    handle_player_input(&mut p, keys(false, true, true, false), &cfg);
    assert_eq!(p.pos, Vec2I { x: -1_414, y: -1_414 });
}

fn damage_cfg(damage: i64) -> GameConfig {
    let mut cfg = GameConfig::standard();
    cfg.enemy_damage = damage;
    cfg
}

#[test]
fn n_collision_events_cost_n_times_damage() {
    let cfg = damage_cfg(5_000);
    let mut p = idle_player();
    let events = vec![
        PlayerEnemyCollisionEvent,
        PlayerEnemyCollisionEvent,
        PlayerEnemyCollisionEvent,
        PlayerEnemyCollisionEvent,
    ];
    handle_player_enemy_collision_events(&mut p, &events, &cfg);
    assert_eq!(p.health, Health(100_000 - 4 * 5_000));
    assert_eq!(p.pos, Vec2I { x: 0, y: 0 });
}

#[test]
fn no_events_no_damage() {
    let cfg = damage_cfg(5_000);
    let mut p = idle_player();
    let events: Vec<PlayerEnemyCollisionEvent> = Vec::new();
    handle_player_enemy_collision_events(&mut p, &events, &cfg);
    assert_eq!(p.health, Health(100_000));
}

#[test]
fn standard_damage_constant_is_zero() {
    let cfg = GameConfig::standard();
    let mut p = idle_player();
    let events = vec![PlayerEnemyCollisionEvent, PlayerEnemyCollisionEvent];
    handle_player_enemy_collision_events(&mut p, &events, &cfg);
    assert_eq!(p.health, Health(100_000));
}

#[test]
fn death_at_zero_health_requests_main_menu() {
    let mut flow = StateFlow { current: GameState::InGame, next: None };
    let p = Player { pos: Vec2I { x: 0, y: 0 }, health: Health(0), state: PlayerState::Idle };
    handle_player_death(&p, &mut flow);
    assert_eq!(flow.current, GameState::InGame);
    assert_eq!(flow.next, Some(GameState::MainMenu));
    flow.apply_next();
    assert_eq!(flow.current, GameState::MainMenu);
    assert_eq!(flow.next, None);
}

#[test]
fn death_below_zero_health_requests_main_menu() {
    let mut flow = StateFlow { current: GameState::InGame, next: None };
    let p = Player { pos: Vec2I { x: 0, y: 0 }, health: Health(-250), state: PlayerState::Idle };
    handle_player_death(&p, &mut flow);
    assert_eq!(flow.next, Some(GameState::MainMenu));
}

#[test]
fn positive_health_no_transition() {
    let mut flow = StateFlow { current: GameState::InGame, next: None };
    let p = Player { pos: Vec2I { x: 0, y: 0 }, health: Health(1), state: PlayerState::Idle };
    handle_player_death(&p, &mut flow);
    assert_eq!(flow.next, None);
}

#[test]
fn spawn_player_full_health_at_origin() {
    let cfg = GameConfig::standard();
    let mut flow = StateFlow { current: GameState::GameInit, next: None };
    let p = spawn_player(&mut flow, &cfg);
    assert_eq!(p.pos, Vec2I { x: 0, y: 0 });
    assert_eq!(p.health, Health(100_000));
    assert_eq!(p.state, PlayerState::Idle);
    assert_eq!(flow.next, Some(GameState::InGame));
}

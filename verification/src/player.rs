//! The player: keyboard-driven movement, contact damage, and the death
//! transition back to the main menu.

use vstd::prelude::*;
use crate::configs::{GameConfig, DIAG_NUM, DIAG_DEN};
use crate::geometry::{Vec2I, POS_LIMIT, SPEED_LIMIT};
use crate::state::{GameState, StateFlow, apply_next_spec, in_game_spec};

verus! {

use vstd::arithmetic::mul::{
    lemma_mul_cancels_negatives,
    lemma_mul_inequality,
    lemma_mul_nonnegative,
};
use vstd::arithmetic::div_mod::{
    lemma_div_is_ordered,
    lemma_div_multiples_vanish,
    lemma_div_pos_is_pos,
    lemma_fundamental_div_mod,
    lemma_mod_division_less_than_divisor,
};

/// Health in milli-points. It may go below zero transiently; the death
/// check treats zero or below as dead.
#[derive(Clone, Copy, PartialEq, Eq, Structural, Debug)]
pub struct Health(pub i64);

/// Whether the player stands or runs, driving the animation.
#[derive(Clone, Copy, PartialEq, Eq, Structural, Debug)]
pub enum PlayerState {
    Idle,
    Run,
}

impl Default for PlayerState {
    fn default() -> (s: PlayerState)
        ensures
            s == PlayerState::Idle,
    {
        PlayerState::Idle
    }
}

/// One player-enemy contact noticed by the collision collaborator in the
/// current tick.
#[derive(Clone, Copy, PartialEq, Eq, Structural, Debug)]
pub struct PlayerEnemyCollisionEvent;

/// The singleton player entity.
#[derive(Clone, Copy, PartialEq, Eq, Structural, Debug)]
pub struct Player {
    pub pos: Vec2I,
    pub health: Health,
    pub state: PlayerState,
}

/// A snapshot of the four directional keys.
#[derive(Clone, Copy, PartialEq, Eq, Structural, Debug)]
pub struct InputState {
    pub up: bool,
    pub down: bool,
    pub left: bool,
    pub right: bool,
}

/// Net horizontal direction: -1, 0 or 1. Opposite keys cancel.
pub open spec fn axis_x(input: InputState) -> int {
    (if input.right {
        1int
    } else {
        0int
    }) - (if input.left {
        1int
    } else {
        0int
    })
}

/// Net vertical direction: -1, 0 or 1. Opposite keys cancel.
pub open spec fn axis_y(input: InputState) -> int {
    (if input.up {
        1int
    } else {
        0int
    }) - (if input.down {
        1int
    } else {
        0int
    })
}

/// Length of the per-axis step: the full speed on a single axis, scaled by
/// the fixed-point factor 707/1000 (about 1/sqrt(2)) on a diagonal.
pub open spec fn step_len(speed: int, diagonal: bool) -> int {
    if diagonal {
        (speed * DIAG_NUM) / (DIAG_DEN as int)
    } else {
        speed
    }
}

/// Horizontal displacement of one movement tick.
pub open spec fn move_delta_x(input: InputState, speed: int) -> int {
    let a = axis_x(input);
    if a == 0 {
        0int
    } else {
        let m = step_len(speed, axis_y(input) != 0);
        if a > 0 {
            m
        } else {
            -m
        }
    }
}

/// Vertical displacement of one movement tick.
pub open spec fn move_delta_y(input: InputState, speed: int) -> int {
    let a = axis_y(input);
    if a == 0 {
        0int
    } else {
        let m = step_len(speed, axis_x(input) != 0);
        if a > 0 {
            m
        } else {
            -m
        }
    }
}

/// The diagonal step is between zero and the speed itself.
proof fn lemma_step_len_bounds(speed: int)
    requires
        0 <= speed,
    ensures
        0 <= step_len(speed, true) <= speed,
        step_len(speed, false) == speed,
{
    lemma_mul_nonnegative(speed, DIAG_NUM as int);
    lemma_div_pos_is_pos(speed * DIAG_NUM, DIAG_DEN as int);
    lemma_mul_inequality(DIAG_NUM as int, DIAG_DEN as int, speed);
    assert(speed * DIAG_NUM == DIAG_NUM * speed) by (nonlinear_arith);
    assert(speed * DIAG_DEN == DIAG_DEN * speed) by (nonlinear_arith);
    lemma_div_is_ordered(DIAG_NUM as int * speed, DIAG_DEN as int * speed, DIAG_DEN as int);
    lemma_div_multiples_vanish(speed, DIAG_DEN as int);
}

/// Read the four direction keys, displace the player by a speed-length
/// vector (diagonals normalized in fixed point), and set the movement
/// state: Run while a net direction is held, Idle otherwise.
pub fn handle_player_input(player: &mut Player, input: InputState, cfg: &GameConfig)
    requires
        cfg.wf(),
        old(player).pos.bounded(POS_LIMIT as int),
    ensures
        final(player).pos.x as int == old(player).pos.x + move_delta_x(
            input,
            cfg.player_speed as int,
        ),
        final(player).pos.y as int == old(player).pos.y + move_delta_y(
            input,
            cfg.player_speed as int,
        ),
        final(player).health == old(player).health,
        final(player).state == (if axis_x(input) != 0 || axis_y(input) != 0 {
            PlayerState::Run
        } else {
            PlayerState::Idle
        }),
        final(player).pos.bounded(POS_LIMIT as int + SPEED_LIMIT as int),
{
    let ax: i64 = (if input.right {
        1i64
    } else {
        0i64
    }) - (if input.left {
        1i64
    } else {
        0i64
    });
    let ay: i64 = (if input.up {
        1i64
    } else {
        0i64
    }) - (if input.down {
        1i64
    } else {
        0i64
    });
    if ax == 0 && ay == 0 {
        player.state = PlayerState::Idle;
        return ;
    }
    proof {
        lemma_step_len_bounds(cfg.player_speed as int);
    }
    let step_x: i64 = if ay != 0 {
        ((cfg.player_speed as u64) * (DIAG_NUM as u64) / (DIAG_DEN as u64)) as i64
    } else {
        cfg.player_speed
    };
    let step_y: i64 = if ax != 0 {
        ((cfg.player_speed as u64) * (DIAG_NUM as u64) / (DIAG_DEN as u64)) as i64
    } else {
        cfg.player_speed
    };
    if ax > 0 {
        player.pos.x = player.pos.x + step_x;
    } else if ax < 0 {
        player.pos.x = player.pos.x - step_x;
    }
    if ay > 0 {
        player.pos.y = player.pos.y + step_y;
    } else if ay < 0 {
        player.pos.y = player.pos.y - step_y;
    }
    player.state = PlayerState::Run;
}

/// Player displacement magnitude: zero when no net direction is held;
/// exactly the configured speed on a single axis; within two percent of it
/// (in squared magnitude) on a diagonal, where the fixed-point
/// normalization may undershoot slightly.
pub proof fn lemma_player_step_magnitude(input: InputState, speed: int)
    requires
        150 <= speed,
    ensures
        ({
            let dx = move_delta_x(input, speed);
            let dy = move_delta_y(input, speed);
            let m2 = dx * dx + dy * dy;
            &&& ((axis_x(input) == 0 && axis_y(input) == 0) ==> m2 == 0)
            &&& ((axis_x(input) != 0 && axis_y(input) == 0) ==> m2 == speed * speed)
            &&& ((axis_x(input) == 0 && axis_y(input) != 0) ==> m2 == speed * speed)
            &&& ((axis_x(input) != 0 && axis_y(input) != 0) ==> 98 * (speed * speed) <= 100 * m2
                <= 100 * (speed * speed))
        }),
{
    let dx = move_delta_x(input, speed);
    let dy = move_delta_y(input, speed);
    if axis_x(input) == 0 && axis_y(input) == 0 {
        assert(dx * dx == 0 && dy * dy == 0) by (nonlinear_arith)
            requires dx == 0, dy == 0;
    } else if axis_y(input) == 0 {
        assert(dx == speed || dx == -speed);
        lemma_mul_cancels_negatives(speed, speed);
        assert(dy * dy == 0) by (nonlinear_arith)
            requires dy == 0;
    } else if axis_x(input) == 0 {
        assert(dy == speed || dy == -speed);
        lemma_mul_cancels_negatives(speed, speed);
        assert(dx * dx == 0) by (nonlinear_arith)
            requires dx == 0;
    } else {
        let q = (speed * DIAG_NUM) / (DIAG_DEN as int);
        lemma_fundamental_div_mod(speed * DIAG_NUM, DIAG_DEN as int);
        lemma_mod_division_less_than_divisor(speed * DIAG_NUM, DIAG_DEN as int);
        let r = (speed * DIAG_NUM) % (DIAG_DEN as int);
        assert(1000 * q == 707 * speed - r) by (nonlinear_arith)
            requires speed * 707 == 1000 * q + r;
        lemma_mul_nonnegative(speed, DIAG_NUM as int);
        lemma_div_pos_is_pos(speed * DIAG_NUM, DIAG_DEN as int);
        // Bound the scaled step u = 1000 q between 707 speed - 999 and 707 speed.
        let u = 1000 * q;
        assert(707 * speed - 999 <= u <= 707 * speed);
        assert(u * u <= (707 * speed) * (707 * speed)) by (nonlinear_arith)
            requires 0 <= u <= 707 * speed;
        assert((707 * speed - 999) * (707 * speed - 999) <= u * u) by (nonlinear_arith)
            requires 0 <= 707 * speed - 999 <= u;
        assert(u * u == 1000000 * (q * q)) by (nonlinear_arith)
            requires u == 1000 * q;
        assert((707 * speed) * (707 * speed) == 499849 * (speed * speed)) by (nonlinear_arith);
        assert((707 * speed - 999) * (707 * speed - 999) == 499849 * (speed * speed) - 1412586
            * speed + 998001) by (nonlinear_arith);
        // The squared magnitude is 2 q².
        assert(dx * dx == q * q) by (nonlinear_arith)
            requires dx == q || dx == -q;
        assert(dy * dy == q * q) by (nonlinear_arith)
            requires dy == q || dy == -q;
        // Within tolerance: 98 s² <= 200 q² <= 100 s², using s² >= 150 s.
        lemma_mul_inequality(150, speed, speed);
        assert(1000000 * (q * q) <= 499849 * (speed * speed));
        assert(1000000 * (q * q) >= 499849 * (speed * speed) - 1412586 * speed + 998001);
        assert(98 * (speed * speed) <= 100 * (dx * dx + dy * dy) <= 100 * (speed * speed));
    }
}

/// Drain the tick's player-enemy collision events: each one costs the
/// player the configured contact damage, so N simultaneous contacts cost
/// exactly N times the damage constant.
pub fn handle_player_enemy_collision_events(
    player: &mut Player,
    events: &Vec<PlayerEnemyCollisionEvent>,
    cfg: &GameConfig,
)
    requires
        cfg.wf(),
        old(player).health.0 - events@.len() * cfg.enemy_damage >= i64::MIN,
    ensures
        final(player).health.0 == old(player).health.0 - events@.len() * cfg.enemy_damage,
        final(player).pos == old(player).pos,
        final(player).state == old(player).state,
{
    let n: usize = events.len();
    let mut i: usize = 0;
    while i < n
        invariant
            i <= n,
            n == events@.len(),
            cfg.wf(),
            player.pos == old(player).pos,
            player.state == old(player).state,
            player.health.0 == old(player).health.0 - i * cfg.enemy_damage,
            old(player).health.0 - n * cfg.enemy_damage >= i64::MIN,
        decreases n - i,
    {
        proof {
            lemma_mul_nonnegative(i as int, cfg.enemy_damage as int);
            lemma_mul_inequality(i as int + 1, n as int, cfg.enemy_damage as int);
            assert((i as int + 1) * cfg.enemy_damage == i as int * cfg.enemy_damage
                + cfg.enemy_damage) by (nonlinear_arith);
        }
        player.health = Health(player.health.0 - cfg.enemy_damage);
        i = i + 1;
    }
}

/// Where the death check takes the flow: at zero health or below the game
/// is sent back to the main menu for the next tick; otherwise nothing.
pub open spec fn death_check_spec(f: StateFlow, health: int) -> StateFlow {
    if health <= 0 {
        StateFlow { current: f.current, next: Some(GameState::MainMenu) }
    } else {
        f
    }
}

/// The death check run each tick while in game.
pub fn handle_player_death(player: &Player, flow: &mut StateFlow)
    ensures
        *final(flow) == death_check_spec(*old(flow), player.health.0 as int),
{
    if player.health.0 <= 0 {
        flow.set_next(GameState::MainMenu);
    }
}

/// Death transition: damage that leaves health at zero or below makes the
/// following tick boundary turn the state to MainMenu, shutting the InGame
/// gate, so gated systems no longer run; above zero the flow is untouched.
pub proof fn lemma_death_transition(f: StateFlow, health: int)
    ensures
        health <= 0 ==> apply_next_spec(death_check_spec(f, health)).current
            == GameState::MainMenu,
        health <= 0 ==> !in_game_spec(apply_next_spec(death_check_spec(f, health))),
        health > 0 ==> death_check_spec(f, health) == f,
{
}

/// One-shot game initialization: the player appears at the origin with
/// full health, idle, and the state machine is sent on to InGame.
pub fn spawn_player(flow: &mut StateFlow, cfg: &GameConfig) -> (player: Player)
    requires
        cfg.wf(),
    ensures
        player.pos == (Vec2I { x: 0, y: 0 }),
        player.health.0 == cfg.player_health,
        player.state == PlayerState::Idle,
        final(flow).current == old(flow).current,
        final(flow).next == Some(GameState::InGame),
{
    flow.set_next(GameState::InGame);
    Player { pos: Vec2I { x: 0, y: 0 }, health: Health(cfg.player_health), state: PlayerState::Idle }
}

} // verus!

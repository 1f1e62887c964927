//! Enemies: the spawn pass under the population cap, seek movement toward
//! a commanded destination, and despawning of the dead.

use vstd::prelude::*;
use crate::configs::GameConfig;
use crate::controls::TargetDestination;
use crate::geometry::{
    Vec2I, POS_LIMIT, SPEED_LIMIT, dist_sq, abs_i64, is_floor_sqrt, seek_axis, within_overshoot,
    seek_step, lemma_abs_sq, lemma_sq_order,
};
use crate::rng::rand_in_range;

verus! {

use vstd::arithmetic::mul::{lemma_mul_nonnegative, lemma_mul_upper_bound};

/// An enemy's combat attributes: health in milli-points.
#[derive(Clone, Copy, PartialEq, Eq, Structural, Debug)]
pub struct Enemy {
    pub health: i64,
}

impl Default for Enemy {
    /// The shipped spawn health.
    fn default() -> (e: Enemy)
        ensures
            e.health == GameConfig::standard_spec().enemy_health,
    {
        Enemy { health: 500_000 }
    }
}

/// The visual variant of an enemy, purely cosmetic.
#[derive(Clone, Copy, PartialEq, Eq, Structural, Debug)]
pub enum EnemyType {
    Green,
    Red,
    Skin,
    White,
}

impl EnemyType {
    /// The sprite-sheet cell where this variant's animation starts.
    pub open spec fn base_sprite_index_spec(self) -> int {
        match self {
            EnemyType::Green => 16,
            EnemyType::Red => 24,
            EnemyType::Skin => 32,
            EnemyType::White => 40,
        }
    }

    pub fn get_base_sprite_index(&self) -> (idx: usize)
        ensures
            idx as int == self.base_sprite_index_spec(),
    {
        match self {
            EnemyType::Green => 16,
            EnemyType::Red => 24,
            EnemyType::Skin => 32,
            EnemyType::White => 40,
        }
    }

    /// A variant drawn at random; nothing is promised of which one.
    pub fn get_rand_enemy() -> (e: EnemyType) {
        let i: i64 = rand_in_range(0, 4);
        if i == 0 {
            EnemyType::Green
        } else if i == 1 {
            EnemyType::Red
        } else if i == 2 {
            EnemyType::Skin
        } else {
            EnemyType::White
        }
    }
}

/// One enemy entity with its attached data.
#[derive(Clone, Copy, PartialEq, Eq, Debug)]
pub struct EnemyEntity {
    pub enemy: Enemy,
    pub pos: Vec2I,
    pub variant: EnemyType,
    pub target: TargetDestination,
    pub selected: bool,
}

impl EnemyEntity {
    /// Positions stay within the entity coordinate bound; commanded
    /// destinations within the tighter destination bound.
    pub open spec fn wf(self) -> bool {
        &&& self.pos.bounded(POS_LIMIT as int + SPEED_LIMIT as int)
        &&& match self.target.0 {
            Some(d) => d.bounded(POS_LIMIT as int),
            None => true,
        }
    }
}

/// How many enemies one spawn pass creates: the cap deficit, at most the
/// per-interval rate, and none at or above the cap.
pub open spec fn spawn_count_spec(len: int, cfg: GameConfig) -> int {
    if len >= cfg.max_num_enemies {
        0int
    } else if cfg.max_num_enemies - len < cfg.spawn_rate_per_interval {
        cfg.max_num_enemies - len
    } else {
        cfg.spawn_rate_per_interval as int
    }
}

/// A just-spawned enemy: full health, no destination, unselected, and
/// placed in the spawn annulus around `origin`.
pub open spec fn fresh_enemy(e: EnemyEntity, origin: Vec2I, cfg: GameConfig) -> bool {
    &&& e.enemy.health == cfg.enemy_health
    &&& e.target.0 is None
    &&& !e.selected
    &&& cfg.spawn_min_radius * cfg.spawn_min_radius <= dist_sq(origin, e.pos)
        < cfg.spawn_max_radius * cfg.spawn_max_radius
    &&& e.pos.bounded(POS_LIMIT as int)
}

/// A random point of the annulus between the spawn radii around `pos`:
/// drawn by rejection from the enclosing square, falling back to the point
/// of the inner ring straight to the right when every try misses.
pub fn get_random_position_around(pos: Vec2I, cfg: &GameConfig) -> (p: Vec2I)
    requires
        cfg.wf(),
        pos.bounded(POS_LIMIT as int / 2),
    ensures
        cfg.spawn_min_radius * cfg.spawn_min_radius <= dist_sq(pos, p) < cfg.spawn_max_radius
            * cfg.spawn_max_radius,
        p.bounded(POS_LIMIT as int),
{
    let min_r: i64 = cfg.spawn_min_radius;
    let max_r: i64 = cfg.spawn_max_radius;
    proof {
        lemma_mul_upper_bound(min_r as int, 500_000_000int, min_r as int, 500_000_000int);
        lemma_mul_upper_bound(max_r as int, 500_000_000int, max_r as int, 500_000_000int);
        lemma_mul_nonnegative(min_r as int, min_r as int);
    }
    let min_sq: u64 = (min_r as u64) * (min_r as u64);
    let max_sq: u64 = (max_r as u64) * (max_r as u64);
    let mut tries: usize = 0;
    while tries < 32
        invariant
            cfg.wf(),
            pos.bounded(POS_LIMIT as int / 2),
            min_r == cfg.spawn_min_radius,
            max_r == cfg.spawn_max_radius,
            min_sq as int == min_r * min_r,
            max_sq as int == max_r * max_r,
        decreases 32 - tries,
    {
        let dx: i64 = rand_in_range(1 - max_r, max_r);
        let dy: i64 = rand_in_range(1 - max_r, max_r);
        let axu: u64 = abs_i64(dx);
        let ayu: u64 = abs_i64(dy);
        proof {
            lemma_mul_upper_bound(axu as int, 500_000_000int, axu as int, 500_000_000int);
            lemma_mul_upper_bound(ayu as int, 500_000_000int, ayu as int, 500_000_000int);
            lemma_abs_sq(dx as int);
            lemma_abs_sq(dy as int);
        }
        let d2: u64 = axu * axu + ayu * ayu;
        if min_sq <= d2 && d2 < max_sq {
            let p = Vec2I { x: pos.x + dx, y: pos.y + dy };
            proof {
                assert(dist_sq(pos, p) == d2 as int);
            }
            return p;
        }
        tries = tries + 1;
    }
    let p = Vec2I { x: pos.x + min_r, y: pos.y };
    proof {
        assert((p.y - pos.y) * (p.y - pos.y) == 0) by (nonlinear_arith)
            requires p.y == pos.y;
        assert(dist_sq(pos, p) == min_r * min_r);
        lemma_sq_order(min_r as int, max_r as int);
    }
    p
}

/// The spawn pass: tops the population up by at most the spawn rate, never
/// past the cap; at or past the cap nothing happens. Each new enemy starts
/// in the spawn annulus around `origin` with full health, a random
/// variant, no destination and no selection. In particular a population
/// within the cap stays within the cap.
pub fn spawn_enemies(enemies: &mut Vec<EnemyEntity>, origin: Vec2I, cfg: &GameConfig)
    requires
        cfg.wf(),
        origin.bounded(POS_LIMIT as int / 2),
    ensures
        final(enemies)@.len() == old(enemies)@.len() + spawn_count_spec(
            old(enemies)@.len() as int,
            *cfg,
        ),
        forall|i: int| 0 <= i < old(enemies)@.len() ==> final(enemies)@[i] == old(enemies)@[i],
        forall|i: int|
            old(enemies)@.len() <= i < final(enemies)@.len() ==> fresh_enemy(
                #[trigger] final(enemies)@[i],
                origin,
                *cfg,
            ),
        old(enemies)@.len() <= cfg.max_num_enemies ==> final(enemies)@.len()
            <= cfg.max_num_enemies,
        old(enemies)@.len() > cfg.max_num_enemies ==> final(enemies)@ == old(enemies)@,
{
    let num_enemies: usize = enemies.len();
    if num_enemies >= cfg.max_num_enemies {
        return ;
    }
    let deficit: usize = cfg.max_num_enemies - num_enemies;
    let count: usize = if deficit < cfg.spawn_rate_per_interval {
        deficit
    } else {
        cfg.spawn_rate_per_interval
    };
    let mut j: usize = 0;
    while j < count
        invariant
            j <= count,
            cfg.wf(),
            origin.bounded(POS_LIMIT as int / 2),
            count as int == spawn_count_spec(old(enemies)@.len() as int, *cfg),
            enemies@.len() == old(enemies)@.len() + j,
            forall|i: int| 0 <= i < old(enemies)@.len() ==> enemies@[i] == old(enemies)@[i],
            forall|i: int|
                old(enemies)@.len() <= i < enemies@.len() ==> fresh_enemy(
                    #[trigger] enemies@[i],
                    origin,
                    *cfg,
                ),
        decreases count - j,
    {
        let p = get_random_position_around(origin, cfg);
        let variant = EnemyType::get_rand_enemy();
        enemies.push(
            EnemyEntity {
                enemy: Enemy { health: cfg.enemy_health },
                pos: p,
                variant,
                target: TargetDestination(None),
                selected: false,
            },
        );
        j = j + 1;
    }
}

/// Whether `post` is `pre` after one movement tick: untouched without a
/// destination; with one, displaced by one seek step toward it, which
/// brings it strictly closer whenever it is farther away than the step.
pub open spec fn moved_enemy(pre: EnemyEntity, post: EnemyEntity, speed: int) -> bool {
    match pre.target.0 {
        None => post == pre,
        Some(dest) => {
            &&& post.enemy == pre.enemy
            &&& post.variant == pre.variant
            &&& post.target == pre.target
            &&& post.selected == pre.selected
            &&& forall|dd: int|
                #[trigger] is_floor_sqrt(dist_sq(pre.pos, dest), dd) ==> post.pos.x as int
                    == seek_axis(pre.pos.x as int, dest.x as int, speed, dd) && post.pos.y as int
                    == seek_axis(pre.pos.y as int, dest.y as int, speed, dd)
            &&& within_overshoot(pre.pos.x as int, dest.x as int, post.pos.x as int, speed)
            &&& within_overshoot(pre.pos.y as int, dest.y as int, post.pos.y as int, speed)
            &&& (dist_sq(pre.pos, dest) > speed * speed ==> dist_sq(post.pos, dest) < dist_sq(
                pre.pos,
                dest,
            ))
        },
    }
}

/// One movement tick: every enemy with a commanded destination takes one
/// seek step toward it. There is no arrival check: an enemy within one
/// step of its destination overshoots and oscillates, as shipped.
pub fn update_enemies_movements_based_on_click_position(
    enemies: &mut Vec<EnemyEntity>,
    cfg: &GameConfig,
)
    requires
        cfg.wf(),
        forall|i: int| 0 <= i < old(enemies)@.len() ==> (#[trigger] old(enemies)@[i]).wf(),
    ensures
        final(enemies)@.len() == old(enemies)@.len(),
        forall|i: int|
            0 <= i < old(enemies)@.len() ==> moved_enemy(
                old(enemies)@[i],
                #[trigger] final(enemies)@[i],
                cfg.enemy_speed as int,
            ),
        forall|i: int| 0 <= i < final(enemies)@.len() ==> (#[trigger] final(enemies)@[i]).wf(),
{
    let n: usize = enemies.len();
    let mut i: usize = 0;
    while i < n
        invariant
            i <= n,
            n == enemies@.len() == old(enemies)@.len(),
            cfg.wf(),
            forall|k: int| 0 <= k < n ==> (#[trigger] old(enemies)@[k]).wf(),
            forall|k: int| i <= k < n ==> enemies@[k] == old(enemies)@[k],
            forall|k: int|
                0 <= k < i ==> moved_enemy(
                    old(enemies)@[k],
                    #[trigger] enemies@[k],
                    cfg.enemy_speed as int,
                ),
            forall|k: int| 0 <= k < i ==> (#[trigger] enemies@[k]).wf(),
        decreases n - i,
    {
        let e = enemies[i];
        if let Some(dest) = e.target.0 {
            let np = seek_step(e.pos, dest, cfg.enemy_speed as u64);
            let mut e2 = e;
            e2.pos = np;
            enemies[i] = e2;
        }
        i = i + 1;
    }
}

/// An enemy stays in the world while its health is above zero.
pub open spec fn alive(e: EnemyEntity) -> bool {
    e.enemy.health > 0
}

/// Despawns every enemy whose health has dropped to zero or below; the
/// survivors keep their order.
pub fn despawn_dead_enemies(enemies: &mut Vec<EnemyEntity>)
    ensures
        final(enemies)@ == old(enemies)@.filter(|e: EnemyEntity| alive(e)),
        (forall|i: int| 0 <= i < old(enemies)@.len() ==> (#[trigger] old(enemies)@[i]).wf())
            ==> (forall|i: int|
            0 <= i < final(enemies)@.len() ==> (#[trigger] final(enemies)@[i]).wf()),
        forall|i: int| 0 <= i < final(enemies)@.len() ==> alive(#[trigger] final(enemies)@[i]),
        final(enemies)@.len() <= old(enemies)@.len(),
{
    let n: usize = enemies.len();
    let mut kept: Vec<EnemyEntity> = Vec::new();
    let mut i: usize = 0;
    while i < n
        invariant
            i <= n,
            n == enemies@.len(),
            enemies@ == old(enemies)@,
            kept@ == old(enemies)@.subrange(0, i as int).filter(|e: EnemyEntity| alive(e)),
            kept@.len() <= i,
            forall|k: int| 0 <= k < kept@.len() ==> alive(#[trigger] kept@[k]),
            (forall|t: int| 0 <= t < n ==> (#[trigger] old(enemies)@[t]).wf()) ==> (forall|k: int|
                0 <= k < kept@.len() ==> (#[trigger] kept@[k]).wf()),
        decreases n - i,
    {
        let e = enemies[i];
        proof {
            let pred = |en: EnemyEntity| alive(en);
            let pre = old(enemies)@.subrange(0, i as int);
            let sing = seq![old(enemies)@[i as int]];
            assert(old(enemies)@.subrange(0, i as int + 1) =~= pre + sing);
            Seq::filter_distributes_over_add(pre, sing, pred);
            reveal_with_fuel(Seq::filter, 2);
            assert(sing.drop_last() =~= Seq::<EnemyEntity>::empty());
            if pred(old(enemies)@[i as int]) {
                assert(sing.filter(pred) =~= sing);
                assert(pre.filter(pred).push(old(enemies)@[i as int]) =~= pre.filter(pred) + sing);
            } else {
                assert(sing.filter(pred) =~= Seq::<EnemyEntity>::empty());
                assert(pre.filter(pred) + sing.filter(pred) =~= pre.filter(pred));
            }
        }
        if e.enemy.health > 0 {
            kept.push(e);
        }
        i = i + 1;
    }
    proof {
        assert(old(enemies)@.subrange(0, n as int) =~= old(enemies)@);
    }
    *enemies = kept;
}

} // verus!

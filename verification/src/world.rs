//! World generation: decorations and trees held at a target density
//! around the camera, plus the container for everything the game owns.

use vstd::prelude::*;
use crate::camera::camera_follow_player;
use crate::configs::{GameConfig, EVENTS_LIMIT, HEALTH_LIMIT};
use crate::controls::BoxSelection;
use crate::enemy::{
    EnemyEntity, alive, despawn_dead_enemies, spawn_enemies,
    update_enemies_movements_based_on_click_position,
};
use crate::geometry::{Vec2I, abs_i64, in_bounds, in_window, POS_LIMIT, SPEED_LIMIT};
use crate::player::{
    InputState, Player, PlayerEnemyCollisionEvent, handle_player_death,
    handle_player_enemy_collision_events, handle_player_input, spawn_player,
};
use crate::rng::rand_in_range;
use crate::state::{GameState, StateFlow, in_game_spec};

verus! {

use vstd::arithmetic::mul::{lemma_mul_nonnegative, lemma_mul_upper_bound};

/// Scenery positions stay within this bound.
pub const SCENERY_LIMIT: i64 = 2_000_000_000;

/// The cosmetic variant of a ground decoration.
#[derive(Clone, Copy, PartialEq, Eq, Structural, Debug)]
pub enum DecorationType {
    Decoration1,
    Decoration2,
    Decoration3,
    Decoration4,
    Decoration5,
    Decoration6,
}

impl DecorationType {
    /// The sprite-sheet cell of this variant.
    pub open spec fn base_sprite_index_spec(self) -> int {
        match self {
            DecorationType::Decoration1 => 48,
            DecorationType::Decoration2 => 49,
            DecorationType::Decoration3 => 50,
            DecorationType::Decoration4 => 51,
            DecorationType::Decoration5 => 52,
            DecorationType::Decoration6 => 53,
        }
    }

    pub fn get_base_sprite_index(&self) -> (idx: usize)
        ensures
            idx as int == self.base_sprite_index_spec(),
    {
        match self {
            DecorationType::Decoration1 => 48,
            DecorationType::Decoration2 => 49,
            DecorationType::Decoration3 => 50,
            DecorationType::Decoration4 => 51,
            DecorationType::Decoration5 => 52,
            DecorationType::Decoration6 => 53,
        }
    }

    /// A variant drawn at random; nothing is promised of which one.
    pub fn get_rand_decoration() -> (d: DecorationType) {
        let i: i64 = crate::rng::rand_in_range(0, 6);
        if i == 0 {
            DecorationType::Decoration1
        } else if i == 1 {
            DecorationType::Decoration2
        } else if i == 2 {
            DecorationType::Decoration3
        } else if i == 3 {
            DecorationType::Decoration4
        } else if i == 4 {
            DecorationType::Decoration5
        } else {
            DecorationType::Decoration6
        }
    }
}

/// A purely cosmetic ground decoration. `game_tag` marks the ones placed
/// by game initialization, which leave together with the game entities.
#[derive(Clone, Copy, PartialEq, Eq, Structural, Debug)]
pub struct Decoration {
    pub pos: Vec2I,
    pub kind: DecorationType,
    pub game_tag: bool,
}

impl Decoration {
    pub open spec fn wf(self) -> bool {
        self.pos.bounded(SCENERY_LIMIT as int)
    }
}

/// The two tree sizes; both are static obstacles.
#[derive(Clone, Copy, PartialEq, Eq, Structural, Debug)]
pub enum TreeKind {
    Big,
    Small,
}

/// A tree: scenery with a fixed collider.
#[derive(Clone, Copy, PartialEq, Eq, Structural, Debug)]
pub struct Tree {
    pub pos: Vec2I,
    pub kind: TreeKind,
}

impl Tree {
    pub open spec fn wf(self) -> bool {
        self.pos.bounded(SCENERY_LIMIT as int)
    }
}

/// `p` lies within the camera window: half the world's extents on each
/// side of the camera.
pub open spec fn within_camera_view(camera: Vec2I, p: Vec2I, cfg: GameConfig) -> bool {
    in_window(camera, p, cfg.world_w as int / 2, cfg.world_h as int / 2)
}

pub fn is_within_camera_view(camera: &Vec2I, p: &Vec2I, cfg: &GameConfig) -> (r: bool)
    requires
        cfg.wf(),
        camera.bounded(SCENERY_LIMIT as int),
        p.bounded(SCENERY_LIMIT as int),
    ensures
        r == within_camera_view(*camera, *p, *cfg),
{
    let hw: u64 = (cfg.world_w as u64) / 2;
    let hh: u64 = (cfg.world_h as u64) / 2;
    let dx: u64 = abs_i64(p.x - camera.x);
    let dy: u64 = abs_i64(p.y - camera.y);
    dx <= hw && dy <= hh
}

/// How many of the decorations lie within the camera window.
pub open spec fn visible_decorations(s: Seq<Decoration>, camera: Vec2I, cfg: GameConfig) -> int
    decreases s.len(),
{
    if s.len() == 0 {
        0int
    } else {
        visible_decorations(s.drop_last(), camera, cfg) + (if within_camera_view(
            camera,
            s.last().pos,
            cfg,
        ) {
            1int
        } else {
            0int
        })
    }
}

/// How many of the trees lie within the camera window.
pub open spec fn visible_trees(s: Seq<Tree>, camera: Vec2I, cfg: GameConfig) -> int
    decreases s.len(),
{
    if s.len() == 0 {
        0int
    } else {
        visible_trees(s.drop_last(), camera, cfg) + (if within_camera_view(
            camera,
            s.last().pos,
            cfg,
        ) {
            1int
        } else {
            0int
        })
    }
}

proof fn lemma_visible_decorations_push(s: Seq<Decoration>, d: Decoration, camera: Vec2I, cfg: GameConfig)
    ensures
        visible_decorations(s.push(d), camera, cfg) == visible_decorations(s, camera, cfg) + (
        if within_camera_view(camera, d.pos, cfg) {
            1int
        } else {
            0int
        }),
{
    assert(s.push(d).drop_last() =~= s);
    assert(s.push(d).last() == d);
}

proof fn lemma_visible_trees_push(s: Seq<Tree>, t: Tree, camera: Vec2I, cfg: GameConfig)
    ensures
        visible_trees(s.push(t), camera, cfg) == visible_trees(s, camera, cfg) + (
        if within_camera_view(camera, t.pos, cfg) {
            1int
        } else {
            0int
        }),
{
    assert(s.push(t).drop_last() =~= s);
    assert(s.push(t).last() == t);
}

fn count_visible_decorations(decorations: &Vec<Decoration>, camera: Vec2I, cfg: &GameConfig) -> (cnt:
    usize)
    requires
        cfg.wf(),
        camera.bounded(POS_LIMIT as int + SPEED_LIMIT as int),
        forall|i: int| 0 <= i < decorations@.len() ==> (#[trigger] decorations@[i]).wf(),
    ensures
        cnt as int == visible_decorations(decorations@, camera, *cfg),
{
    let n: usize = decorations.len();
    let mut cnt: usize = 0;
    let mut i: usize = 0;
    while i < n
        invariant
            i <= n,
            n == decorations@.len(),
            cfg.wf(),
            camera.bounded(POS_LIMIT as int + SPEED_LIMIT as int),
            forall|k: int| 0 <= k < n ==> (#[trigger] decorations@[k]).wf(),
            cnt as int == visible_decorations(decorations@.subrange(0, i as int), camera, *cfg),
            cnt <= i,
        decreases n - i,
    {
        proof {
            lemma_visible_decorations_push(
                decorations@.subrange(0, i as int),
                decorations@[i as int],
                camera,
                *cfg,
            );
            assert(decorations@.subrange(0, i as int + 1) =~= decorations@.subrange(
                0,
                i as int,
            ).push(decorations@[i as int]));
        }
        if is_within_camera_view(&camera, &decorations[i].pos, cfg) {
            cnt = cnt + 1;
        }
        i = i + 1;
    }
    proof {
        assert(decorations@.subrange(0, n as int) =~= decorations@);
    }
    cnt
}

fn count_visible_trees(trees: &Vec<Tree>, camera: Vec2I, cfg: &GameConfig) -> (cnt: usize)
    requires
        cfg.wf(),
        camera.bounded(POS_LIMIT as int + SPEED_LIMIT as int),
        forall|i: int| 0 <= i < trees@.len() ==> (#[trigger] trees@[i]).wf(),
    ensures
        cnt as int == visible_trees(trees@, camera, *cfg),
{
    let n: usize = trees.len();
    let mut cnt: usize = 0;
    let mut i: usize = 0;
    while i < n
        invariant
            i <= n,
            n == trees@.len(),
            cfg.wf(),
            camera.bounded(POS_LIMIT as int + SPEED_LIMIT as int),
            forall|k: int| 0 <= k < n ==> (#[trigger] trees@[k]).wf(),
            cnt as int == visible_trees(trees@.subrange(0, i as int), camera, *cfg),
            cnt <= i,
        decreases n - i,
    {
        proof {
            lemma_visible_trees_push(
                trees@.subrange(0, i as int),
                trees@[i as int],
                camera,
                *cfg,
            );
            assert(trees@.subrange(0, i as int + 1) =~= trees@.subrange(0, i as int).push(
                trees@[i as int],
            ));
        }
        if is_within_camera_view(&camera, &trees[i].pos, cfg) {
            cnt = cnt + 1;
        }
        i = i + 1;
    }
    proof {
        assert(trees@.subrange(0, n as int) =~= trees@);
    }
    cnt
}

/// One-shot initialization: scatters the configured number of decorations
/// over the whole world square around the origin, tagged as game entities.
pub fn init_world_decorations(decorations: &mut Vec<Decoration>, cfg: &GameConfig)
    requires
        cfg.wf(),
        forall|i: int| 0 <= i < old(decorations)@.len() ==> (#[trigger] old(decorations)@[i]).wf(),
    ensures
        final(decorations)@.len() == old(decorations)@.len() + cfg.num_world_decorations,
        forall|i: int|
            0 <= i < old(decorations)@.len() ==> final(decorations)@[i] == old(decorations)@[i],
        forall|i: int|
            old(decorations)@.len() <= i < final(decorations)@.len() ==> {
                let d = #[trigger] final(decorations)@[i];
                d.wf() && d.game_tag && in_window(
                    Vec2I { x: 0, y: 0 },
                    d.pos,
                    cfg.world_w as int,
                    cfg.world_h as int,
                )
            },
        forall|i: int| 0 <= i < final(decorations)@.len() ==> (#[trigger] final(decorations)@[i]).wf(),
{
    let n: usize = cfg.num_world_decorations;
    let mut j: usize = 0;
    while j < n
        invariant
            j <= n,
            cfg.wf(),
            decorations@.len() == old(decorations)@.len() + j,
            forall|i: int|
                0 <= i < old(decorations)@.len() ==> decorations@[i] == old(decorations)@[i],
            forall|i: int|
                old(decorations)@.len() <= i < decorations@.len() ==> {
                    let d = #[trigger] decorations@[i];
                    d.wf() && d.game_tag && in_window(
                        Vec2I { x: 0, y: 0 },
                        d.pos,
                        cfg.world_w as int,
                        cfg.world_h as int,
                    )
                },
            forall|i: int| 0 <= i < old(decorations)@.len() ==> (#[trigger] old(decorations)@[i]).wf(),
        decreases n - j,
    {
        let x: i64 = rand_in_range(-cfg.world_w, cfg.world_w);
        let y: i64 = rand_in_range(-cfg.world_h, cfg.world_h);
        let kind = DecorationType::get_rand_decoration();
        decorations.push(Decoration { pos: Vec2I { x, y }, kind, game_tag: true });
        j = j + 1;
    }
}

/// The density pass: counts the decorations inside the camera window and
/// spawns enough new ones, at random points of that window, to reach the
/// target count. At or above the target it spawns nothing, so a second
/// pass right after the first adds nothing.
pub fn spawn_world_decorations(decorations: &mut Vec<Decoration>, camera: Vec2I, cfg: &GameConfig)
    requires
        cfg.wf(),
        camera.bounded(POS_LIMIT as int + SPEED_LIMIT as int),
        forall|i: int| 0 <= i < old(decorations)@.len() ==> (#[trigger] old(decorations)@[i]).wf(),
    ensures
        forall|i: int|
            0 <= i < old(decorations)@.len() ==> final(decorations)@[i] == old(decorations)@[i],
        visible_decorations(final(decorations)@, camera, *cfg) >= cfg.num_world_decorations,
        visible_decorations(old(decorations)@, camera, *cfg) >= cfg.num_world_decorations
            ==> final(decorations)@ == old(decorations)@,
        final(decorations)@.len() == old(decorations)@.len() + (
        if visible_decorations(old(decorations)@, camera, *cfg) >= cfg.num_world_decorations {
            0int
        } else {
            cfg.num_world_decorations - visible_decorations(old(decorations)@, camera, *cfg)
        }),
        forall|i: int|
            old(decorations)@.len() <= i < final(decorations)@.len() ==> {
                let d = #[trigger] final(decorations)@[i];
                d.wf() && !d.game_tag && within_camera_view(camera, d.pos, *cfg)
            },
        forall|i: int| 0 <= i < final(decorations)@.len() ==> (#[trigger] final(decorations)@[i]).wf(),
{
    let cnt: usize = count_visible_decorations(decorations, camera, cfg);
    if cnt >= cfg.num_world_decorations {
        return ;
    }
    let needed: usize = cfg.num_world_decorations - cnt;
    let hw: i64 = ((cfg.world_w as u64) / 2) as i64;
    let hh: i64 = ((cfg.world_h as u64) / 2) as i64;
    let mut j: usize = 0;
    while j < needed
        invariant
            j <= needed,
            cfg.wf(),
            camera.bounded(POS_LIMIT as int + SPEED_LIMIT as int),
            hw as int == cfg.world_w as int / 2,
            hh as int == cfg.world_h as int / 2,
            cnt as int + needed == cfg.num_world_decorations,
            cnt as int == visible_decorations(old(decorations)@, camera, *cfg),
            decorations@.len() == old(decorations)@.len() + j,
            visible_decorations(decorations@, camera, *cfg) == cnt + j,
            forall|i: int|
                0 <= i < old(decorations)@.len() ==> decorations@[i] == old(decorations)@[i],
            forall|i: int|
                old(decorations)@.len() <= i < decorations@.len() ==> {
                    let d = #[trigger] decorations@[i];
                    d.wf() && !d.game_tag && within_camera_view(camera, d.pos, *cfg)
                },
            forall|i: int| 0 <= i < old(decorations)@.len() ==> (#[trigger] old(decorations)@[i]).wf(),
        decreases needed - j,
    {
        let x: i64 = rand_in_range(camera.x - hw, camera.x + hw + 1);
        let y: i64 = rand_in_range(camera.y - hh, camera.y + hh + 1);
        let kind = DecorationType::get_rand_decoration();
        let d = Decoration { pos: Vec2I { x, y }, kind, game_tag: false };
        proof {
            lemma_visible_decorations_push(decorations@, d, camera, *cfg);
        }
        decorations.push(d);
        j = j + 1;
    }
}

/// The tree density pass: as for decorations, except that one random tree
/// size is drawn for the whole pass, so all trees added by one pass share
/// their kind.
pub fn spawn_world_trees(trees: &mut Vec<Tree>, camera: Vec2I, cfg: &GameConfig)
    requires
        cfg.wf(),
        camera.bounded(POS_LIMIT as int + SPEED_LIMIT as int),
        forall|i: int| 0 <= i < old(trees)@.len() ==> (#[trigger] old(trees)@[i]).wf(),
    ensures
        forall|i: int| 0 <= i < old(trees)@.len() ==> final(trees)@[i] == old(trees)@[i],
        visible_trees(final(trees)@, camera, *cfg) >= cfg.num_world_trees,
        visible_trees(old(trees)@, camera, *cfg) >= cfg.num_world_trees ==> final(trees)@ == old(trees)@,
        final(trees)@.len() == old(trees)@.len() + (
        if visible_trees(old(trees)@, camera, *cfg) >= cfg.num_world_trees {
            0int
        } else {
            cfg.num_world_trees - visible_trees(old(trees)@, camera, *cfg)
        }),
        forall|i: int|
            old(trees)@.len() <= i < final(trees)@.len() ==> {
                let t = #[trigger] final(trees)@[i];
                t.wf() && within_camera_view(camera, t.pos, *cfg)
            },
        forall|i: int, k: int|
            old(trees)@.len() <= i < final(trees)@.len() && old(trees)@.len() <= k < final(trees)@.len() ==> #[trigger] final(trees)@[i].kind == #[trigger] final(trees)@[k].kind,
        forall|i: int| 0 <= i < final(trees)@.len() ==> (#[trigger] final(trees)@[i]).wf(),
{
    let cnt: usize = count_visible_trees(trees, camera, cfg);
    let kind_draw: i64 = rand_in_range(0, 2);
    let kind = if kind_draw == 0 {
        TreeKind::Big
    } else {
        TreeKind::Small
    };
    if cnt >= cfg.num_world_trees {
        return ;
    }
    let needed: usize = cfg.num_world_trees - cnt;
    let hw: i64 = ((cfg.world_w as u64) / 2) as i64;
    let hh: i64 = ((cfg.world_h as u64) / 2) as i64;
    let mut j: usize = 0;
    while j < needed
        invariant
            j <= needed,
            cfg.wf(),
            camera.bounded(POS_LIMIT as int + SPEED_LIMIT as int),
            hw as int == cfg.world_w as int / 2,
            hh as int == cfg.world_h as int / 2,
            cnt as int + needed == cfg.num_world_trees,
            cnt as int == visible_trees(old(trees)@, camera, *cfg),
            trees@.len() == old(trees)@.len() + j,
            visible_trees(trees@, camera, *cfg) == cnt + j,
            forall|i: int| 0 <= i < old(trees)@.len() ==> trees@[i] == old(trees)@[i],
            forall|i: int|
                old(trees)@.len() <= i < trees@.len() ==> {
                    let t = #[trigger] trees@[i];
                    t.wf() && within_camera_view(camera, t.pos, *cfg) && t.kind == kind
                },
            forall|i: int| 0 <= i < old(trees)@.len() ==> (#[trigger] old(trees)@[i]).wf(),
        decreases needed - j,
    {
        let x: i64 = rand_in_range(camera.x - hw, camera.x + hw + 1);
        let y: i64 = rand_in_range(camera.y - hh, camera.y + hh + 1);
        let t = Tree { pos: Vec2I { x, y }, kind };
        proof {
            lemma_visible_trees_push(trees@, t, camera, *cfg);
        }
        trees.push(t);
        j = j + 1;
    }
}

/// Everything the game owns, handed explicitly to each system in place of
/// engine-managed global resources.
pub struct World {
    pub flow: StateFlow,
    pub player: Option<Player>,
    pub enemies: Vec<EnemyEntity>,
    pub decorations: Vec<Decoration>,
    pub trees: Vec<Tree>,
    pub camera: Vec2I,
    pub selection: Option<BoxSelection>,
}

/// A decoration placed by the density pass rather than by game
/// initialization; these outlive the game session.
pub open spec fn untagged(d: Decoration) -> bool {
    !d.game_tag
}

/// On leaving the game every game entity goes: the player, the enemies,
/// and the tagged decorations. The camera, the trees and the untagged
/// scenery stay.
pub fn despawn_all_game_entities(world: &mut World)
    ensures
        final(world).player is None,
        final(world).enemies@.len() == 0,
        final(world).decorations@ == old(world).decorations@.filter(|d: Decoration| untagged(d)),
        final(world).trees@ == old(world).trees@,
        final(world).flow == old(world).flow,
        final(world).camera == old(world).camera,
        final(world).selection is None,
{
    world.player = None;
    world.enemies = Vec::new();
    world.selection = None;
    let n: usize = world.decorations.len();
    let mut kept: Vec<Decoration> = Vec::new();
    let mut i: usize = 0;
    while i < n
        invariant
            i <= n,
            n == world.decorations@.len(),
            world.decorations@ == old(world).decorations@,
            kept@ == old(world).decorations@.subrange(0, i as int).filter(
                |d: Decoration| untagged(d),
            ),
        decreases n - i,
    {
        let d = world.decorations[i];
        proof {
            let pred = |dd: Decoration| untagged(dd);
            let pre = old(world).decorations@.subrange(0, i as int);
            let sing = seq![old(world).decorations@[i as int]];
            assert(old(world).decorations@.subrange(0, i as int + 1) =~= pre + sing);
            Seq::filter_distributes_over_add(pre, sing, pred);
            reveal_with_fuel(Seq::filter, 2);
            assert(sing.drop_last() =~= Seq::<Decoration>::empty());
            if pred(old(world).decorations@[i as int]) {
                assert(sing.filter(pred) =~= sing);
                assert(pre.filter(pred) + sing =~= pre.filter(pred).push(
                    old(world).decorations@[i as int],
                ));
            } else {
                assert(sing.filter(pred) =~= Seq::<Decoration>::empty());
                assert(pre.filter(pred) + sing.filter(pred) =~= pre.filter(pred));
            }
        }
        if !d.game_tag {
            kept.push(d);
        }
        i = i + 1;
    }
    proof {
        assert(old(world).decorations@.subrange(0, n as int) =~= old(world).decorations@);
    }
    world.decorations = kept;
}

/// What the engine shell hands one scheduled tick: the key snapshot, the
/// tick's buffered player-enemy contact events, whether the enemy spawn
/// interval elapsed, and whether the menu asked to start the game.
pub struct TickInput {
    pub keys: InputState,
    pub collision_events: Vec<PlayerEnemyCollisionEvent>,
    pub spawn_timer_fired: bool,
    pub start_requested: bool,
}

/// The gameplay entities of `b` are exactly those of `a`.
pub open spec fn same_entities(a: World, b: World) -> bool {
    &&& b.player == a.player
    &&& b.enemies@ == a.enemies@
    &&& b.decorations@ == a.decorations@
    &&& b.trees@ == a.trees@
    &&& b.camera == a.camera
    &&& b.selection == a.selection
}

impl World {
    /// The whole-world invariant that every tick preserves: coordinates in
    /// bounds, health within its limits and positive while the game runs,
    /// and no transition pending between ticks.
    pub open spec fn wf(self) -> bool {
        &&& self.camera.bounded(POS_LIMIT as int + SPEED_LIMIT as int)
        &&& (self.flow.next is None)
        &&& match self.player {
            Some(p) => {
                &&& p.pos.bounded(POS_LIMIT as int + SPEED_LIMIT as int)
                &&& -1_000_000_000_000_000 <= p.health.0 <= HEALTH_LIMIT
                &&& (in_game_spec(self.flow) ==> p.health.0 > 0)
            },
            None => true,
        }
        &&& (forall|i: int| 0 <= i < self.enemies@.len() ==> (#[trigger] self.enemies@[i]).wf())
        &&& (forall|i: int|
            0 <= i < self.decorations@.len() ==> (#[trigger] self.decorations@[i]).wf())
        &&& (forall|i: int| 0 <= i < self.trees@.len() ==> (#[trigger] self.trees@[i]).wf())
        &&& match self.selection {
            Some(b) => b.wf(),
            None => true,
        }
    }

    /// A fresh world: loading, empty, camera at the origin.
    pub fn new() -> (w: World)
        ensures
            w.wf(),
            w.flow.current == GameState::Loading,
            (w.player is None),
            w.enemies@.len() == 0,
            w.decorations@.len() == 0,
            w.trees@.len() == 0,
            w.camera == (Vec2I { x: 0, y: 0 }),
    {
        World {
            flow: StateFlow::new(),
            player: None,
            enemies: Vec::new(),
            decorations: Vec::new(),
            trees: Vec::new(),
            camera: Vec2I { x: 0, y: 0 },
            selection: None,
        }
    }

    /// One scheduled tick. Outside the game the state machine alone moves:
    /// loading completes into the main menu, the menu starts the game on
    /// request, and game initialization places the player and the initial
    /// scenery. In game the systems run in a fixed order: camera follow,
    /// player movement, enemy movement, the spawn pass on its timer,
    /// collision damage, the death check, despawning of the dead, and the
    /// scenery density passes. A transition requested during the tick
    /// takes effect at its very end, so gated systems still see the tick's
    /// opening state.
    pub fn tick(&mut self, input: &TickInput, cfg: &GameConfig)
        requires
            old(self).wf(),
            cfg.wf(),
            input.collision_events@.len() <= EVENTS_LIMIT,
        ensures
            final(self).wf(),
            old(self).flow.current == GameState::Loading ==> final(self).flow.current
                == GameState::MainMenu && same_entities(*old(self), *final(self)),
            old(self).flow.current == GameState::MainMenu ==> final(self).flow.current == (
            if input.start_requested {
                GameState::GameInit
            } else {
                GameState::MainMenu
            }) && same_entities(*old(self), *final(self)),
            old(self).flow.current == GameState::GameInit ==> final(self).flow.current
                == GameState::InGame && (final(self).player is Some) && final(self).player->0.health.0 == cfg.player_health && final(self).player->0.pos == (Vec2I {
                x: 0,
                y: 0,
            }) && final(self).enemies@ == old(self).enemies@ && final(self).decorations@.len()
                == old(self).decorations@.len() + cfg.num_world_decorations,
            old(self).flow.current == GameState::InGame ==> {
                let damaged = (old(self).player is Some) && old(self).player->0.health.0 - input.collision_events@.len()
                    * cfg.enemy_damage <= 0;
                &&& (old(self).enemies@.len() <= cfg.max_num_enemies ==> final(self).enemies@.len()
                    <= cfg.max_num_enemies)
                &&& (forall|i: int|
                    0 <= i < final(self).enemies@.len() ==> alive(
                        #[trigger] final(self).enemies@[i],
                    ))
                &&& ((old(self).player is Some) ==> (final(self).player is Some) && final(self).player->0.health.0 == old(self).player->0.health.0
                    - input.collision_events@.len() * cfg.enemy_damage)
                &&& ((old(self).player is None) ==> final(self).player == old(self).player)
                &&& ((old(self).player is Some) ==> final(self).camera.x as int == old(self).camera.x + crate::camera::blend_step(
                    old(self).player->0.pos.x - old(self).camera.x,
                ) && final(self).camera.y as int == old(self).camera.y
                    + crate::camera::blend_step(old(self).player->0.pos.y - old(self).camera.y))
                &&& ((old(self).player is None) ==> final(self).camera == old(self).camera)
                &&& visible_decorations(final(self).decorations@, final(self).camera, *cfg)
                    >= cfg.num_world_decorations
                &&& visible_trees(final(self).trees@, final(self).camera, *cfg)
                    >= cfg.num_world_trees
                &&& (damaged ==> final(self).flow.current == GameState::MainMenu && !in_game_spec(
                    final(self).flow,
                ))
                &&& (!damaged ==> final(self).flow.current == GameState::InGame)
            },
    {
        if self.flow.current == GameState::Loading {
            // Asset acquisition itself happens in the shell; the flow
            // advances once it is requested.
            self.flow.set_next(GameState::MainMenu);
            self.flow.apply_next();
            return ;
        }
        if self.flow.current == GameState::MainMenu {
            if input.start_requested {
                self.flow.set_next(GameState::GameInit);
            }
            self.flow.apply_next();
            return ;
        }
        if self.flow.current == GameState::GameInit {
            let p = spawn_player(&mut self.flow, cfg);
            self.player = Some(p);
            init_world_decorations(&mut self.decorations, cfg);
            self.flow.apply_next();
            return ;
        }
        if let Some(p) = self.player {
            camera_follow_player(&mut self.camera, p.pos);
        }
        if let Some(mut p) = self.player {
            if in_bounds(&p.pos, POS_LIMIT) {
                handle_player_input(&mut p, input.keys, cfg);
            }
            self.player = Some(p);
        }
        update_enemies_movements_based_on_click_position(&mut self.enemies, cfg);
        if input.spawn_timer_fired {
            spawn_enemies(&mut self.enemies, Vec2I { x: 0, y: 0 }, cfg);
        }
        if let Some(mut p) = self.player {
            proof {
                lemma_mul_upper_bound(
                    input.collision_events@.len() as int,
                    1_000_000int,
                    cfg.enemy_damage as int,
                    1_000_000_000int,
                );
                lemma_mul_nonnegative(
                    input.collision_events@.len() as int,
                    cfg.enemy_damage as int,
                );
            }
            handle_player_enemy_collision_events(&mut p, &input.collision_events, cfg);
            handle_player_death(&p, &mut self.flow);
            self.player = Some(p);
        }
        despawn_dead_enemies(&mut self.enemies);
        spawn_world_decorations(&mut self.decorations, self.camera, cfg);
        spawn_world_trees(&mut self.trees, self.camera, cfg);
        self.flow.apply_next();
    }
}

} // verus!

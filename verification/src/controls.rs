//! Mouse-driven control: commanding destinations and the drag-box
//! selection state machine. The physics collaborator reports which
//! entities the drag box overlaps; here those reports become the
//! selected set, and a right-click turns the selection into move orders.

use vstd::prelude::*;
use crate::enemy::EnemyEntity;
use crate::geometry::{Vec2I, POS_LIMIT, abs_i64, div_toward_zero};

verus! {

/// A commanded destination, set by right-click for selected entities and
/// consumed by enemy movement.
#[derive(Clone, Copy, PartialEq, Eq, Debug)]
pub struct TargetDestination(pub Option<Vec2I>);

/// The cursor projected into world space by the shell, refreshed each
/// tick; None while no projection exists.
#[derive(Clone, Copy, PartialEq, Eq, Debug)]
pub struct CursorPosition(pub Option<Vec2I>);

/// On a right-click with the cursor projected into the world, every
/// selected enemy is commanded to move there; otherwise, and for
/// unselected enemies, nothing changes.
pub fn update_target_destination(
    enemies: &mut Vec<EnemyEntity>,
    cursor: &CursorPosition,
    right_clicked: bool,
)
    requires
        match cursor.0 {
            Some(c) => c.bounded(POS_LIMIT as int),
            None => true,
        },
    ensures
        final(enemies)@.len() == old(enemies)@.len(),
        (right_clicked && cursor.0 is Some) ==> forall|i: int|
            0 <= i < old(enemies)@.len() ==> #[trigger] final(enemies)@[i] == (if old(enemies)@[i].selected {
                EnemyEntity { target: TargetDestination(cursor.0), ..old(enemies)@[i] }
            } else {
                old(enemies)@[i]
            }),
        !(right_clicked && cursor.0 is Some) ==> final(enemies)@ == old(enemies)@,
        forall|i: int|
            0 <= i < old(enemies)@.len() && (#[trigger] old(enemies)@[i]).wf()
                ==> final(enemies)@[i].wf(),
{
    if !right_clicked {
        return ;
    }
    if let Some(c) = cursor.0 {
        let n: usize = enemies.len();
        let mut i: usize = 0;
        while i < n
            invariant
                i <= n,
                n == enemies@.len() == old(enemies)@.len(),
                c.bounded(POS_LIMIT as int),
                cursor.0 == Some(c),
                forall|k: int| i <= k < n ==> enemies@[k] == old(enemies)@[k],
                forall|k: int|
                    0 <= k < i ==> #[trigger] enemies@[k] == (if old(enemies)@[k].selected {
                        EnemyEntity { target: TargetDestination(Some(c)), ..old(enemies)@[k] }
                    } else {
                        old(enemies)@[k]
                    }),
            decreases n - i,
        {
            if enemies[i].selected {
                let mut e = enemies[i];
                e.target = TargetDestination(Some(c));
                enemies[i] = e;
            }
            i = i + 1;
        }
    }
}

/// The transient mouse-drag selection box: its two corners, and the
/// indices of the entities its sensor volume currently overlaps, as
/// reported by the physics collaborator through begin and stop events.
#[derive(PartialEq, Eq, Debug)]
pub struct BoxSelection {
    pub start: Vec2I,
    pub end: Vec2I,
    pub selected: Vec<usize>,
}

impl BoxSelection {
    /// The overlap list holds each entity at most once.
    pub open spec fn wf(self) -> bool {
        forall|i: int, j: int|
            0 <= i < j < self.selected@.len() ==> self.selected@[i] != self.selected@[j]
    }

    /// The set of currently overlapped entities.
    pub open spec fn selected_set(self) -> Set<usize> {
        self.selected@.to_set()
    }
}

/// Drag-begin: a fresh box with both corners at the cursor and nothing
/// overlapped yet.
pub fn begin_drag(cursor: Vec2I) -> (b: BoxSelection)
    ensures
        b.start == cursor,
        b.end == cursor,
        b.selected_set() == Set::<usize>::empty(),
        b.wf(),
{
    let b = BoxSelection { start: cursor, end: cursor, selected: Vec::new() };
    proof {
        assert(b.selected@.to_set() =~= Set::<usize>::empty());
    }
    b
}

fn selected_contains(b: &BoxSelection, id: usize) -> (r: bool)
    ensures
        r == b.selected@.contains(id),
{
    let n: usize = b.selected.len();
    let mut i: usize = 0;
    while i < n
        invariant
            i <= n,
            n == b.selected@.len(),
            forall|k: int| 0 <= k < i ==> b.selected@[k] != id,
        decreases n - i,
    {
        if b.selected[i] == id {
            return true;
        }
        i = i + 1;
    }
    false
}

/// A begin-overlap event: the entity joins the overlap set (at most once,
/// whatever the collaborator reports).
pub fn on_overlap_started(b: &mut BoxSelection, id: usize)
    requires
        old(b).wf(),
    ensures
        final(b).wf(),
        final(b).start == old(b).start,
        final(b).end == old(b).end,
        final(b).selected_set() == old(b).selected_set().insert(id),
{
    let present = selected_contains(b, id);
    if !present {
        b.selected.push(id);
    }
    proof {
        if present {
            assert(old(b).selected@.to_set().contains(id));
            assert(final(b).selected@.to_set() =~= old(b).selected@.to_set().insert(id));
        } else {
            assert(final(b).selected@ == old(b).selected@.push(id));
            assert forall|x: usize| final(b).selected@.to_set().contains(x) implies old(b).selected@.to_set().insert(id).contains(x) by {
                let k = choose|k: int|
                    0 <= k < final(b).selected@.len() && final(b).selected@[k] == x;
                if k < old(b).selected@.len() {
                    assert(old(b).selected@[k] == x);
                }
            }
            assert forall|x: usize| old(b).selected@.to_set().insert(id).contains(x) implies final(b).selected@.to_set().contains(x) by {
                if x == id {
                    assert(final(b).selected@[old(b).selected@.len() as int] == x);
                } else {
                    let k = choose|k: int|
                        0 <= k < old(b).selected@.len() && old(b).selected@[k] == x;
                    assert(final(b).selected@[k] == x);
                }
            }
            assert(final(b).selected@.to_set() =~= old(b).selected@.to_set().insert(id));
        }
    }
}

/// A stop-overlap event: the entity leaves the overlap set.
pub fn on_overlap_stopped(b: &mut BoxSelection, id: usize)
    requires
        old(b).wf(),
    ensures
        final(b).wf(),
        final(b).start == old(b).start,
        final(b).end == old(b).end,
        final(b).selected_set() == old(b).selected_set().remove(id),
{
    let n: usize = b.selected.len();
    let mut i: usize = 0;
    while i < n
        invariant
            i <= n,
            n == b.selected@.len(),
            *b == *old(b),
            old(b).wf(),
            forall|k: int| 0 <= k < i ==> b.selected@[k] != id,
        decreases n - i,
    {
        if b.selected[i] == id {
            b.selected.remove(i);
            proof {
                let pre = old(b).selected@;
                let post = final(b).selected@;
                assert(post =~= pre.subrange(0, i as int) + pre.subrange(
                    i as int + 1,
                    pre.len() as int,
                ));
                assert forall|x: usize| post.to_set().contains(x) implies pre.to_set().remove(
                    id,
                ).contains(x) by {
                    let k = choose|k: int| 0 <= k < post.len() && post[k] == x;
                    if k < i {
                        assert(pre[k] == x);
                    } else {
                        assert(pre[k + 1] == x);
                    }
                }
                assert forall|x: usize| pre.to_set().remove(id).contains(x) implies post
                    .to_set().contains(x) by {
                    let k = choose|k: int| 0 <= k < pre.len() && pre[k] == x;
                    if k < i {
                        assert(post[k] == x);
                    } else {
                        assert(pre[i as int] == id);
                        assert(k != i);
                        assert(post[k - 1] == x);
                    }
                }
                assert(post.to_set() =~= pre.to_set().remove(id));
                assert forall|a: int, c: int| 0 <= a < c < post.len() implies post[a] != post[c] by {
                    if c < i {
                    } else if a < i {
                        assert(post[c] == pre[c + 1]);
                    } else {
                        assert(post[a] == pre[a + 1] && post[c] == pre[c + 1]);
                    }
                }
            }
            return ;
        }
        i = i + 1;
    }
    proof {
        assert(!old(b).selected@.to_set().contains(id));
        assert(final(b).selected@.to_set() =~= old(b).selected@.to_set().remove(id));
    }
}

/// Drag-motion: the far corner follows the cursor, and the sensor volume
/// is resized to the dragged rectangle: its half-extents and midpoint
/// (each coordinate halved rounding toward zero).
pub fn update_drag(b: &mut BoxSelection, cursor: Vec2I) -> (volume: (Vec2I, Vec2I))
    requires
        old(b).start.bounded(POS_LIMIT as int),
        cursor.bounded(POS_LIMIT as int),
    ensures
        final(b).start == old(b).start,
        final(b).selected == old(b).selected,
        final(b).end == cursor,
        old(b).wf() ==> final(b).wf(),
        volume.0.x as int == crate::geometry::abs_i(old(b).start.x - cursor.x) / 2,
        volume.0.y as int == crate::geometry::abs_i(old(b).start.y - cursor.y) / 2,
        volume.1.x as int == div_toward_zero(old(b).start.x + cursor.x, 2),
        volume.1.y as int == div_toward_zero(old(b).start.y + cursor.y, 2),
{
    b.end = cursor;
    let hx: i64 = (abs_i64(b.start.x - cursor.x) / 2) as i64;
    let hy: i64 = (abs_i64(b.start.y - cursor.y) / 2) as i64;
    let sumx: i64 = b.start.x + cursor.x;
    let sumy: i64 = b.start.y + cursor.y;
    let mx: i64 = if sumx >= 0 {
        ((sumx as u64) / 2) as i64
    } else {
        -((((-sumx) as u64) / 2) as i64)
    };
    let my: i64 = if sumy >= 0 {
        ((sumy as u64) / 2) as i64
    } else {
        -((((-sumy) as u64) / 2) as i64)
    };
    (Vec2I { x: hx, y: hy }, Vec2I { x: mx, y: my })
}

/// Drag-begin from the mouse handler: the previous selection is cleared
/// and a fresh box appears at the cursor.
pub fn mouse_drag_begin(selection: &mut Option<BoxSelection>, enemies: &mut Vec<EnemyEntity>, cursor: Vec2I)
    ensures
        (*final(selection) is Some),
        final(selection)->0.start == cursor,
        final(selection)->0.end == cursor,
        (final(selection)->0.selected_set() == Set::<usize>::empty()),
        final(selection)->0.wf(),
        final(enemies)@.len() == old(enemies)@.len(),
        forall|i: int|
            0 <= i < old(enemies)@.len() ==> #[trigger] final(enemies)@[i] == (EnemyEntity {
                selected: false,
                ..old(enemies)@[i]
            }),
{
    let n: usize = enemies.len();
    let mut i: usize = 0;
    while i < n
        invariant
            i <= n,
            n == enemies@.len() == old(enemies)@.len(),
            forall|k: int| i <= k < n ==> enemies@[k] == old(enemies)@[k],
            forall|k: int|
                0 <= k < i ==> #[trigger] enemies@[k] == (EnemyEntity {
                    selected: false,
                    ..old(enemies)@[k]
                }),
        decreases n - i,
    {
        let mut e = enemies[i];
        e.selected = false;
        enemies[i] = e;
        i = i + 1;
    }
    *selection = Some(begin_drag(cursor));
}

/// Drag-end from the mouse handler: the entities the box overlapped
/// become the selection, and the box is gone. Without an active box
/// nothing happens.
pub fn mouse_drag_end(selection: &mut Option<BoxSelection>, enemies: &mut Vec<EnemyEntity>)
    ensures
        (*final(selection) is None),
        ((*old(selection) is None) ==> final(enemies)@ == old(enemies)@),
        ((*old(selection) is Some) ==> final(enemies)@.len() == old(enemies)@.len() && (forall|i: int|
            0 <= i < old(enemies)@.len() ==> #[trigger] final(enemies)@[i] == (
            if old(selection)->0.selected_set().contains(i as usize) {
                EnemyEntity { selected: true, ..old(enemies)@[i] }
            } else {
                old(enemies)@[i]
            }))),
{
    let sel = selection.take();
    if let Some(b) = sel {
        let m: usize = b.selected.len();
        let mut j: usize = 0;
        while j < m
            invariant
                j <= m,
                m == b.selected@.len(),
                enemies@.len() == old(enemies)@.len(),
                forall|i: int|
                    0 <= i < enemies@.len() ==> #[trigger] enemies@[i] == (
                    if exists|k: int| 0 <= k < j && b.selected@[k] == i {
                        EnemyEntity { selected: true, ..old(enemies)@[i] }
                    } else {
                        old(enemies)@[i]
                    }),
            decreases m - j,
        {
            let id: usize = b.selected[j];
            if id < enemies.len() {
                let mut e = enemies[id];
                e.selected = true;
                enemies[id] = e;
                proof {
                    assert(b.selected@[j as int] == id);
                }
            }
            j = j + 1;
        }
        proof {
            assert(enemies@.len() == enemies.len());
            assert forall|i: int| 0 <= i < enemies@.len() implies #[trigger] final(enemies)@[i]
                == (if b.selected_set().contains(i as usize) {
                EnemyEntity { selected: true, ..old(enemies)@[i] }
            } else {
                old(enemies)@[i]
            }) by {
                if b.selected_set().contains(i as usize) {
                    assert(b.selected@.contains(i as usize));
                    let k = choose|k: int|
                        0 <= k < b.selected@.len() && b.selected@[k] == i as usize;
                    assert(0 <= k < m && b.selected@[k] == i);
                    assert(exists|kk: int| 0 <= kk < m && b.selected@[kk] == i);
                } else {
                    assert forall|kk: int| 0 <= kk < m implies b.selected@[kk] != i by {
                        if b.selected@[kk] == i {
                            assert(b.selected@[kk] == i as usize);
                            assert(b.selected@.contains(i as usize));
                        }
                    }
                }
            }
        }
    }
}

} // verus!

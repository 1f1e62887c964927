//! Camera follow: exponential smoothing toward the player's position.

use vstd::prelude::*;
use crate::configs::CAMERA_BLEND_DIV;
use crate::geometry::{Vec2I, abs_i64, div_toward_zero, within_overshoot, POS_LIMIT, SPEED_LIMIT};

verus! {

/// A tenth of the offset, rounded toward zero: the fixed-point rendering
/// of `diff * 0.1`.
pub open spec fn blend_step(diff: int) -> int {
    div_toward_zero(diff, CAMERA_BLEND_DIV as int)
}

/// One follow tick: the camera moves a tenth of the remaining offset
/// toward the target on each axis (new = old + (target - old) * 0.1), and
/// so stays on the segment between its old position and the target.
pub fn camera_follow_player(camera: &mut Vec2I, target: Vec2I)
    requires
        old(camera).bounded(POS_LIMIT as int + SPEED_LIMIT as int),
        target.bounded(POS_LIMIT as int + SPEED_LIMIT as int),
    ensures
        final(camera).x as int == old(camera).x + blend_step(target.x - old(camera).x),
        final(camera).y as int == old(camera).y + blend_step(target.y - old(camera).y),
        within_overshoot(old(camera).x as int, target.x as int, final(camera).x as int, 0),
        within_overshoot(old(camera).y as int, target.y as int, final(camera).y as int, 0),
        final(camera).bounded(POS_LIMIT as int + SPEED_LIMIT as int),
{
    let sx: u64 = abs_i64(target.x - camera.x);
    let sy: u64 = abs_i64(target.y - camera.y);
    let mx: i64 = (sx / (CAMERA_BLEND_DIV as u64)) as i64;
    let my: i64 = (sy / (CAMERA_BLEND_DIV as u64)) as i64;
    if target.x >= camera.x {
        camera.x = camera.x + mx;
    } else {
        camera.x = camera.x - mx;
    }
    if target.y >= camera.y {
        camera.y = camera.y + my;
    } else {
        camera.y = camera.y - my;
    }
}

} // verus!

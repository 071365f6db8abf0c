use vstd::prelude::*;
use crate::geometry::{isqrt, sqrt_floor};

verus! {

/// Shots closer together than this (milliseconds) are not taken.
pub const SHOT_COOLDOWN_MS: u64 = 100;

/// Arena size in micrometres: width, depth and height.
pub const ARENA_WIDTH: u64 = 200_000_000;
pub const ARENA_DEPTH: u64 = 200_000_000;
pub const ARENA_HEIGHT: u64 = 50_000_000;

/// Time since the player's last accepted shot.
#[derive(Clone, Copy, Debug, PartialEq, Eq, Structural)]
pub struct ShootTracker {
    /// Milliseconds since the last accepted shot.
    pub stopwatch: u64,
}

/// Points of the click-to-shoot mode: one up per target hit, one down per
/// shot that hits anything else or nothing.
#[derive(Clone, Copy, Debug, PartialEq, Eq, Structural)]
pub struct Points {
    pub value: i32,
}

/// Scores one shot: `hit` is `None` when the ray hit nothing, `Some(true)`
/// when it hit a target and `Some(false)` when it hit something else. Returns
/// whether a target was hit, which removes it and brings a new one.
pub fn process_hit_result(hit: Option<bool>, points: &mut Points) -> (r: bool)
    requires
        i32::MIN < old(points).value < i32::MAX,
    ensures
        r == (hit == Some(true)),
        final(points).value == old(points).value + if r { 1int } else { -1int },
{
    match hit {
        Some(true) => {
            points.value = points.value + 1;
            true
        },
        _ => {
            points.value = points.value - 1;
            false
        },
    }
}

/// Farthest a shot can travel: one and a half times the arena's diagonal
/// (its square root rounded down), in micrometres.
pub fn max_shot_distance() -> (r: u64)
    ensures
        r == sqrt_floor((ARENA_WIDTH * ARENA_WIDTH + ARENA_DEPTH * ARENA_DEPTH + ARENA_HEIGHT * ARENA_HEIGHT) as nat) * 3 / 2,
{
    let n: u128 = (ARENA_WIDTH as u128) * (ARENA_WIDTH as u128) + (ARENA_DEPTH as u128) * (ARENA_DEPTH as u128)
        + (ARENA_HEIGHT as u128) * (ARENA_HEIGHT as u128);
    let s = isqrt(n);
    assert(s <= 300_000_000) by (nonlinear_arith)
        requires s * s <= n, n == 82_500_000_000_000_000
    {
        if s > 300_000_000 {
            assert(s * s > 300_000_000 * 300_000_000) by (nonlinear_arith)
                requires s > 300_000_000;
        }
    }
    (s * 3 / 2) as u64
}

/// Advances the stopwatch by the frame time; while the fire button is
/// held and more than the cooldown has passed, a shot is taken and the
/// stopwatch restarts, hit or miss.
pub fn click_targets(shoot_tracker: &mut ShootTracker, dt: u64, fire_held: bool) -> (r: bool)
    requires
        old(shoot_tracker).stopwatch + dt <= u64::MAX,
    ensures
        r == (fire_held && old(shoot_tracker).stopwatch + dt > SHOT_COOLDOWN_MS),
        final(shoot_tracker).stopwatch == if r { 0 } else { (old(shoot_tracker).stopwatch + dt) as u64 },
{
    shoot_tracker.stopwatch = shoot_tracker.stopwatch + dt;
    if !fire_held {
        return false;
    }
    if shoot_tracker.stopwatch <= SHOT_COOLDOWN_MS {
        return false;
    }
    shoot_tracker.stopwatch = 0;
    true
}

} // verus!

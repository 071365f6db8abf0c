use vstd::prelude::*;
use crate::geometry::Vec3;
use crate::movement::{MovementPattern, PatternMovement, PLAY_Z_MIN};
use crate::random::random_between;
use crate::scenario::ScenarioType;

verus! {

/// Depth at which tracking and evasive targets start: 10 m in front of the
/// target wall.
pub const NEAR_WALL_Z: i64 = -90_000_000;
/// Most targets a dynamic-clicking scenario keeps up.
pub const DYNAMIC_TARGETS: usize = 3;
/// Chance, in thousandths per frame, that a missing dynamic target returns.
pub const TOP_UP_CHANCE: i64 = 100;

/// Where a new target appears and how it moves.
#[derive(Clone, Copy, Debug, PartialEq, Eq, Structural)]
pub struct TargetSpawn {
    pub position: Vec3,
    pub pattern: MovementPattern,
    /// Speed in micrometres per millisecond.
    pub max_speed: i64,
}

pub open spec fn spawn(x: int, y: int, z: int, pattern: MovementPattern, max_speed: int) -> TargetSpawn {
    TargetSpawn { position: Vec3 { x: x as i64, y: y as i64, z: z as i64 }, pattern, max_speed: max_speed as i64 }
}

/// A random spot in view: 5 m in front of the target wall, within the view's
/// width at that depth and 5 m clear of floor and ceiling.
pub open spec fn in_view_spot(p: Vec3) -> bool {
    &&& p.z == PLAY_Z_MIN
    &&& -95_000_000 <= p.x < 95_000_000
    &&& 5_000_000 <= p.y < 45_000_000
}

/// Three targets in a row at the given depth, 10 m up and 5 m higher each,
/// `spacing` apart around the middle.
pub open spec fn row(spacing: int, z: int, pattern: MovementPattern, speed: int) -> Seq<TargetSpawn> {
    seq![
        spawn(-spacing, 10_000_000, z, pattern, speed),
        spawn(0, 15_000_000, z, pattern, speed),
        spawn(spacing, 20_000_000, z, pattern, speed),
    ]
}

/// The fixed targets of each scenario; dynamic clicking has random ones
/// instead. Static clicking spreads five targets on an arc at 80% of the
/// distance to the wall (`76 m * cos(i * 72 degrees)`, rounded), at rising
/// heights.
pub open spec fn fixed_layout(t: ScenarioType) -> Seq<TargetSpawn> {
    match t {
        ScenarioType::DynamicClicking => seq![],
        ScenarioType::StaticClicking => seq![
            spawn(76_000_000, 10_000_000, PLAY_Z_MIN as int, MovementPattern::Static, 0),
            spawn(23_485_292, 13_000_000, PLAY_Z_MIN as int, MovementPattern::Static, 0),
            spawn(-61_485_292, 16_000_000, PLAY_Z_MIN as int, MovementPattern::Static, 0),
            spawn(-61_485_292, 19_000_000, PLAY_Z_MIN as int, MovementPattern::Static, 0),
            spawn(23_485_292, 22_000_000, PLAY_Z_MIN as int, MovementPattern::Static, 0),
        ],
        ScenarioType::LinearClicking => row(15_000_000, PLAY_Z_MIN as int, MovementPattern::Linear, 5_000),
        ScenarioType::PreciseTracking => seq![spawn(0, 15_000_000, NEAR_WALL_Z as int, MovementPattern::Circular, 3_000)],
        ScenarioType::ReactiveTracking => seq![spawn(0, 15_000_000, NEAR_WALL_Z as int, MovementPattern::Reactive, 15_000)],
        ScenarioType::ControlTracking => seq![spawn(0, 15_000_000, NEAR_WALL_Z as int, MovementPattern::Smooth, 8_000)],
        ScenarioType::SpeedSwitching => row(20_000_000, PLAY_Z_MIN as int, MovementPattern::Static, 0),
        ScenarioType::EvasiveSwitching => row(20_000_000, NEAR_WALL_Z as int, MovementPattern::Evasive, 12_000),
        ScenarioType::StabilitySwitching => row(20_000_000, PLAY_Z_MIN as int, MovementPattern::Static, 0),
    }
}

fn make(x: i64, y: i64, z: i64, pattern: MovementPattern, max_speed: i64) -> (r: TargetSpawn)
    ensures
        r == spawn(x as int, y as int, z as int, pattern, max_speed as int),
{
    TargetSpawn { position: Vec3 { x, y, z }, pattern, max_speed }
}

fn make_row(spacing: i64, z: i64, pattern: MovementPattern, speed: i64) -> (r: Vec<TargetSpawn>)
    requires
        0 <= spacing <= 20_000_000,
    ensures
        r@ == row(spacing as int, z as int, pattern, speed as int),
{
    let mut v: Vec<TargetSpawn> = Vec::new();
    v.push(make(-spacing, 10_000_000, z, pattern, speed));
    v.push(make(0, 15_000_000, z, pattern, speed));
    v.push(make(spacing, 20_000_000, z, pattern, speed));
    assert(v@ =~= row(spacing as int, z as int, pattern, speed as int));
    v
}

/// A random spot in view.
fn random_view_spot() -> (p: Vec3)
    ensures
        in_view_spot(p),
{
    let x = random_between(-95_000_000, 95_000_000);
    let y = random_between(5_000_000, 45_000_000);
    Vec3 { x, y, z: PLAY_Z_MIN }
}

/// A target at a random spot in view with the given movement.
pub fn spawn_target_in_fov(pattern: MovementPattern, max_speed: i64) -> (r: TargetSpawn)
    ensures
        in_view_spot(r.position),
        r.pattern == pattern && r.max_speed == max_speed,
{
    TargetSpawn { position: random_view_spot(), pattern, max_speed }
}

/// The targets that a scenario begins with.
pub fn spawn_scenario_targets(t: ScenarioType) -> (r: Vec<TargetSpawn>)
    ensures
        !(t is DynamicClicking) ==> r@ == fixed_layout(t),
        t is DynamicClicking ==> {
            &&& r@.len() == DYNAMIC_TARGETS
            &&& forall|i: int| 0 <= i < r@.len() ==> in_view_spot((#[trigger] r@[i]).position)
                && r@[i].pattern == MovementPattern::Random && r@[i].max_speed == 10_000
        },
{
    match t {
        ScenarioType::DynamicClicking => {
            let mut v: Vec<TargetSpawn> = Vec::new();
            let mut k: usize = 0;
            while k < DYNAMIC_TARGETS
                invariant
                    k <= DYNAMIC_TARGETS,
                    v@.len() == k,
                    forall|i: int| 0 <= i < v@.len() ==> in_view_spot((#[trigger] v@[i]).position)
                        && v@[i].pattern == MovementPattern::Random && v@[i].max_speed == 10_000,
                decreases DYNAMIC_TARGETS - k,
            {
                v.push(spawn_target_in_fov(MovementPattern::Random, 10_000));
                k = k + 1;
            }
            v
        },
        ScenarioType::StaticClicking => {
            let mut v: Vec<TargetSpawn> = Vec::new();
            v.push(make(76_000_000, 10_000_000, PLAY_Z_MIN, MovementPattern::Static, 0));
            v.push(make(23_485_292, 13_000_000, PLAY_Z_MIN, MovementPattern::Static, 0));
            v.push(make(-61_485_292, 16_000_000, PLAY_Z_MIN, MovementPattern::Static, 0));
            v.push(make(-61_485_292, 19_000_000, PLAY_Z_MIN, MovementPattern::Static, 0));
            v.push(make(23_485_292, 22_000_000, PLAY_Z_MIN, MovementPattern::Static, 0));
            assert(v@ =~= fixed_layout(t));
            v
        },
        ScenarioType::LinearClicking => make_row(15_000_000, PLAY_Z_MIN, MovementPattern::Linear, 5_000),
        ScenarioType::PreciseTracking => {
            let v = vec![make(0, 15_000_000, NEAR_WALL_Z, MovementPattern::Circular, 3_000)];
            assert(v@ =~= fixed_layout(t));
            v
        },
        ScenarioType::ReactiveTracking => {
            let v = vec![make(0, 15_000_000, NEAR_WALL_Z, MovementPattern::Reactive, 15_000)];
            assert(v@ =~= fixed_layout(t));
            v
        },
        ScenarioType::ControlTracking => {
            let v = vec![make(0, 15_000_000, NEAR_WALL_Z, MovementPattern::Smooth, 8_000)];
            assert(v@ =~= fixed_layout(t));
            v
        },
        ScenarioType::SpeedSwitching => make_row(20_000_000, PLAY_Z_MIN, MovementPattern::Static, 0),
        ScenarioType::EvasiveSwitching => make_row(20_000_000, NEAR_WALL_Z, MovementPattern::Evasive, 12_000),
        ScenarioType::StabilitySwitching => make_row(20_000_000, PLAY_Z_MIN, MovementPattern::Static, 0),
    }
}

/// A dynamic-clicking scenario brings a missing target back when fewer than
/// three are up and the frame's roll (in thousandths) falls under the chance.
pub open spec fn top_up_due(t: ScenarioType, target_count: usize, roll: i64) -> bool {
    t is DynamicClicking && target_count < DYNAMIC_TARGETS && roll < TOP_UP_CHANCE
}

pub fn should_top_up(t: ScenarioType, target_count: usize, roll: i64) -> (r: bool)
    ensures
        r == top_up_due(t, target_count, roll),
{
    match t {
        ScenarioType::DynamicClicking => target_count < DYNAMIC_TARGETS && roll < TOP_UP_CHANCE,
        _ => false,
    }
}

/// Per-frame target upkeep of a running scenario: a roll in `[0, 1000)` is
/// drawn, and a new random target comes exactly when `top_up_due` holds
/// for it (a dynamic-clicking scenario short of targets, one time in ten).
pub fn update_scenario_targets(t: ScenarioType, target_count: usize) -> (r: Option<TargetSpawn>)
    ensures
        exists|roll: i64| 0 <= roll < 1000 && ((r is Some) == top_up_due(t, target_count, roll)),
        r is Some ==> t is DynamicClicking && target_count < DYNAMIC_TARGETS,
        r matches Some(s) ==> in_view_spot(s.position) && s.pattern == MovementPattern::Random && s.max_speed == 10_000,
{
    if !should_top_up(t, target_count, 0) {
        assert(!top_up_due(t, target_count, 0));
        return None;
    }
    let roll = random_between(0, 1000);
    assert(0 <= roll < 1000);
    if should_top_up(t, target_count, roll) {
        Some(spawn_target_in_fov(MovementPattern::Random, 10_000))
    } else {
        None
    }
}

/// A replacement target after a hit: a random pattern out of static, linear,
/// circling and random, a random speed of 3 to 10 m/s for a moving one, at a
/// random spot in view.
pub fn spawn_random_target() -> (r: TargetSpawn)
    ensures
        in_view_spot(r.position),
        r.pattern is Static || r.pattern is Linear || r.pattern is Circular || r.pattern is Random,
        r.pattern is Static ==> r.max_speed == 0,
        !(r.pattern is Static) ==> 3_000 <= r.max_speed < 10_000,
{
    let pick = random_between(0, 4);
    let pattern = if pick == 0 {
        MovementPattern::Static
    } else if pick == 1 {
        MovementPattern::Linear
    } else if pick == 2 {
        MovementPattern::Circular
    } else {
        MovementPattern::Random
    };
    let max_speed = if pick == 0 { 0 } else { random_between(3_000, 10_000) };
    spawn_target_in_fov(pattern, max_speed)
}

/// The movement state a spawned target carries: none for a static one.
pub fn spawn_target_with_movement(s: &TargetSpawn) -> (r: Option<PatternMovement>)
    ensures
        s.pattern is Static <==> r is None,
        r matches Some(m) ==> m == (PatternMovement {
            velocity: Vec3 { x: 0, y: 0, z: 0 },
            pattern: s.pattern,
            timer: 0,
            start_position: s.position,
            max_speed: s.max_speed,
        }),
{
    match s.pattern {
        MovementPattern::Static => None,
        _ => Some(PatternMovement::new(s.pattern, s.position, s.max_speed)),
    }
}

} // verus!

use vstd::prelude::*;
use crate::geometry::{isqrt, sqrt_floor, is_sqrt_floor, lemma_mul_abs, Vec3};
use crate::random::random_between;

verus! {

/// Largest velocity component or speed, in micrometres per millisecond.
pub const SPEED_LIMIT: i64 = 0x8000_0000;

/// `n / d` rounded toward zero.
pub open spec fn trunc_div(n: int, d: int) -> int {
    if n >= 0 { n / d } else { -((-n) / d) }
}

pub fn trunc_div_exec(n: i128, d: i128) -> (r: i128)
    requires
        d > 0,
        n > i128::MIN,
    ensures
        r == trunc_div(n as int, d as int),
{
    if n >= 0 {
        ((n as u128) / (d as u128)) as i128
    } else {
        -(((-n) as u128 / (d as u128)) as i128)
    }
}

/// `lo` if `v < lo`, `hi` if `v > hi`, else `v`.
pub open spec fn clamp(v: int, lo: int, hi: int) -> int {
    if v < lo { lo } else if v > hi { hi } else { v }
}

/// One axis of a bounded move: outside `[lo, hi]` the velocity turns round
/// and the position is put back on the bound.
pub open spec fn bounce_axis(p: int, v: int, lo: int, hi: int) -> (int, int) {
    if p < lo || p > hi { (clamp(p, lo, hi), -v) } else { (p, v) }
}

/// An axis-aligned box.
#[derive(Clone, Copy, Debug, PartialEq, Eq, Structural)]
pub struct Bounds {
    pub min: Vec3,
    pub max: Vec3,
}

/// Movement of a target made by a spawner.
#[derive(Clone, Copy, Debug, PartialEq, Eq, Structural)]
pub enum TargetMovement {
    Static,
    /// Straight-line motion; with bounds, each axis bounces off its interval.
    Linear { velocity: Vec3, bounds: Option<Bounds> },
}

impl Default for TargetMovement {
    fn default() -> (r: Self)
        ensures
            r is Static,
    {
        TargetMovement::Static
    }
}

pub open spec fn bounds_ordered(lo: Vec3, hi: Vec3) -> bool {
    lo.x <= hi.x && lo.y <= hi.y && lo.z <= hi.z
}

pub open spec fn vec_in_box(p: Vec3, lo: Vec3, hi: Vec3) -> bool {
    lo.x <= p.x <= hi.x && lo.y <= p.y <= hi.y && lo.z <= p.z <= hi.z
}

impl TargetMovement {
    pub open spec fn well_formed(self) -> bool {
        match self {
            TargetMovement::Static => true,
            TargetMovement::Linear { velocity, bounds } => {
                &&& velocity.within(SPEED_LIMIT as int)
                &&& bounds matches Some(b) ==> bounds_ordered(b.min, b.max)
            },
        }
    }
}

/// Position after `dt` milliseconds at velocity `v` along one axis.
pub open spec fn moved(p: int, v: int, dt: nat) -> int {
    p + v * dt
}

/// Bound on a coordinate moved for one frame: a start within `i64` plus at
/// most `SPEED_LIMIT` times any `u64` frame time.
pub const MOVED_LIMIT: i128 = 0x1_0000_0000_0000_0000_0000_0000;

fn move_axis(p: i64, v: i64, dt: u64) -> (r: i128)
    requires
        -SPEED_LIMIT <= v <= SPEED_LIMIT,
    ensures
        r == moved(p as int, v as int, dt as nat),
        -MOVED_LIMIT <= r <= MOVED_LIMIT,
{
    proof {
        lemma_mul_abs(v as int, dt as int, SPEED_LIMIT as int, u64::MAX as int);
    }
    p as i128 + (v as i128) * (dt as i128)
}

fn clamp_exec(v: i128, lo: i128, hi: i128) -> (r: i128)
    requires
        lo <= hi,
    ensures
        r == clamp(v as int, lo as int, hi as int),
{
    if v < lo { lo } else if v > hi { hi } else { v }
}

fn bounce_exec(p: i128, v: i64, lo: i64, hi: i64) -> (r: (i64, i64))
    requires
        lo <= hi,
        -SPEED_LIMIT <= v <= SPEED_LIMIT,
    ensures
        (r.0 as int, r.1 as int) == bounce_axis(p as int, v as int, lo as int, hi as int),
        lo <= r.0 <= hi,
{
    if p < lo as i128 || p > hi as i128 {
        (clamp_exec(p, lo as i128, hi as i128) as i64, -v)
    } else {
        (p as i64, v)
    }
}

/// An unbounded linear move stays within the coordinate type.
pub open spec fn unbounded_move_fits(p: Vec3, m: TargetMovement, dt: nat) -> bool {
    match m {
        TargetMovement::Linear { velocity: v, bounds: None } => {
            &&& i64::MIN <= moved(p.x as int, v.x as int, dt) <= i64::MAX
            &&& i64::MIN <= moved(p.y as int, v.y as int, dt) <= i64::MAX
            &&& i64::MIN <= moved(p.z as int, v.z as int, dt) <= i64::MAX
        },
        _ => true,
    }
}

/// Advances a target by one frame. A linear target moves by its velocity
/// times `dt`; with bounds, each axis that ends up outside its interval has
/// its velocity component negated and its position clamped onto the interval,
/// while the other axes keep theirs.
pub fn update_target_movement(position: &mut Vec3, movement: &mut TargetMovement, dt: u64)
    requires
        old(movement).well_formed(),
        unbounded_move_fits(*old(position), *old(movement), dt as nat),
    ensures
        final(movement).well_formed(),
        match *old(movement) {
            TargetMovement::Static => *final(position) == *old(position) && *final(movement) == *old(movement),
            TargetMovement::Linear { velocity: v, bounds: None } => {
                &&& *final(movement) == *old(movement)
                &&& final(position).x == moved(old(position).x as int, v.x as int, dt as nat)
                &&& final(position).y == moved(old(position).y as int, v.y as int, dt as nat)
                &&& final(position).z == moved(old(position).z as int, v.z as int, dt as nat)
            },
            TargetMovement::Linear { velocity: v, bounds: Some(b) } => {
                let (lo, hi) = (b.min, b.max);
                let p = *old(position);
                let (px, vx) = bounce_axis(moved(p.x as int, v.x as int, dt as nat), v.x as int, lo.x as int, hi.x as int);
                let (py, vy) = bounce_axis(moved(p.y as int, v.y as int, dt as nat), v.y as int, lo.y as int, hi.y as int);
                let (pz, vz) = bounce_axis(moved(p.z as int, v.z as int, dt as nat), v.z as int, lo.z as int, hi.z as int);
                &&& final(position).x == px && final(position).y == py && final(position).z == pz
                &&& *final(movement) == (TargetMovement::Linear {
                    velocity: Vec3 { x: vx as i64, y: vy as i64, z: vz as i64 },
                    bounds: Some(b),
                })
                &&& vec_in_box(*final(position), lo, hi)
            },
        },
{
    match movement {
        TargetMovement::Static => {},
        TargetMovement::Linear { velocity, bounds } => {
            let nx = move_axis(position.x, velocity.x, dt);
            let ny = move_axis(position.y, velocity.y, dt);
            let nz = move_axis(position.z, velocity.z, dt);
            match bounds {
                None => {
                    *position = Vec3 { x: nx as i64, y: ny as i64, z: nz as i64 };
                },
                Some(b) => {
                    let (lo, hi) = (b.min, b.max);
                    let (px, vx) = bounce_exec(nx, velocity.x, lo.x, hi.x);
                    let (py, vy) = bounce_exec(ny, velocity.y, lo.y, hi.y);
                    let (pz, vz) = bounce_exec(nz, velocity.z, lo.z, hi.z);
                    *position = Vec3 { x: px, y: py, z: pz };
                    *velocity = Vec3 { x: vx, y: vy, z: vz };
                },
            }
        },
    }
}

/// Nearest depth (micrometres) of the band in front of the target wall that
/// moving targets keep to: 5 m in front of the wall of a 200 m deep arena.
pub const PLAY_Z_MIN: i64 = -95_000_000;
/// Farthest depth of that band, 30 m out from `PLAY_Z_MIN`.
pub const PLAY_Z_MAX: i64 = -65_000_000;
/// Lowest height of the band: 5 m above the floor.
pub const PLAY_Y_MIN: i64 = 5_000_000;
/// Highest height of the band: 5 m below the 50 m ceiling.
pub const PLAY_Y_MAX: i64 = 45_000_000;
/// Depth around which circling and figure-eight targets move.
pub const ORBIT_Z: i64 = -85_000_000;
/// Radius of a circling target's orbit.
pub const CIRCLE_RADIUS: i64 = 15_000_000;
/// Squared speed, in (micrometres per millisecond)^2, below which a target
/// counts as standing still.
pub const STILL_SPEED_SQ: i64 = 1000;
/// Time after which a randomly moving target picks a new direction.
pub const RANDOM_TURN_MS: u64 = 2000;
/// Time after which a reactive target picks a new direction.
pub const REACTIVE_TURN_MS: u64 = 500;
/// One, in the millionths in which a `Wave` is given.
pub const WAVE_UNIT: i64 = 1_000_000;

/// How a scenario target moves.
#[derive(Clone, Copy, Debug, PartialEq, Eq, Structural)]
pub enum MovementPattern {
    Static,
    Linear,
    Circular,
    Random,
    Reactive,
    Smooth,
    Evasive,
}

/// Movement state of a scenario target.
#[derive(Clone, Copy, Debug, PartialEq, Eq, Structural)]
pub struct PatternMovement {
    pub velocity: Vec3,
    pub pattern: MovementPattern,
    /// Milliseconds since the pattern started or last changed direction.
    pub timer: u64,
    pub start_position: Vec3,
    /// Speed in micrometres per millisecond.
    pub max_speed: i64,
}

/// Two trigonometric values in millionths that the periodic patterns need at
/// the current phase: a circling target takes `cos` and `sin` of its phase,
/// a figure-eight target `sin(2 phase)` and `sin(phase) cos(phase)`.
#[derive(Clone, Copy, Debug, PartialEq, Eq, Structural)]
pub struct Wave {
    pub a: i64,
    pub b: i64,
}

impl Wave {
    pub open spec fn well_formed(self) -> bool {
        -WAVE_UNIT <= self.a <= WAVE_UNIT && -WAVE_UNIT <= self.b <= WAVE_UNIT
    }
}

impl PatternMovement {
    pub open spec fn well_formed(self) -> bool {
        &&& self.velocity.within(SPEED_LIMIT as int)
        &&& 0 <= self.max_speed <= SPEED_LIMIT
    }

    /// A movement that starts at rest.
    pub fn new(pattern: MovementPattern, start_position: Vec3, max_speed: i64) -> (r: Self)
        ensures
            r == (PatternMovement { velocity: Vec3 { x: 0, y: 0, z: 0 }, pattern, timer: 0, start_position, max_speed }),
    {
        PatternMovement { velocity: Vec3 { x: 0, y: 0, z: 0 }, pattern, timer: 0, start_position, max_speed }
    }

    /// Phase, in micro-radians, of a periodic pattern: for a circling target
    /// its angle along the orbit (speed over orbit radius, times time), for a
    /// figure-eight target its time in seconds; zero for the other patterns.
    pub open spec fn phase_spec(self) -> nat {
        match self.pattern {
            MovementPattern::Circular => (self.timer * self.max_speed * 1_000_000 / (CIRCLE_RADIUS as int)) as nat,
            MovementPattern::Smooth => (self.timer * 1000) as nat,
            _ => 0,
        }
    }

    /// Phase of the pattern once its timer has advanced by `dt`; the caller
    /// turns it into the `Wave` of that frame.
    pub fn phase_after(&self, dt: u64) -> (r: u128)
        requires
            self.well_formed(),
            self.timer + dt <= u64::MAX,
        ensures
            r == (PatternMovement { timer: (self.timer + dt) as u64, ..*self }).phase_spec(),
    {
        let m = PatternMovement { timer: self.timer + dt, ..*self };
        m.phase()
    }

    pub fn phase(&self) -> (r: u128)
        requires
            self.well_formed(),
        ensures
            r == self.phase_spec(),
    {
        match self.pattern {
            MovementPattern::Circular => {
                proof {
                    lemma_mul_abs(self.timer as int, self.max_speed as int, u64::MAX as int, SPEED_LIMIT as int);
                    lemma_mul_abs(self.timer * self.max_speed, 1_000_000, u64::MAX * SPEED_LIMIT, 1_000_000);
                }
                (self.timer as u128) * (self.max_speed as u128) * 1_000_000 / (CIRCLE_RADIUS as u128)
            },
            MovementPattern::Smooth => (self.timer as u128) * 1000,
            _ => 0,
        }
    }
}

/// Absolute value. A 90 degree field of view reaches `abs(z)` to either
/// side at depth `z`.
pub open spec fn abs(z: int) -> int {
    if z < 0 { -z } else { z }
}

/// A moved point, given by unbounded coordinates, clamped into the playable
/// band in front of the target wall: depth and height into their intervals,
/// and the horizontal position within the view's width at the moved depth,
/// `[-abs(z), abs(z)]`.
pub open spec fn playable(x: int, y: int, z: int) -> Vec3 {
    Vec3 {
        x: clamp(x, -abs(z), abs(z)) as i64,
        y: clamp(y, PLAY_Y_MIN as int, PLAY_Y_MAX as int) as i64,
        z: clamp(z, PLAY_Z_MIN as int, PLAY_Z_MAX as int) as i64,
    }
}

/// The point lies in the playable band's depth and height intervals.
pub open spec fn in_band(p: Vec3) -> bool {
    &&& PLAY_Z_MIN <= p.z <= PLAY_Z_MAX
    &&& PLAY_Y_MIN <= p.y <= PLAY_Y_MAX
}

/// A moved point and its velocity after bouncing off the playable band:
/// each axis outside its interval (the horizontal one taken at the moved
/// depth) has its velocity negated, and the point is clamped into the band.
pub open spec fn playable_bounce(x: int, y: int, z: int, v: Vec3) -> (Vec3, Vec3) {
    let p = playable(x, y, z);
    (p, Vec3 {
        x: bounce_axis(x, v.x as int, -abs(z), abs(z)).1 as i64,
        y: bounce_axis(y, v.y as int, PLAY_Y_MIN as int, PLAY_Y_MAX as int).1 as i64,
        z: bounce_axis(z, v.z as int, PLAY_Z_MIN as int, PLAY_Z_MAX as int).1 as i64,
    })
}

fn abs_exec(z: i128) -> (r: i128)
    requires
        z > i128::MIN,
    ensures
        r == abs(z as int),
{
    if z < 0 { -z } else { z }
}

fn playable_exec(x: i128, y: i128, z: i128) -> (r: Vec3)
    requires
        (i64::MIN <= x <= i64::MAX) || abs(z as int) <= i64::MAX,
        z > i128::MIN,
    ensures
        r == playable(x as int, y as int, z as int),
        in_band(r),
        -abs(z as int) <= r.x <= abs(z as int),
{
    let cz = clamp_exec(z, PLAY_Z_MIN as i128, PLAY_Z_MAX as i128);
    let half: i128 = abs_exec(z);
    let cx = clamp_exec(x, -half, half);
    let cy = clamp_exec(y, PLAY_Y_MIN as i128, PLAY_Y_MAX as i128);
    Vec3 { x: cx as i64, y: cy as i64, z: cz as i64 }
}

fn flip_if_outside(p: i128, v: i64, lo: i128, hi: i128) -> (r: i64)
    requires
        -SPEED_LIMIT <= v <= SPEED_LIMIT,
        lo <= hi,
    ensures
        r == bounce_axis(p as int, v as int, lo as int, hi as int).1,
{
    if p < lo || p > hi { -v } else { v }
}

fn playable_bounce_exec(x: i128, y: i128, z: i128, v: Vec3) -> (r: (Vec3, Vec3))
    requires
        v.within(SPEED_LIMIT as int),
        i64::MIN <= x <= i64::MAX,
        z > i128::MIN,
    ensures
        r == playable_bounce(x as int, y as int, z as int, v),
        in_band(r.0),
        r.1.within(SPEED_LIMIT as int),
{
    let p = playable_exec(x, y, z);
    let half: i128 = abs_exec(z);
    let vx = flip_if_outside(x, v.x, -half, half);
    let vy = flip_if_outside(y, v.y, PLAY_Y_MIN as i128, PLAY_Y_MAX as i128);
    let vz = flip_if_outside(z, v.z, PLAY_Z_MIN as i128, PLAY_Z_MAX as i128);
    (p, Vec3 { x: vx, y: vy, z: vz })
}

/// `d` scaled to length `speed` (each component rounded toward zero, the
/// length taken as the rounded-down square root); the zero vector stays zero.
pub open spec fn scaled_to_speed(d: Vec3, speed: int) -> Vec3 {
    let n = (d.x * d.x + d.y * d.y + d.z * d.z) as nat;
    let s = sqrt_floor(n) as int;
    if s == 0 {
        Vec3 { x: 0, y: 0, z: 0 }
    } else {
        Vec3 {
            x: trunc_div(d.x * speed, s) as i64,
            y: trunc_div(d.y * speed, s) as i64,
            z: trunc_div(d.z * speed, s) as i64,
        }
    }
}

proof fn lemma_component_le_root(c: int, n: nat, s: nat)
    requires
        c * c <= n,
        is_sqrt_floor(n, s),
    ensures
        -s <= c <= s,
{
    if c > s {
        assert(c * c >= (s + 1) * (s + 1)) by (nonlinear_arith)
            requires c >= s + 1, s >= 0;
    }
    if c < -s {
        assert(c * c >= (s + 1) * (s + 1)) by (nonlinear_arith)
            requires -c >= s + 1, s >= 0;
    }
}

proof fn lemma_scaled_component(c: int, speed: int, s: int)
    requires
        -s <= c <= s,
        s > 0,
        0 <= speed,
    ensures
        -speed <= trunc_div(c * speed, s) <= speed,
{
    if c >= 0 {
        assert(c * speed <= s * speed) by (nonlinear_arith)
            requires c <= s, speed >= 0;
        assert(c * speed >= 0) by (nonlinear_arith)
            requires c >= 0, speed >= 0;
        crate::curve::lemma_div_le((c * speed) as nat, s as nat, speed as nat);
    } else {
        assert(-(c * speed) == (-c) * speed) by (nonlinear_arith);
        assert((-c) * speed <= s * speed) by (nonlinear_arith)
            requires -c <= s, speed >= 0;
        assert((-c) * speed >= 0) by (nonlinear_arith)
            requires -c >= 0, speed >= 0;
        crate::curve::lemma_div_le(((-c) * speed) as nat, s as nat, speed as nat);
    }
}

fn scale_component(c: i64, speed: i64, s: u128) -> (r: i64)
    requires
        -(s as int) <= c <= s,
        0 < s <= 0x1_0000_0000_0000_0000,
        0 <= speed <= SPEED_LIMIT,
        -i64::MAX <= c <= i64::MAX,
    ensures
        r == trunc_div(c * speed, s as int),
        -speed <= r <= speed,
{
    proof {
        lemma_mul_abs(c as int, speed as int, i64::MAX as int, SPEED_LIMIT as int);
        lemma_scaled_component(c as int, speed as int, s as int);
    }
    let n: i128 = (c as i128) * (speed as i128);
    trunc_div_exec(n, s as i128) as i64
}

/// Scales a direction to the given speed.
pub fn scale_to_speed(d: Vec3, speed: i64) -> (r: Vec3)
    requires
        d.within(i64::MAX as int),
        0 <= speed <= SPEED_LIMIT,
    ensures
        r == scaled_to_speed(d, speed as int),
        r.within(speed as int),
{
    proof {
        lemma_mul_abs(d.x as int, d.x as int, i64::MAX as int, i64::MAX as int);
        lemma_mul_abs(d.y as int, d.y as int, i64::MAX as int, i64::MAX as int);
        lemma_mul_abs(d.z as int, d.z as int, i64::MAX as int, i64::MAX as int);
        assert(d.x * d.x >= 0 && d.y * d.y >= 0 && d.z * d.z >= 0) by (nonlinear_arith);
    }
    let n: u128 = ((d.x as i128) * (d.x as i128)) as u128 + ((d.y as i128) * (d.y as i128)) as u128
        + ((d.z as i128) * (d.z as i128)) as u128;
    let s = isqrt(n);
    if s == 0 {
        return Vec3 { x: 0, y: 0, z: 0 };
    }
    proof {
        lemma_component_le_root(d.x as int, n as nat, s as nat);
        lemma_component_le_root(d.y as int, n as nat, s as nat);
        lemma_component_le_root(d.z as int, n as nat, s as nat);
        if s > 0x1_0000_0000_0000_0000 {
            assert(s * s > 0x1_0000_0000_0000_0000 * 0x1_0000_0000_0000_0000) by (nonlinear_arith)
                requires s > 0x1_0000_0000_0000_0000;
        }
    }
    Vec3 {
        x: scale_component(d.x, speed, s),
        y: scale_component(d.y, speed, s),
        z: scale_component(d.z, speed, s),
    }
}

/// Squared length of a velocity.
pub open spec fn speed_sq(v: Vec3) -> int {
    v.x * v.x + v.y * v.y + v.z * v.z
}

/// `amp * f` millionths, rounded toward zero.
pub open spec fn wave_offset(amp: int, f: int) -> int {
    trunc_div(amp * f, WAVE_UNIT as int)
}

/// Where a circling target stands: on a horizontal orbit around its start,
/// with a small vertical swing and a small swing in depth toward the viewer.
pub open spec fn circle_point(start: Vec3, w: Wave) -> Vec3 {
    playable(
        start.x + wave_offset(CIRCLE_RADIUS as int, w.a as int),
        start.y + wave_offset(4_500_000, w.b as int),
        ORBIT_Z + wave_offset(3_000_000, WAVE_UNIT - w.a),
    )
}

/// Where a figure-eight target stands.
pub open spec fn figure_eight_point(start: Vec3, w: Wave) -> Vec3 {
    playable(
        start.x + wave_offset(15_000_000, w.a as int),
        start.y + wave_offset(8_000_000, w.b as int),
        ORBIT_Z as int,
    )
}

/// Moves by `v` for `dt` and bounces off the playable band.
pub open spec fn drift(p: Vec3, v: Vec3, dt: nat) -> (Vec3, Vec3) {
    playable_bounce(moved(p.x as int, v.x as int, dt), moved(p.y as int, v.y as int, dt), moved(p.z as int, v.z as int, dt), v)
}

/// Direction in which an evasive target at `p` strafes: across the line to
/// the viewer at `c`, in the horizontal plane.
pub open spec fn strafe_direction(p: Vec3, c: Vec3) -> Vec3 {
    Vec3 { x: (c.z - p.z) as i64, y: 0, z: (p.x - c.x) as i64 }
}

/// One frame of a scenario target's movement. The timer first advances by
/// `dt`. `draw` is the random direction (in thousandths) that a linear,
/// random or reactive target takes when it picks a new heading: a linear one
/// when it stands still, a random one also once its timer passes two
/// seconds, a reactive one also once it passes half a second; picking resets
/// the timer of the latter two. `w` holds the trigonometric values at the
/// phase after the timer advanced.
pub open spec fn pattern_step(p: Vec3, m: PatternMovement, dt: nat, camera: Option<Vec3>, w: Wave, draw: Vec3) -> (Vec3, PatternMovement) {
    let t = m.timer + dt;
    let fresh = scaled_to_speed(enlarged(draw), m.max_speed as int);
    let still = speed_sq(m.velocity) < STILL_SPEED_SQ;
    match m.pattern {
        MovementPattern::Static => (p, PatternMovement { timer: t as u64, ..m }),
        MovementPattern::Linear => {
            let v = if still { fresh } else { m.velocity };
            let (np, nv) = drift(p, v, dt);
            (np, PatternMovement { velocity: nv, timer: t as u64, ..m })
        },
        MovementPattern::Random | MovementPattern::Reactive => {
            let limit = if m.pattern is Random { RANDOM_TURN_MS } else { REACTIVE_TURN_MS };
            let turn = still || t > limit;
            let v = if turn { fresh } else { m.velocity };
            let (np, nv) = drift(p, v, dt);
            (np, PatternMovement { velocity: nv, timer: if turn { 0 } else { t as u64 }, ..m })
        },
        MovementPattern::Circular => (circle_point(m.start_position, w), PatternMovement { timer: t as u64, ..m }),
        MovementPattern::Smooth => (figure_eight_point(m.start_position, w), PatternMovement { timer: t as u64, ..m }),
        MovementPattern::Evasive => match camera {
            None => (p, PatternMovement { timer: t as u64, ..m }),
            Some(c) => {
                let v = scaled_to_speed(strafe_direction(p, c), m.max_speed as int);
                (playable(moved(p.x as int, v.x as int, dt), moved(p.y as int, v.y as int, dt), moved(p.z as int, v.z as int, dt)),
                    PatternMovement { timer: t as u64, ..m })
            },
        },
    }
}

/// The pattern uses a fresh random heading on this frame.
pub open spec fn needs_heading(m: PatternMovement, dt: nat) -> bool {
    let still = speed_sq(m.velocity) < STILL_SPEED_SQ;
    match m.pattern {
        MovementPattern::Linear => still,
        MovementPattern::Random => still || m.timer + dt > RANDOM_TURN_MS,
        MovementPattern::Reactive => still || m.timer + dt > REACTIVE_TURN_MS,
        _ => false,
    }
}

/// Vertical spread, in thousandths, of the random heading of a pattern.
pub open spec fn heading_rise(pattern: MovementPattern) -> int {
    match pattern {
        MovementPattern::Random => 200,
        MovementPattern::Reactive => 300,
        _ => 0,
    }
}

/// Factor by which a heading is enlarged before its length is taken, so
/// that rounding the length down costs at most a millionth of it.
pub const HEADING_SCALE: i64 = 1_000_000;

/// A heading enlarged by `HEADING_SCALE`.
pub open spec fn enlarged(d: Vec3) -> Vec3 {
    Vec3 {
        x: (d.x * HEADING_SCALE) as i64,
        y: (d.y * HEADING_SCALE) as i64,
        z: (d.z * HEADING_SCALE) as i64,
    }
}

pub open spec fn is_zero(d: Vec3) -> bool {
    d.x == 0 && d.y == 0 && d.z == 0
}

/// A random heading for the pattern: not the zero vector, horizontal
/// components in `[-1000, 1000)`, the vertical one in `[-rise, rise)` (zero
/// when there is no spread).
pub open spec fn heading_in_range(pattern: MovementPattern, d: Vec3) -> bool {
    &&& !is_zero(d)
    &&& -1000 <= d.x < 1000
    &&& -1000 <= d.z < 1000
    &&& if heading_rise(pattern) == 0 { d.y == 0 } else { -heading_rise(pattern) <= d.y < heading_rise(pattern) }
}

/// The largest horizontal speed the target can have this frame: its own, or
/// that of a fresh heading.
pub open spec fn speed_bound(m: PatternMovement) -> int {
    if abs(m.velocity.x as int) > m.max_speed { abs(m.velocity.x as int) } else { m.max_speed as int }
}

/// The vector from an evasive target to the viewer fits the coordinate type.
pub open spec fn strafe_fits(p: Vec3, c: Vec3) -> bool {
    -i64::MAX <= c.z - p.z <= i64::MAX && -i64::MAX <= p.x - c.x <= i64::MAX
}

/// What a frame of the pattern computes fits the coordinate type: a target
/// that drifts or strafes cannot move horizontally beyond `i64`.
pub open spec fn frame_fits(p: Vec3, m: PatternMovement, dt: nat, camera: Option<Vec3>) -> bool {
    let reach = abs(p.x as int) + speed_bound(m) * dt <= i64::MAX;
    match m.pattern {
        MovementPattern::Static | MovementPattern::Circular | MovementPattern::Smooth => true,
        MovementPattern::Evasive => camera matches Some(c) ==> reach && strafe_fits(p, c),
        _ => reach,
    }
}

/// The pattern moves the target this frame.
pub open spec fn moves(m: PatternMovement, camera: Option<Vec3>) -> bool {
    !(m.pattern is Static) && !(m.pattern is Evasive && camera is None)
}

fn move_by(p: Vec3, v: Vec3, dt: u64) -> (r: (i128, i128, i128))
    requires
        v.within(SPEED_LIMIT as int),
    ensures
        r.0 == moved(p.x as int, v.x as int, dt as nat),
        r.1 == moved(p.y as int, v.y as int, dt as nat),
        r.2 == moved(p.z as int, v.z as int, dt as nat),
        -MOVED_LIMIT <= r.2 <= MOVED_LIMIT,
{
    (move_axis(p.x, v.x, dt), move_axis(p.y, v.y, dt), move_axis(p.z, v.z, dt))
}

/// A move at a horizontal speed within the bound stays within `i64`.
proof fn lemma_reach(px: int, vx: int, b: int, dt: nat)
    requires
        -b <= vx <= b,
        abs(px) + b * dt <= i64::MAX,
    ensures
        -i64::MAX <= moved(px, vx, dt) <= i64::MAX,
{
    assert(-(b * dt) <= vx * dt <= b * dt) by (nonlinear_arith)
        requires -b <= vx <= b, dt >= 0;
}

fn wave_offset_exec(amp: i64, f: i64) -> (r: i128)
    requires
        0 <= amp <= CIRCLE_RADIUS,
        -2 * WAVE_UNIT <= f <= 2 * WAVE_UNIT,
    ensures
        r == wave_offset(amp as int, f as int),
        -2 * CIRCLE_RADIUS <= r <= 2 * CIRCLE_RADIUS,
{
    proof {
        lemma_mul_abs(amp as int, f as int, CIRCLE_RADIUS as int, 2 * WAVE_UNIT);
    }
    let r = trunc_div_exec((amp as i128) * (f as i128), WAVE_UNIT as i128);
    proof {
        lemma_wave_bound(amp as int, f as int);
    }
    r
}

proof fn lemma_wave_bound(amp: int, f: int)
    requires
        0 <= amp <= CIRCLE_RADIUS,
        -2 * WAVE_UNIT <= f <= 2 * WAVE_UNIT,
    ensures
        -2 * CIRCLE_RADIUS <= wave_offset(amp, f) <= 2 * CIRCLE_RADIUS,
{
    if f >= 0 {
        assert(amp * f <= CIRCLE_RADIUS * (2 * WAVE_UNIT)) by (nonlinear_arith)
            requires 0 <= amp <= CIRCLE_RADIUS, 0 <= f <= 2 * WAVE_UNIT;
        assert(amp * f >= 0) by (nonlinear_arith)
            requires 0 <= amp, 0 <= f;
        assert(CIRCLE_RADIUS * (2 * WAVE_UNIT) == WAVE_UNIT * (2 * CIRCLE_RADIUS));
        crate::curve::lemma_div_le((amp * f) as nat, WAVE_UNIT as nat, (2 * CIRCLE_RADIUS) as nat);
    } else {
        assert(-(amp * f) == amp * (-f)) by (nonlinear_arith);
        assert(amp * (-f) <= CIRCLE_RADIUS * (2 * WAVE_UNIT)) by (nonlinear_arith)
            requires 0 <= amp <= CIRCLE_RADIUS, 0 < -f <= 2 * WAVE_UNIT;
        assert(amp * (-f) >= 0) by (nonlinear_arith)
            requires 0 <= amp, 0 < -f;
        assert(CIRCLE_RADIUS * (2 * WAVE_UNIT) == WAVE_UNIT * (2 * CIRCLE_RADIUS));
        crate::curve::lemma_div_le((amp * (-f)) as nat, WAVE_UNIT as nat, (2 * CIRCLE_RADIUS) as nat);
    }
}

fn is_still(v: Vec3) -> (r: bool)
    requires
        v.within(SPEED_LIMIT as int),
    ensures
        r == (speed_sq(v) < STILL_SPEED_SQ),
{
    proof {
        lemma_mul_abs(v.x as int, v.x as int, SPEED_LIMIT as int, SPEED_LIMIT as int);
        lemma_mul_abs(v.y as int, v.y as int, SPEED_LIMIT as int, SPEED_LIMIT as int);
        lemma_mul_abs(v.z as int, v.z as int, SPEED_LIMIT as int, SPEED_LIMIT as int);
    }
    (v.x as i128) * (v.x as i128) + (v.y as i128) * (v.y as i128) + (v.z as i128) * (v.z as i128) < STILL_SPEED_SQ as i128
}

/// Advances a scenario target by one frame; see `pattern_step`.
pub fn advance_pattern(
    position: &mut Vec3,
    movement: &mut PatternMovement,
    dt: u64,
    camera: Option<Vec3>,
    w: Wave,
    draw: Vec3,
)
    requires
        old(movement).well_formed(),
        w.well_formed(),
        draw.within(1000),
        old(movement).timer + dt <= u64::MAX,
        frame_fits(*old(position), *old(movement), dt as nat, camera),
    ensures
        (*final(position), *final(movement)) == pattern_step(*old(position), *old(movement), dt as nat, camera, w, draw),
        final(movement).well_formed(),
        moves(*old(movement), camera) ==> in_band(*final(position)),
{
    let t: u64 = movement.timer + dt;
    let still = is_still(movement.velocity);
    match movement.pattern {
        MovementPattern::Static => {
            movement.timer = t;
        },
        MovementPattern::Linear | MovementPattern::Random | MovementPattern::Reactive => {
            let (turn, linear): (bool, bool) = match movement.pattern {
                MovementPattern::Linear => (still, true),
                MovementPattern::Random => (still || t > RANDOM_TURN_MS, false),
                _ => (still || t > REACTIVE_TURN_MS, false),
            };
            let big = Vec3 { x: draw.x * HEADING_SCALE, y: draw.y * HEADING_SCALE, z: draw.z * HEADING_SCALE };
            let v = if turn { scale_to_speed(big, movement.max_speed) } else { movement.velocity };
            let (mx, my, mz) = move_by(*position, v, dt);
            proof {
                lemma_reach(position.x as int, v.x as int, speed_bound(*old(movement)), dt as nat);
            }
            let (np, nv) = playable_bounce_exec(mx, my, mz, v);
            *position = np;
            movement.velocity = nv;
            movement.timer = if turn && !linear { 0 } else { t };
        },
        MovementPattern::Circular => {
            let s = movement.start_position;
            let x = s.x as i128 + wave_offset_exec(CIRCLE_RADIUS, w.a);
            let y = s.y as i128 + wave_offset_exec(4_500_000, w.b);
            let z = ORBIT_Z as i128 + wave_offset_exec(3_000_000, WAVE_UNIT - w.a);
            *position = playable_exec(x, y, z);
            movement.timer = t;
        },
        MovementPattern::Smooth => {
            let s = movement.start_position;
            let x = s.x as i128 + wave_offset_exec(15_000_000, w.a);
            let y = s.y as i128 + wave_offset_exec(8_000_000, w.b);
            *position = playable_exec(x, y, ORBIT_Z as i128);
            movement.timer = t;
        },
        MovementPattern::Evasive => {
            match camera {
                None => {},
                Some(c) => {
                    let p = *position;
                    let dir = Vec3 { x: c.z - p.z, y: 0, z: p.x - c.x };
                    let v = scale_to_speed(dir, movement.max_speed);
                    let (mx, my, mz) = move_by(p, v, dt);
                    proof {
                        lemma_reach(p.x as int, v.x as int, speed_bound(*old(movement)), dt as nat);
                    }
                    *position = playable_exec(mx, my, mz);
                },
            }
            movement.timer = t;
        },
    }
}

/// Draws a random heading for a pattern; the zero vector, which has no
/// direction, is replaced by the unit heading along `x`.
fn random_heading(pattern: MovementPattern) -> (d: Vec3)
    ensures
        heading_in_range(pattern, d),
{
    let x = random_between(-1000, 1000);
    let z = random_between(-1000, 1000);
    let y: i64 = match pattern {
        MovementPattern::Random => random_between(-200, 200),
        MovementPattern::Reactive => random_between(-300, 300),
        _ => 0,
    };
    if x == 0 && y == 0 && z == 0 {
        Vec3 { x: 1, y: 0, z: 0 }
    } else {
        Vec3 { x, y, z }
    }
}

/// Advances a scenario target by one frame, drawing a random heading when
/// its pattern picks one (`needs_heading`); the result is `pattern_step` for
/// some nonzero heading in the pattern's range.
pub fn update_target_movements(
    position: &mut Vec3,
    movement: &mut PatternMovement,
    dt: u64,
    camera: Option<Vec3>,
    w: Wave,
)
    requires
        old(movement).well_formed(),
        w.well_formed(),
        old(movement).timer + dt <= u64::MAX,
        frame_fits(*old(position), *old(movement), dt as nat, camera),
    ensures
        exists|d: Vec3| heading_in_range(old(movement).pattern, d)
            && (*final(position), *final(movement)) == pattern_step(*old(position), *old(movement), dt as nat, camera, w, d),
        final(movement).well_formed(),
        moves(*old(movement), camera) ==> in_band(*final(position)),
{
    let still = is_still(movement.velocity);
    let t: u64 = movement.timer + dt;
    let needed = match movement.pattern {
        MovementPattern::Linear => still,
        MovementPattern::Random => still || t > RANDOM_TURN_MS,
        MovementPattern::Reactive => still || t > REACTIVE_TURN_MS,
        _ => false,
    };
    assert(needed == needs_heading(*old(movement), dt as nat));
    let d = if needed {
        random_heading(movement.pattern)
    } else {
        Vec3 { x: 1, y: 0, z: 0 }
    };
    assert(heading_in_range(old(movement).pattern, d));
    advance_pattern(position, movement, dt, camera, w, d);
}

/// Height (micrometres) at which a fallen player comes back, at the arena's
/// center.
pub const SPAWN_HEIGHT: i64 = 1_625_000;
/// Height (micrometres) below which a player has fallen out of the arena.
pub const FALL_LIMIT: i64 = -50_000_000;

/// A player that has fallen to or below the fall limit goes back to the
/// spawn height above the center, at rest; returns whether that happened.
pub fn respawn(position: &mut Vec3, velocity: &mut Vec3) -> (r: bool)
    ensures
        r == (old(position).y <= FALL_LIMIT),
        r ==> *final(position) == (Vec3 { x: 0, y: SPAWN_HEIGHT, z: 0 }) && *final(velocity) == (Vec3 { x: 0, y: 0, z: 0 }),
        !r ==> *final(position) == *old(position) && *final(velocity) == *old(velocity),
{
    if position.y <= FALL_LIMIT {
        *velocity = Vec3 { x: 0, y: 0, z: 0 };
        *position = Vec3 { x: 0, y: SPAWN_HEIGHT, z: 0 };
        true
    } else {
        false
    }
}

} // verus!

use vstd::prelude::*;

verus! {

/// One in thousandths: sensitivity multipliers and growth bases are stored
/// scaled by this factor.
pub const MILLI: u32 = 1000;

/// Fixed-point scale of the decaying powers used by the exponential ease.
pub const DECAY_SCALE: u64 = 0x100_0000_0000;

/// Shape of the sensitivity transfer curve.
#[derive(Clone, Copy, Debug, PartialEq, Eq, Structural)]
pub struct CurveParameters {
    /// Multiplier below the offset, in thousandths.
    pub min_sens: u32,
    /// Multiplier reached at the end of the range, in thousandths.
    pub max_sens: u32,
    /// Input speed span (pixels per second) over which the multiplier grows.
    pub range: u32,
    /// Exponent base in thousandths: above `MILLI` the ramp accelerates,
    /// otherwise it follows a smoothstep.
    pub growth_base: u32,
    /// Input speed (pixels per second) below which the curve stays flat.
    pub offset: u32,
    /// Clamp the result to `max_sens`.
    pub plateau: bool,
}

impl Default for CurveParameters {
    fn default() -> (r: Self)
        ensures
            r.min_sens == 1000 && r.max_sens == 3000 && r.range == 500,
            r.growth_base == 1020 && r.offset == 50 && r.plateau,
    {
        CurveParameters {
            min_sens: 1000,
            max_sens: 3000,
            range: 500,
            growth_base: 1020,
            offset: 50,
            plateau: true,
        }
    }
}

/// `DECAY_SCALE * (MILLI / g)^k`, each step rounded down.
pub open spec fn decay(g: nat, k: nat) -> nat
    decreases k,
{
    if k == 0 {
        DECAY_SCALE as nat
    } else {
        decay(g, (k - 1) as nat) * (MILLI as nat) / g
    }
}

/// Smoothstep `t^2 (3 - 2t)` of `t / r`, as a fraction of `r`, rounded down.
pub open spec fn smoothstep(t: nat, r: nat) -> nat {
    (t * t * (3 * r - 2 * t) as nat) / (r * r)
}

/// Exponential ease `(g^t - 1) / (g^r - 1)`, as a fraction of `DECAY_SCALE`.
/// Written with the decaying power `g^-1`: the quotient equals
/// `(g^-(r-t) - g^-r) / (1 - g^-r)`, whose terms never exceed the scale.
pub open spec fn expo_ease(g: nat, t: nat, r: nat) -> nat {
    ((decay(g, (r - t) as nat) - decay(g, r)) * DECAY_SCALE) as nat / (DECAY_SCALE - decay(g, r)) as nat
}

/// Growth above `min_sens` at progress `t` of `r` (where `0 <= t <= r`).
pub open spec fn curve_increase(p: CurveParameters, t: nat) -> nat {
    let diff = (p.max_sens - p.min_sens) as nat;
    let r = p.range as nat;
    if p.growth_base <= MILLI {
        diff * smoothstep(t, r) / r
    } else {
        diff * expo_ease(p.growth_base as nat, t, r) / (DECAY_SCALE as nat)
    }
}

/// Multiplier (in thousandths) that the curve gives for an input speed.
pub open spec fn curve_value(speed: nat, p: CurveParameters) -> nat {
    if speed <= p.offset {
        p.min_sens as nat
    } else if p.max_sens <= p.min_sens || p.range == 0 {
        p.min_sens as nat
    } else {
        let x = (speed - p.offset) as nat;
        let t = if x < p.range { x } else { p.range as nat };
        let c = p.min_sens + curve_increase(p, t);
        if p.plateau {
            if c < p.max_sens { c as nat } else { p.max_sens as nat }
        } else if x >= p.range {
            p.max_sens as nat
        } else {
            c as nat
        }
    }
}

proof fn lemma_decay_step(g: nat, k: nat)
    requires
        g > MILLI,
    ensures
        decay(g, k + 1) <= decay(g, k),
        decay(g, k) > 0 ==> decay(g, k + 1) < decay(g, k),
{
    let p = decay(g, k);
    assert(decay(g, k + 1) == p * 1000 / g);
    assert(p * 1000 <= p * g) by (nonlinear_arith)
        requires g > 1000;
    assert(p * 1000 / g <= p) by (nonlinear_arith)
        requires p * 1000 <= p * g, g > 0;
    if p > 0 {
        assert(p * 1000 < p * g) by (nonlinear_arith)
            requires g > 1000, p > 0;
        assert(p * 1000 / g < p) by (nonlinear_arith)
            requires p * 1000 < p * g, g > 0;
    }
}

/// The decaying power never grows with the exponent.
proof fn lemma_decay_antitone(g: nat, a: nat, b: nat)
    requires
        g > MILLI,
        a <= b,
    ensures
        decay(g, b) <= decay(g, a),
    decreases b - a,
{
    if a < b {
        lemma_decay_step(g, (b - 1) as nat);
        lemma_decay_antitone(g, a, (b - 1) as nat);
    }
}

proof fn lemma_decay_bounded(g: nat, k: nat)
    requires
        g > MILLI,
    ensures
        decay(g, k) <= DECAY_SCALE,
        k > 0 ==> decay(g, k) < DECAY_SCALE,
{
    lemma_decay_antitone(g, 0, k);
    if k > 0 {
        lemma_decay_step(g, 0);
        lemma_decay_antitone(g, 1, k);
    }
}

proof fn lemma_decay_zero_stays(g: nat, a: nat, b: nat)
    requires
        g > MILLI,
        a <= b,
        decay(g, a) == 0,
    ensures
        decay(g, b) == 0,
{
    lemma_decay_antitone(g, a, b);
}

proof fn lemma_smoothstep_monotone(t1: nat, t2: nat, r: nat)
    requires
        t1 <= t2 <= r,
        r > 0,
    ensures
        smoothstep(t1, r) <= smoothstep(t2, r),
{
    let f1 = t1 * t1 * (3 * r - 2 * t1);
    let f2 = t2 * t2 * (3 * r - 2 * t2);
    let d = (t2 - t1) as nat;
    assert(f2 - f1 == d * (3 * r * (t1 + t2) - 2 * (t1 * t1 + t1 * t2 + t2 * t2))) by (nonlinear_arith)
        requires d == t2 - t1, f1 == t1 * t1 * (3 * r - 2 * t1), f2 == t2 * t2 * (3 * r - 2 * t2);
    assert(3 * r * (t1 + t2) >= 3 * t2 * (t1 + t2)) by (nonlinear_arith)
        requires t2 <= r;
    assert(3 * t2 * (t1 + t2) - 2 * (t1 * t1 + t1 * t2 + t2 * t2) == t2 * t2 + t1 * t2 - 2 * t1 * t1) by (nonlinear_arith);
    assert(t2 * t2 + t1 * t2 >= 2 * t1 * t1) by (nonlinear_arith)
        requires t1 <= t2;
    assert(d * (3 * r * (t1 + t2) - 2 * (t1 * t1 + t1 * t2 + t2 * t2)) >= 0) by (nonlinear_arith)
        requires 3 * r * (t1 + t2) - 2 * (t1 * t1 + t1 * t2 + t2 * t2) >= 0;
    assert(r * r > 0) by (nonlinear_arith)
        requires r > 0;
    vstd::arithmetic::div_mod::lemma_div_is_ordered(f1 as int, f2 as int, (r * r) as int);
}

proof fn lemma_expo_ease_monotone(g: nat, t1: nat, t2: nat, r: nat)
    requires
        g > MILLI,
        t1 <= t2 <= r,
        r > 0,
    ensures
        expo_ease(g, t1, r) <= expo_ease(g, t2, r),
        expo_ease(g, t2, r) <= DECAY_SCALE,
{
    lemma_decay_antitone(g, (r - t2) as nat, (r - t1) as nat);
    lemma_decay_antitone(g, (r - t2) as nat, r);
    lemma_decay_antitone(g, (r - t1) as nat, r);
    lemma_decay_bounded(g, r);
    lemma_decay_bounded(g, (r - t2) as nat);
    let qr = decay(g, r);
    let den = (DECAY_SCALE - qr) as nat;
    let n1 = ((decay(g, (r - t1) as nat) - qr) * DECAY_SCALE) as nat;
    let n2 = ((decay(g, (r - t2) as nat) - qr) * DECAY_SCALE) as nat;
    lemma_mul_le((decay(g, (r - t1) as nat) - qr) as nat, DECAY_SCALE as nat, (decay(g, (r - t2) as nat) - qr) as nat, DECAY_SCALE as nat);
    vstd::arithmetic::div_mod::lemma_div_is_ordered(n1 as int, n2 as int, den as int);
    lemma_mul_le((decay(g, (r - t2) as nat) - qr) as nat, DECAY_SCALE as nat, den, DECAY_SCALE as nat);
    assert(den * DECAY_SCALE == DECAY_SCALE * den) by (nonlinear_arith);
    lemma_div_le(n2, den, DECAY_SCALE as nat);
}

/// Growth is monotone in the progress and never exceeds the span.
proof fn lemma_increase_monotone(p: CurveParameters, t1: nat, t2: nat)
    requires
        t1 <= t2 <= p.range,
        p.range > 0,
        p.min_sens < p.max_sens,
    ensures
        curve_increase(p, t1) <= curve_increase(p, t2),
        curve_increase(p, t2) <= p.max_sens - p.min_sens,
{
    let diff = (p.max_sens - p.min_sens) as nat;
    let r = p.range as nat;
    if p.growth_base <= MILLI {
        lemma_smoothstep_monotone(t1, t2, r);
        lemma_smoothstep_bounded(t2, r);
        lemma_mul_le(diff, smoothstep(t1, r), diff, smoothstep(t2, r));
        vstd::arithmetic::div_mod::lemma_div_is_ordered((diff * smoothstep(t1, r)) as int, (diff * smoothstep(t2, r)) as int, r as int);
        lemma_scaled_fraction(diff, smoothstep(t2, r), r);
    } else {
        let g = p.growth_base as nat;
        lemma_expo_ease_monotone(g, t1, t2, r);
        lemma_mul_le(diff, expo_ease(g, t1, r), diff, expo_ease(g, t2, r));
        vstd::arithmetic::div_mod::lemma_div_is_ordered((diff * expo_ease(g, t1, r)) as int, (diff * expo_ease(g, t2, r)) as int, DECAY_SCALE as int);
        lemma_scaled_fraction(diff, expo_ease(g, t2, r), DECAY_SCALE as nat);
    }
}

/// Below or at the offset the curve gives exactly `min_sens`.
pub proof fn lemma_flat_below_offset(speed: nat, p: CurveParameters)
    requires
        speed <= p.offset,
    ensures
        curve_value(speed, p) == p.min_sens,
{
}

/// With a positive range and `min_sens < max_sens`, the curve never rises
/// above `max_sens`, whether or not it plateaus.
pub proof fn lemma_never_above_max(speed: nat, p: CurveParameters)
    requires
        p.range > 0,
        p.min_sens < p.max_sens,
    ensures
        p.min_sens <= curve_value(speed, p) <= p.max_sens,
{
    if speed > p.offset {
        let x = (speed - p.offset) as nat;
        let t = if x < p.range { x } else { p.range as nat };
        lemma_increase_monotone(p, t, t);
    }
}

/// From the end of the range on, the curve gives exactly `max_sens`.
pub proof fn lemma_max_beyond_range(speed: nat, p: CurveParameters)
    requires
        p.range > 0,
        p.min_sens < p.max_sens,
        speed >= p.offset + p.range,
    ensures
        curve_value(speed, p) == p.max_sens,
{
    let r = p.range as nat;
    let diff = (p.max_sens - p.min_sens) as nat;
    if p.growth_base <= MILLI {
        assert(smoothstep(r, r) == r) by {
            assert(r * r * (3 * r - 2 * r) == (r * r) * r) by (nonlinear_arith);
            assert(r * r > 0) by (nonlinear_arith)
                requires r > 0;
            vstd::arithmetic::div_mod::lemma_div_multiples_vanish(r as int, (r * r) as int);
        }
        vstd::arithmetic::div_mod::lemma_div_multiples_vanish(diff as int, r as int);
    } else {
        let g = p.growth_base as nat;
        lemma_decay_bounded(g, r);
        let den = (DECAY_SCALE - decay(g, r)) as nat;
        assert(expo_ease(g, r, r) == DECAY_SCALE) by {
            assert(decay(g, (r - r) as nat) == DECAY_SCALE);
            assert(((DECAY_SCALE - decay(g, r)) * DECAY_SCALE) == DECAY_SCALE * den) by (nonlinear_arith)
                requires den == DECAY_SCALE - decay(g, r);
            vstd::arithmetic::div_mod::lemma_div_multiples_vanish(DECAY_SCALE as int, den as int);
        }
        vstd::arithmetic::div_mod::lemma_div_multiples_vanish(diff as int, DECAY_SCALE as int);
    }
}

/// The curve never decreases as the input speed grows.
pub proof fn lemma_curve_monotone(a: nat, b: nat, p: CurveParameters)
    requires
        a <= b,
    ensures
        curve_value(a, p) <= curve_value(b, p),
{
    if p.max_sens <= p.min_sens || p.range == 0 {
    } else if a <= p.offset {
        lemma_never_above_max(b, p);
    } else {
        let xa = (a - p.offset) as nat;
        let xb = (b - p.offset) as nat;
        let ta = if xa < p.range { xa } else { p.range as nat };
        let tb = if xb < p.range { xb } else { p.range as nat };
        lemma_increase_monotone(p, ta, tb);
    }
}

/// Computes `decay(g, k)`, stopping early once the power has reached zero.
fn decay_power(g: u32, k: u32) -> (r: u64)
    requires
        g > MILLI,
    ensures
        r == decay(g as nat, k as nat),
        r <= DECAY_SCALE,
{
    let mut p: u64 = DECAY_SCALE;
    let mut i: u32 = 0;
    while i < k
        invariant
            g > MILLI,
            i <= k,
            p == decay(g as nat, i as nat),
            p <= DECAY_SCALE,
        decreases k - i,
    {
        if p == 0 {
            proof {
                lemma_decay_zero_stays(g as nat, i as nat, k as nat);
            }
            return 0;
        }
        proof {
            lemma_decay_step(g as nat, i as nat);
        }
        p = p * 1000 / (g as u64);
        i = i + 1;
    }
    p
}

/// Sensitivity multiplier (in thousandths) for an input speed in pixels per
/// second. Degenerate parameters (no range, or `max_sens <= min_sens`) give
/// `min_sens`; the result never rises above `max_sens` otherwise.
pub fn calculate_sensitivity_multiplier(speed: u64, params: &CurveParameters) -> (r: u32)
    ensures
        r == curve_value(speed as nat, *params),
{
    let p = *params;
    if speed <= p.offset as u64 {
        return p.min_sens;
    }
    if p.max_sens <= p.min_sens || p.range == 0 {
        return p.min_sens;
    }
    let x: u64 = speed - p.offset as u64;
    let t: u32 = if x < p.range as u64 { x as u32 } else { p.range };
    let diff: u32 = p.max_sens - p.min_sens;
    let inc: u32 = if p.growth_base <= MILLI {
        let s = smoothstep_exec(t, p.range);
        proof {
            lemma_mul_le(diff as nat, s as nat, 0xffff_ffff, 0xffff_ffff);
        }
        let v: u64 = (diff as u64) * (s as u64) / (p.range as u64);
        proof {
            lemma_scaled_fraction(diff as nat, s as nat, p.range as nat);
        }
        v as u32
    } else {
        let e = expo_ease_exec(p.growth_base, t, p.range);
        proof {
            lemma_mul_le(diff as nat, e as nat, 0xffff_ffff, DECAY_SCALE as nat);
        }
        let v: u128 = (diff as u128) * (e as u128) / (DECAY_SCALE as u128);
        proof {
            lemma_scaled_fraction(diff as nat, e as nat, DECAY_SCALE as nat);
        }
        v as u32
    };
    assert(inc == curve_increase(p, t as nat));
    let c: u32 = p.min_sens + inc;
    if p.plateau {
        if c < p.max_sens { c } else { p.max_sens }
    } else if x >= p.range as u64 {
        p.max_sens
    } else {
        c
    }
}

/// `diff * s / d` with `s <= d` never exceeds `diff`.
proof fn lemma_scaled_fraction(diff: nat, s: nat, d: nat)
    requires
        s <= d,
        d > 0,
    ensures
        diff * s / d <= diff,
{
    assert(diff * s <= diff * d) by (nonlinear_arith)
        requires s <= d;
    assert(diff * s / d <= diff) by (nonlinear_arith)
        requires diff * s <= diff * d, d > 0;
}

proof fn lemma_smoothstep_bounded(t: nat, r: nat)
    requires
        t <= r,
        r > 0,
    ensures
        t * t * (3 * r - 2 * t) <= r * r * r,
        smoothstep(t, r) <= r,
{
    // r^3 - t^2 (3r - 2t) == (r - t)^2 (r + 2t)
    let u = (r - t) as nat;
    assert(r * r * r - t * t * (3 * r - 2 * t) == u * u * (r + 2 * t)) by (nonlinear_arith)
        requires u == r - t;
    assert(u * u * (r + 2 * t) >= 0) by (nonlinear_arith);
    assert(r * r > 0) by (nonlinear_arith)
        requires r > 0;
    assert(r * r * r == (r * r) * r) by (nonlinear_arith);
    lemma_div_le(t * t * (3 * r - 2 * t) as nat, r * r, r);
}

/// `x <= d * q` gives `x / d <= q`.
pub proof fn lemma_div_le(x: nat, d: nat, q: nat)
    requires
        d > 0,
        x <= d * q,
    ensures
        x / d <= q,
{
    vstd::arithmetic::div_mod::lemma_fundamental_div_mod(x as int, d as int);
    let k = x / d;
    assert(d * k <= d * q);
    assert(k <= q) by (nonlinear_arith)
        requires d * k <= d * q, d > 0;
}

/// Products of bounded factors stay bounded.
pub proof fn lemma_mul_le(a: nat, b: nat, c: nat, d: nat)
    requires
        a <= c,
        b <= d,
    ensures
        a * b <= c * d,
{
    assert(a * b <= c * b) by (nonlinear_arith)
        requires a <= c;
    assert(c * b <= c * d) by (nonlinear_arith)
        requires b <= d;
}

fn smoothstep_exec(t: u32, r: u32) -> (s: u32)
    requires
        t <= r,
        r > 0,
    ensures
        s == smoothstep(t as nat, r as nat),
        s <= r,
{
    proof {
        lemma_smoothstep_bounded(t as nat, r as nat);
    }
    proof {
        lemma_mul_le(t as nat, t as nat, 0xffff_ffff, 0xffff_ffff);
        lemma_mul_le(r as nat, r as nat, 0xffff_ffff, 0xffff_ffff);
    }
    let tt: u128 = (t as u128) * (t as u128);
    let k: u128 = 3 * (r as u128) - 2 * (t as u128);
    assert(tt * k <= (r as int) * (r as int) * (r as int));
    assert((r as int) * (r as int) * (r as int) <= 0xffff_ffff_ffff_ffff_ffff_ffff) by (nonlinear_arith)
        requires r <= 0xffff_ffff;
    let num: u128 = tt * k;
    let den: u128 = (r as u128) * (r as u128);
    assert(den > 0) by (nonlinear_arith)
        requires den == r * r, r > 0;
    (num / den) as u32
}

fn expo_ease_exec(g: u32, t: u32, r: u32) -> (e: u64)
    requires
        g > MILLI,
        t <= r,
        r > 0,
    ensures
        e == expo_ease(g as nat, t as nat, r as nat),
        e <= DECAY_SCALE,
{
    let qt = decay_power(g, r - t);
    let qr = decay_power(g, r);
    proof {
        lemma_decay_antitone(g as nat, (r - t) as nat, r as nat);
        lemma_decay_bounded(g as nat, r as nat);
    }
    let num: u128 = ((qt - qr) as u128) * (DECAY_SCALE as u128);
    let den: u128 = (DECAY_SCALE - qr) as u128;
    proof {
        assert(qt - qr <= DECAY_SCALE - qr);
        lemma_scaled_fraction(DECAY_SCALE as nat, (qt - qr) as nat, den as nat);
        assert((qt - qr) * DECAY_SCALE == DECAY_SCALE * (qt - qr)) by (nonlinear_arith);
    }
    (num / den) as u64
}

/// Keys read for live tuning of the curve: the two modifiers as held, the
/// arrows as pressed this frame.
#[derive(Clone, Copy, Debug, PartialEq, Eq, Structural)]
pub struct TuningKeys {
    pub ctrl: bool,
    pub shift: bool,
    pub up: bool,
    pub down: bool,
    pub left: bool,
    pub right: bool,
}

/// Smallest `min_sens` that tuning leaves (0.1).
pub const TUNE_MIN_SENS_FLOOR: u32 = 100;
/// Smallest `range` that tuning leaves.
pub const TUNE_RANGE_FLOOR: u32 = 5;

pub open spec fn sat_add(a: u32, b: u32) -> u32 {
    if a + b > u32::MAX { u32::MAX } else { (a + b) as u32 }
}

/// `a - b`, but no lower than `floor`.
pub open spec fn sub_floor(a: u32, b: u32, floor: u32) -> u32 {
    if a - b > floor { (a - b) as u32 } else { floor }
}

/// Parameters after one frame of tuning keys. With Ctrl held: Up and Down
/// move `min_sens` by 0.1 (not below 0.1), then Right and Left move
/// `max_sens` by 0.5 (not below `min_sens`). With Shift held: Up and Down move
/// `range` by 5 (not below 5), then Right and Left move `growth_base` by 0.01
/// (not below 1). Up wins over Down and Right over Left; raises stop at the
/// largest value.
pub open spec fn tuned(p: CurveParameters, k: TuningKeys) -> CurveParameters {
    let min_sens = if k.ctrl && k.up { sat_add(p.min_sens, 100) }
        else if k.ctrl && k.down { sub_floor(p.min_sens, 100, TUNE_MIN_SENS_FLOOR) }
        else { p.min_sens };
    let max_sens = if k.ctrl && k.right { sat_add(p.max_sens, 500) }
        else if k.ctrl && k.left { sub_floor(p.max_sens, 500, min_sens) }
        else { p.max_sens };
    let range = if k.shift && k.up { sat_add(p.range, 5) }
        else if k.shift && k.down { sub_floor(p.range, 5, TUNE_RANGE_FLOOR) }
        else { p.range };
    let growth_base = if k.shift && k.right { sat_add(p.growth_base, 10) }
        else if k.shift && k.left { sub_floor(p.growth_base, 10, MILLI) }
        else { p.growth_base };
    CurveParameters { min_sens, max_sens, range, growth_base, ..p }
}

/// Some tuning key acted this frame.
pub open spec fn tuning_acts(k: TuningKeys) -> bool {
    (k.ctrl || k.shift) && (k.up || k.down || k.left || k.right)
}

fn sub_floor_exec(a: u32, b: u32, floor: u32) -> (r: u32)
    ensures
        r == sub_floor(a, b, floor),
{
    if a > b && a - b > floor { a - b } else { floor }
}

/// Applies one frame of live-tuning keys to the curve; returns whether any
/// parameter was touched.
pub fn handle_sensitivity_test_ui_interaction(params: &mut CurveParameters, keys: &TuningKeys) -> (r: bool)
    ensures
        *final(params) == tuned(*old(params), *keys),
        r == tuning_acts(*keys),
{
    let k = *keys;
    let mut changed = false;
    if k.ctrl {
        if k.up {
            params.min_sens = params.min_sens.saturating_add(100);
            changed = true;
        } else if k.down {
            params.min_sens = sub_floor_exec(params.min_sens, 100, TUNE_MIN_SENS_FLOOR);
            changed = true;
        }
        if k.right {
            params.max_sens = params.max_sens.saturating_add(500);
            changed = true;
        } else if k.left {
            params.max_sens = sub_floor_exec(params.max_sens, 500, params.min_sens);
            changed = true;
        }
    }
    if k.shift {
        if k.up {
            params.range = params.range.saturating_add(5);
            changed = true;
        } else if k.down {
            params.range = sub_floor_exec(params.range, 5, TUNE_RANGE_FLOOR);
            changed = true;
        }
        if k.right {
            params.growth_base = params.growth_base.saturating_add(10);
            changed = true;
        } else if k.left {
            params.growth_base = sub_floor_exec(params.growth_base, 10, MILLI);
            changed = true;
        }
    }
    changed
}

} // verus!

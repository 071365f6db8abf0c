use vstd::prelude::*;
use crate::curve::{calculate_sensitivity_multiplier, curve_value, CurveParameters, MILLI};
use crate::geometry::{isqrt, lemma_mul_abs, sqrt_floor};
use crate::movement::trunc_div;

verus! {

/// One mouse motion as the input history keeps it.
#[derive(Clone, Copy, Debug, PartialEq, Eq, Structural)]
pub struct MouseSample {
    /// When the motion was read, in milliseconds.
    pub timestamp: u64,
    /// Motion in pixels, after the sensitivity multiplier.
    pub delta_x: i64,
    pub delta_y: i64,
    /// Speed of the raw motion in pixels per second.
    pub speed: u64,
}

/// Recent mouse motions, oldest first, and the multiplier applied to new ones.
#[derive(Clone, Debug)]
pub struct MouseInputBuffer {
    pub samples: Vec<MouseSample>,
    pub max_samples: usize,
    /// Multiplier in thousandths.
    pub sensitivity_multiplier: u32,
    pub raw_input: bool,
}

/// The last `n` items of `s` (all of them if there are fewer).
pub open spec fn keep_last<T>(s: Seq<T>, n: nat) -> Seq<T> {
    if s.len() <= n { s } else { s.subrange(s.len() - n, s.len() as int) }
}

/// Speed in pixels per second of a motion of `(dx, dy)` pixels over `dt`
/// milliseconds, with the length rounded down.
pub open spec fn motion_speed(dx: int, dy: int, dt: nat) -> nat {
    sqrt_floor((dx * dx + dy * dy) as nat) * 1000 / dt
}

/// The sample recorded for a raw motion.
pub open spec fn sample_of(e: (i32, i32), dt: nat, multiplier: nat, now: u64) -> MouseSample {
    MouseSample {
        timestamp: now,
        delta_x: trunc_div(e.0 * multiplier, MILLI as int) as i64,
        delta_y: trunc_div(e.1 * multiplier, MILLI as int) as i64,
        speed: motion_speed(e.0 as int, e.1 as int, dt) as u64,
    }
}

pub open spec fn samples_of(events: Seq<(i32, i32)>, dt: nat, multiplier: nat, now: u64) -> Seq<MouseSample> {
    events.map_values(|e: (i32, i32)| sample_of(e, dt, multiplier, now))
}

proof fn lemma_keep_last_push<T>(s: Seq<T>, x: T, n: nat)
    ensures
        keep_last(keep_last(s, n).push(x), n) == keep_last(s.push(x), n),
{
    if s.len() > n {
        assert(keep_last(keep_last(s, n).push(x), n) =~= keep_last(s.push(x), n));
    } else if s.len() + 1 > n {
        assert(keep_last(keep_last(s, n).push(x), n) =~= keep_last(s.push(x), n));
    }
}

impl Default for MouseInputBuffer {
    fn default() -> (r: Self)
        ensures
            r.samples@.len() == 0 && r.max_samples == 100,
            r.sensitivity_multiplier == MILLI && r.raw_input,
    {
        MouseInputBuffer { samples: Vec::new(), max_samples: 100, sensitivity_multiplier: MILLI, raw_input: true }
    }
}

fn record(e: (i32, i32), dt: u64, multiplier: u32, now: u64) -> (r: MouseSample)
    requires
        dt > 0,
    ensures
        r == sample_of(e, dt as nat, multiplier as nat, now),
{
    let (dx, dy) = e;
    proof {
        lemma_mul_abs(dx as int, dx as int, 0x8000_0000, 0x8000_0000);
        lemma_mul_abs(dy as int, dy as int, 0x8000_0000, 0x8000_0000);
        lemma_mul_abs(dx as int, multiplier as int, 0x8000_0000, 0xffff_ffff);
        lemma_mul_abs(dy as int, multiplier as int, 0x8000_0000, 0xffff_ffff);
        assert(dx * dx >= 0 && dy * dy >= 0) by (nonlinear_arith);
    }
    let n: u128 = ((dx as i128) * (dx as i128) + (dy as i128) * (dy as i128)) as u128;
    let len = isqrt(n);
    proof {
        if len > 0x1_0000_0000 {
            assert(len * len > 0x1_0000_0000 * 0x1_0000_0000) by (nonlinear_arith)
                requires len > 0x1_0000_0000;
        }
        assert((len * 1000) as nat <= dt * (len * 1000)) by (nonlinear_arith)
            requires dt >= 1;
        crate::curve::lemma_div_le((len * 1000) as nat, dt as nat, (len * 1000) as nat);
    }
    let speed: u128 = len * 1000 / (dt as u128);
    let sx = crate::movement::trunc_div_exec((dx as i128) * (multiplier as i128), MILLI as i128);
    let sy = crate::movement::trunc_div_exec((dy as i128) * (multiplier as i128), MILLI as i128);
    proof {
        lemma_trunc_div_shrinks((dx as int) * (multiplier as int), MILLI as int);
        lemma_trunc_div_shrinks((dy as int) * (multiplier as int), MILLI as int);
    }
    MouseSample { timestamp: now, delta_x: sx as i64, delta_y: sy as i64, speed: speed as u64 }
}

proof fn lemma_trunc_div_shrinks(n: int, d: int)
    requires
        d >= 1,
    ensures
        -abs_int(n) <= trunc_div(n, d) <= abs_int(n),
{
    if n >= 0 {
        assert(n <= d * n) by (nonlinear_arith)
            requires d >= 1, n >= 0;
        crate::curve::lemma_div_le(n as nat, d as nat, n as nat);
    } else {
        assert(-n <= d * (-n)) by (nonlinear_arith)
            requires d >= 1, n < 0;
        crate::curve::lemma_div_le((-n) as nat, d as nat, (-n) as nat);
    }
}

pub open spec fn abs_int(n: int) -> int {
    if n < 0 { -n } else { n }
}

impl MouseInputBuffer {
    /// The history holds no more than its cap.
    pub open spec fn well_formed(self) -> bool {
        self.samples@.len() <= self.max_samples
    }
}

/// Records this frame's raw mouse motions (in pixels) read at `now`,
/// over a frame of `dt` milliseconds: each gets its speed and its delta
/// scaled by the current multiplier, and the history keeps only the
/// newest `max_samples`. A frame of zero length records nothing.
pub fn process_mouse_input(mouse_buffer: &mut MouseInputBuffer, events: &Vec<(i32, i32)>, dt: u64, now: u64)
    requires
        old(mouse_buffer).well_formed(),
    ensures
        final(mouse_buffer).max_samples == old(mouse_buffer).max_samples,
        final(mouse_buffer).sensitivity_multiplier == old(mouse_buffer).sensitivity_multiplier,
        final(mouse_buffer).raw_input == old(mouse_buffer).raw_input,
        final(mouse_buffer).well_formed(),
        dt == 0 ==> final(mouse_buffer).samples@ == old(mouse_buffer).samples@,
        dt > 0 ==> final(mouse_buffer).samples@ == keep_last(
            old(mouse_buffer).samples@ + samples_of(events@, dt as nat, old(mouse_buffer).sensitivity_multiplier as nat, now),
            old(mouse_buffer).max_samples as nat,
        ),
{
    if dt == 0 {
        return;
    }
    let ghost mult = mouse_buffer.sensitivity_multiplier as nat;
    let mut k: usize = 0;
    while k < events.len()
        invariant
            dt > 0,
            k <= events@.len(),
            mouse_buffer.max_samples == old(mouse_buffer).max_samples,
            mouse_buffer.sensitivity_multiplier == old(mouse_buffer).sensitivity_multiplier,
            mouse_buffer.raw_input == old(mouse_buffer).raw_input,
            mult == old(mouse_buffer).sensitivity_multiplier,
            mouse_buffer.well_formed(),
            mouse_buffer.samples@ == keep_last(
                old(mouse_buffer).samples@ + samples_of(events@.subrange(0, k as int), dt as nat, mult, now),
                mouse_buffer.max_samples as nat,
            ),
        decreases events@.len() - k,
    {
        let sample = record(events[k], dt, mouse_buffer.sensitivity_multiplier, now);
        let ghost before = mouse_buffer.samples@;
        mouse_buffer.samples.push(sample);
        if mouse_buffer.samples.len() > mouse_buffer.max_samples {
            mouse_buffer.samples.remove(0);
        }
        proof {
            let whole = old(mouse_buffer).samples@ + samples_of(events@.subrange(0, k as int), dt as nat, mult, now);
            let next = old(mouse_buffer).samples@ + samples_of(events@.subrange(0, k + 1), dt as nat, mult, now);
            assert(next =~= whole.push(sample));
            lemma_keep_last_push(whole, sample, mouse_buffer.max_samples as nat);
            assert(mouse_buffer.samples@ =~= keep_last(before.push(sample), mouse_buffer.max_samples as nat));
        }
        k = k + 1;
    }
    assert(events@.subrange(0, k as int) =~= events@);
}

/// Sets the multiplier for new motions from the speed of the newest
/// recorded one, through the sensitivity curve; without samples it stays.
pub fn apply_sensitivity_curve(mouse_buffer: &mut MouseInputBuffer, params: &CurveParameters)
    ensures
        final(mouse_buffer).samples@ == old(mouse_buffer).samples@,
        final(mouse_buffer).max_samples == old(mouse_buffer).max_samples,
        final(mouse_buffer).raw_input == old(mouse_buffer).raw_input,
        old(mouse_buffer).samples@.len() == 0 ==> final(mouse_buffer).sensitivity_multiplier == old(mouse_buffer).sensitivity_multiplier,
        old(mouse_buffer).samples@.len() > 0 ==> final(mouse_buffer).sensitivity_multiplier
            == curve_value(old(mouse_buffer).samples@.last().speed as nat, *params),
{
    let n = mouse_buffer.samples.len();
    if n > 0 {
        let speed = mouse_buffer.samples[n - 1].speed;
        mouse_buffer.sensitivity_multiplier = calculate_sensitivity_multiplier(speed, params);
    }
}

} // verus!

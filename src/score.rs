use vstd::prelude::*;
use crate::targets::TargetDestroyedEvent;

verus! {

/// Accuracy is kept in hundredths of a percent.
pub const ACCURACY_SCALE: u64 = 10_000;

/// Running score of a session.
#[derive(Clone, Copy, Debug, PartialEq, Eq, Structural)]
pub struct ScoreTracker {
    pub score: i64,
    pub hits: u64,
    pub misses: u64,
    /// `hits / (hits + misses)` in hundredths of a percent, rounded down;
    /// zero before the first shot.
    pub accuracy: u64,
    pub shots_fired_this_frame: bool,
    pub hit_registered_this_frame: bool,
}

/// Accuracy, in hundredths of a percent, of `hits` out of `shots`.
pub open spec fn accuracy_of(hits: nat, shots: nat) -> nat {
    if shots == 0 { 0 } else { hits * (ACCURACY_SCALE as nat) / shots }
}

/// Points awarded by the destroyed events that came from hits.
pub open spec fn hit_points(events: Seq<TargetDestroyedEvent>) -> int
    decreases events.len(),
{
    if events.len() == 0 {
        0
    } else {
        let last = events.last();
        hit_points(events.drop_last()) + if last.destroyed_by_hit { last.points as int } else { 0 }
    }
}

/// Some destroyed event came from a hit.
pub open spec fn any_hit(events: Seq<TargetDestroyedEvent>) -> bool {
    exists|i: int| 0 <= i < events.len() && (#[trigger] events[i]).destroyed_by_hit
}

impl Default for ScoreTracker {
    fn default() -> (r: Self)
        ensures
            r == (ScoreTracker {
                score: 0,
                hits: 0,
                misses: 0,
                accuracy: 0,
                shots_fired_this_frame: false,
                hit_registered_this_frame: false,
            }),
    {
        ScoreTracker {
            score: 0,
            hits: 0,
            misses: 0,
            accuracy: 0,
            shots_fired_this_frame: false,
            hit_registered_this_frame: false,
        }
    }
}

impl ScoreTracker {
    /// The stored accuracy matches the counts.
    pub open spec fn well_formed(self) -> bool {
        self.accuracy == accuracy_of(self.hits as nat, (self.hits + self.misses) as nat)
    }
}

/// A prefix sum of hit points grows by the last event's points.
proof fn lemma_hit_points_step(events: Seq<TargetDestroyedEvent>, k: int)
    requires
        0 < k <= events.len(),
    ensures
        hit_points(events.subrange(0, k)) == hit_points(events.subrange(0, k - 1))
            + if events[k - 1].destroyed_by_hit { events[k - 1].points as int } else { 0 },
{
    assert(events.subrange(0, k).drop_last() == events.subrange(0, k - 1));
}

/// Clears the per-frame flags; done at the start of every frame.
pub fn reset_score_tracker_flags(score_tracker: &mut ScoreTracker)
    ensures
        *final(score_tracker) == (ScoreTracker {
            shots_fired_this_frame: false,
            hit_registered_this_frame: false,
            ..*old(score_tracker)
        }),
{
    score_tracker.shots_fired_this_frame = false;
    score_tracker.hit_registered_this_frame = false;
}

/// Takes this frame's destroyed events and whether the fire button was
/// just pressed. Points of targets destroyed by hits are added; a shot
/// fired this frame counts as a hit if some target was destroyed by a hit
/// this frame, else as a miss, and the accuracy is recomputed.
pub fn update_score_tracker(score_tracker: &mut ScoreTracker, events: &Vec<TargetDestroyedEvent>, fire_just_pressed: bool)
    requires
        i64::MIN <= old(score_tracker).score + hit_points(events@) <= i64::MAX,
        old(score_tracker).hits + old(score_tracker).misses < u64::MAX,
    ensures
        final(score_tracker).score == old(score_tracker).score + hit_points(events@),
        final(score_tracker).hit_registered_this_frame == (old(score_tracker).hit_registered_this_frame || any_hit(events@)),
        final(score_tracker).shots_fired_this_frame == (old(score_tracker).shots_fired_this_frame || fire_just_pressed),
        final(score_tracker).shots_fired_this_frame ==> {
            &&& final(score_tracker).hit_registered_this_frame ==> final(score_tracker).hits == old(score_tracker).hits + 1 && final(score_tracker).misses == old(score_tracker).misses
            &&& !final(score_tracker).hit_registered_this_frame ==> final(score_tracker).hits == old(score_tracker).hits && final(score_tracker).misses == old(score_tracker).misses + 1
            &&& final(score_tracker).accuracy == accuracy_of(final(score_tracker).hits as nat, (final(score_tracker).hits + final(score_tracker).misses) as nat)
        },
        !final(score_tracker).shots_fired_this_frame ==> {
            &&& final(score_tracker).hits == old(score_tracker).hits && final(score_tracker).misses == old(score_tracker).misses
            &&& final(score_tracker).accuracy == old(score_tracker).accuracy
        },
        old(score_tracker).well_formed() ==> final(score_tracker).well_formed(),
        !old(score_tracker).shots_fired_this_frame && !old(score_tracker).hit_registered_this_frame
            ==> *final(score_tracker) == scored(*old(score_tracker), events@, fire_just_pressed),
{
    let mut acc: i128 = score_tracker.score as i128;
    let mut k: usize = 0;
    while k < events.len()
        invariant
            k <= events@.len(),
            score_tracker.score == old(score_tracker).score,
            acc == old(score_tracker).score + hit_points(events@.subrange(0, k as int)),
            -(k * 0x8000_0000) <= hit_points(events@.subrange(0, k as int)) <= k * 0x8000_0000,
            score_tracker.hit_registered_this_frame == (old(score_tracker).hit_registered_this_frame
                || exists|i: int| 0 <= i < k && (#[trigger] events@[i]).destroyed_by_hit),
            score_tracker.shots_fired_this_frame == old(score_tracker).shots_fired_this_frame,
            score_tracker.hits == old(score_tracker).hits && score_tracker.misses == old(score_tracker).misses && score_tracker.accuracy == old(score_tracker).accuracy,
            i64::MIN <= old(score_tracker).score + hit_points(events@) <= i64::MAX,
        decreases events@.len() - k,
    {
        let e = &events[k];
        proof {
            assert(events@.subrange(0, k + 1).drop_last() == events@.subrange(0, k as int));
            lemma_hit_points_step(events@, k + 1);
        }
        if e.destroyed_by_hit {
            acc = acc + e.points as i128;
            score_tracker.hit_registered_this_frame = true;
        }
        k = k + 1;
    }
    assert(events@.subrange(0, k as int) == events@);
    score_tracker.score = acc as i64;
    if fire_just_pressed {
        score_tracker.shots_fired_this_frame = true;
    }
    if score_tracker.shots_fired_this_frame {
        if score_tracker.hit_registered_this_frame {
            score_tracker.hits = score_tracker.hits + 1;
        } else {
            score_tracker.misses = score_tracker.misses + 1;
        }
        let total: u64 = score_tracker.hits + score_tracker.misses;
        if total > 0 {
            proof {
                crate::curve::lemma_div_le((score_tracker.hits * ACCURACY_SCALE) as nat, total as nat, ACCURACY_SCALE as nat);
                assert(score_tracker.hits * ACCURACY_SCALE <= total * ACCURACY_SCALE) by (nonlinear_arith)
                    requires score_tracker.hits <= total;
            }
            score_tracker.accuracy = ((score_tracker.hits as u128) * (ACCURACY_SCALE as u128) / (total as u128)) as u64;
        }
    }
}

/// One frame of scoring on a tracker whose frame flags are clear: the points
/// of targets destroyed by hits are added, and a shot fired this frame counts
/// as a hit when some target was destroyed by a hit, else as a miss.
pub open spec fn scored(s: ScoreTracker, events: Seq<TargetDestroyedEvent>, fired: bool) -> ScoreTracker {
    let hit = any_hit(events);
    let score = (s.score + hit_points(events)) as i64;
    if fired {
        let hits = if hit { s.hits + 1 } else { s.hits as int };
        let misses = if hit { s.misses as int } else { s.misses + 1 };
        ScoreTracker {
            score,
            hits: hits as u64,
            misses: misses as u64,
            accuracy: accuracy_of(hits as nat, (hits + misses) as nat) as u64,
            shots_fired_this_frame: true,
            hit_registered_this_frame: hit,
        }
    } else {
        ScoreTracker { score, shots_fired_this_frame: false, hit_registered_this_frame: hit, ..s }
    }
}

/// The tracker after a run of frames, each clearing the frame flags and then
/// scoring that frame's destroyed events and fire press.
pub open spec fn run_scores(s: ScoreTracker, frames: Seq<(Seq<TargetDestroyedEvent>, bool)>) -> ScoreTracker
    decreases frames.len(),
{
    if frames.len() == 0 {
        s
    } else {
        let cleared = ScoreTracker { shots_fired_this_frame: false, hit_registered_this_frame: false, ..s };
        run_scores(scored(cleared, frames[0].0, frames[0].1), frames.drop_first())
    }
}

/// Frames in which a shot was fired.
pub open spec fn shots_in(frames: Seq<(Seq<TargetDestroyedEvent>, bool)>) -> nat
    decreases frames.len(),
{
    if frames.len() == 0 { 0 } else { (if frames[0].1 { 1nat } else { 0nat }) + shots_in(frames.drop_first()) }
}

/// Frames in which a shot was fired and some target was destroyed by a hit.
pub open spec fn hits_in(frames: Seq<(Seq<TargetDestroyedEvent>, bool)>) -> nat
    decreases frames.len(),
{
    if frames.len() == 0 {
        0
    } else {
        (if frames[0].1 && any_hit(frames[0].0) { 1nat } else { 0nat }) + hits_in(frames.drop_first())
    }
}

proof fn lemma_hits_le_shots(frames: Seq<(Seq<TargetDestroyedEvent>, bool)>)
    ensures
        hits_in(frames) <= shots_in(frames) <= frames.len(),
    decreases frames.len(),
{
    if frames.len() > 0 {
        lemma_hits_le_shots(frames.drop_first());
    }
}

/// Over any run of frames, the shots with a hit are counted as hits and the
/// others as misses; once a shot has been fired the accuracy is hits over
/// shots, in hundredths of a percent rounded down. From a fresh tracker,
/// `N` shots with `H` hits give `hits == H`, `misses == N - H` and
/// `accuracy == H * 10000 / N`.
pub proof fn lemma_accuracy_over_frames(s: ScoreTracker, frames: Seq<(Seq<TargetDestroyedEvent>, bool)>)
    requires
        s.hits + s.misses + frames.len() < u64::MAX,
    ensures
        run_scores(s, frames).hits == s.hits + hits_in(frames),
        run_scores(s, frames).misses == s.misses + shots_in(frames) - hits_in(frames),
        shots_in(frames) > 0 ==> run_scores(s, frames).accuracy
            == accuracy_of(run_scores(s, frames).hits as nat, (run_scores(s, frames).hits + run_scores(s, frames).misses) as nat),
        shots_in(frames) == 0 ==> run_scores(s, frames).accuracy == s.accuracy,
    decreases frames.len(),
{
    lemma_hits_le_shots(frames);
    if frames.len() > 0 {
        let rest = frames.drop_first();
        let cleared = ScoreTracker { shots_fired_this_frame: false, hit_registered_this_frame: false, ..s };
        let n = scored(cleared, frames[0].0, frames[0].1);
        lemma_hits_le_shots(rest);
        lemma_accuracy_over_frames(n, rest);
        if frames[0].1 {
            let h = if any_hit(frames[0].0) { s.hits + 1 } else { s.hits as int };
            let m = if any_hit(frames[0].0) { s.misses as int } else { s.misses + 1 };
            let a = accuracy_of(h as nat, (h + m) as nat);
            // The accuracy of the first frame fits its field, so the cast keeps it.
            assert(a <= ACCURACY_SCALE) by {
                assert(h * ACCURACY_SCALE <= (h + m) * ACCURACY_SCALE) by (nonlinear_arith)
                    requires h <= h + m;
                crate::curve::lemma_div_le((h * ACCURACY_SCALE) as nat, (h + m) as nat, ACCURACY_SCALE as nat);
            }
        }
    }
}

} // verus!

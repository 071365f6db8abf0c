use aim_trainer::score::{reset_score_tracker_flags, update_score_tracker, ScoreTracker};
use aim_trainer::shooting::{click_targets, process_hit_result, Points, ShootTracker};
use aim_trainer::targets::TargetDestroyedEvent;

fn frame(s: &mut ScoreTracker, events: &Vec<TargetDestroyedEvent>, fired: bool) {
    reset_score_tracker_flags(s);
    update_score_tracker(s, events, fired);
}

fn destroyed(points: i32, by_hit: bool) -> TargetDestroyedEvent {
    TargetDestroyedEvent { target_entity: 1, points, destroyed_by_hit: by_hit }
}

#[test]
fn miss_hit_miss() {
    let mut s = ScoreTracker::default();
    frame(&mut s, &vec![], true);
    frame(&mut s, &vec![destroyed(100, true)], true);
    frame(&mut s, &vec![], true);
    assert_eq!(s.hits, 1);
    assert_eq!(s.misses, 2);
    assert_eq!(s.score, 100);
    // 33.33 percent, in hundredths.
    assert_eq!(s.accuracy, 3333);
}

#[test]
fn accuracy_is_hits_over_shots() {
    let mut s = ScoreTracker::default();
    for i in 0..8 {
        let events = if i % 4 == 0 { vec![destroyed(10, true)] } else { vec![] };
        frame(&mut s, &events, true);
    }
    assert_eq!((s.hits, s.misses), (2, 6));
    assert_eq!(s.accuracy, 2 * 10_000 / 8);
}

#[test]
fn expiry_and_idle_frames_do_not_count() {
    let mut s = ScoreTracker::default();
    frame(&mut s, &vec![destroyed(0, false)], false);
    assert_eq!((s.hits, s.misses, s.score, s.accuracy), (0, 0, 0, 0));
    frame(&mut s, &vec![destroyed(0, false)], true);
    assert_eq!((s.hits, s.misses), (0, 1));
}

#[test]
fn cooldown_gates_shots() {
    let mut t = ShootTracker { stopwatch: 0 };
    assert!(!click_targets(&mut t, 50, true));
    assert!(!click_targets(&mut t, 50, true));
    assert!(click_targets(&mut t, 1, true));
    assert_eq!(t.stopwatch, 0);
    assert!(!click_targets(&mut t, 500, false));
    assert_eq!(t.stopwatch, 500);
}

#[test]
fn points_for_hits_and_misses() {
    let mut p = Points { value: 0 };
    assert!(process_hit_result(Some(true), &mut p));
    assert!(!process_hit_result(Some(false), &mut p));
    assert!(!process_hit_result(None, &mut p));
    assert_eq!(p.value, -1);
}

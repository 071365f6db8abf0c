use aim_trainer::curve::CurveParameters;
use aim_trainer::input::{apply_sensitivity_curve, process_mouse_input, MouseInputBuffer, MouseSample};
use aim_trainer::layout::{spawn_random_target, spawn_scenario_targets, spawn_target_with_movement, should_top_up, update_scenario_targets};
use aim_trainer::movement::MovementPattern;
use aim_trainer::scenario::ScenarioType;
use aim_trainer::score::ScoreTracker;
use aim_trainer::session::{run_calibration_scenarios, setup_calibration_session, ScenarioMetrics};
use aim_trainer::timer::Timer;

#[test]
fn calibration_runs_five_phases() {
    let mut c = setup_calibration_session();
    let mut score = ScoreTracker::default();
    let mut ended = 0;
    for frame in 0..200u64 {
        score.score = frame as i64;
        if run_calibration_scenarios(&mut c, 1000, &score) {
            ended += 1;
        }
    }
    assert_eq!(ended, 5);
    assert!(c.is_complete);
    assert_eq!(c.collected_metrics.len(), 5);
    assert_eq!(c.collected_metrics[0], ScenarioMetrics { scenario: 0, score: 29, accuracy: 0 });
    assert_eq!(c.collected_metrics[4], ScenarioMetrics { scenario: 4, score: 149, accuracy: 0 });
}

#[test]
fn input_buffer_keeps_newest_samples() {
    let mut b = MouseInputBuffer::default();
    b.max_samples = 3;
    b.sensitivity_multiplier = 2000;
    process_mouse_input(&mut b, &vec![(3, 4), (-6, 8), (0, 1), (10, 0)], 10, 77);
    assert_eq!(b.samples.len(), 3);
    assert_eq!(b.samples[0], MouseSample { timestamp: 77, delta_x: -12, delta_y: 16, speed: 1000 });
    assert_eq!(b.samples[2], MouseSample { timestamp: 77, delta_x: 20, delta_y: 0, speed: 1000 });
    process_mouse_input(&mut b, &vec![(1, 1)], 0, 78);
    assert_eq!(b.samples.len(), 3);
}

#[test]
fn curve_sets_multiplier_from_newest_speed() {
    let mut b = MouseInputBuffer::default();
    let p = CurveParameters::default();
    apply_sensitivity_curve(&mut b, &p);
    assert_eq!(b.sensitivity_multiplier, 1000);
    // 300 px over 1 ms: far beyond the range.
    process_mouse_input(&mut b, &vec![(300, 0)], 1, 0);
    apply_sensitivity_curve(&mut b, &p);
    assert_eq!(b.sensitivity_multiplier, 3000);
}

#[test]
fn scenario_layouts() {
    let s = spawn_scenario_targets(ScenarioType::StaticClicking);
    assert_eq!(s.len(), 5);
    assert_eq!(s[0].position.x, 76_000_000);
    assert_eq!(s[4].position.y, 22_000_000);
    let d = spawn_scenario_targets(ScenarioType::DynamicClicking);
    assert_eq!(d.len(), 3);
    for t in &d {
        assert_eq!(t.pattern, MovementPattern::Random);
        assert_eq!(t.position.z, -95_000_000);
        assert!(t.position.x >= -95_000_000 && t.position.x < 95_000_000);
        assert!(t.position.y >= 5_000_000 && t.position.y < 45_000_000);
    }
    let e = spawn_scenario_targets(ScenarioType::EvasiveSwitching);
    assert_eq!(e.len(), 3);
    assert_eq!((e[0].position.x, e[2].position.y, e[1].position.z), (-20_000_000, 20_000_000, -90_000_000));
    assert_eq!(e[1].max_speed, 12_000);
    assert_eq!(spawn_scenario_targets(ScenarioType::ControlTracking)[0].pattern, MovementPattern::Smooth);
}

#[test]
fn top_up_only_for_short_dynamic_scenario() {
    assert!(should_top_up(ScenarioType::DynamicClicking, 2, 99));
    assert!(!should_top_up(ScenarioType::DynamicClicking, 2, 100));
    assert!(!should_top_up(ScenarioType::DynamicClicking, 3, 0));
    assert!(!should_top_up(ScenarioType::StaticClicking, 0, 0));
    for _ in 0..100 {
        assert!(update_scenario_targets(ScenarioType::LinearClicking, 0).is_none());
        assert!(update_scenario_targets(ScenarioType::DynamicClicking, 3).is_none());
    }
}

#[test]
fn random_replacement_targets() {
    for _ in 0..200 {
        let t = spawn_random_target();
        match t.pattern {
            MovementPattern::Static => assert_eq!(t.max_speed, 0),
            MovementPattern::Linear | MovementPattern::Circular | MovementPattern::Random => {
                assert!(t.max_speed >= 3_000 && t.max_speed < 10_000)
            }
            _ => panic!("unexpected pattern"),
        }
        assert!(t.position.x >= -95_000_000 && t.position.x < 95_000_000);
        assert_eq!(spawn_target_with_movement(&t).is_none(), t.pattern == MovementPattern::Static);
    }
}

#[test]
fn timers_once_and_repeating() {
    let mut t = Timer::once(100);
    assert!(!t.tick(60));
    assert_eq!(t.remaining(), 40);
    assert!(t.tick(60));
    assert_eq!(t.elapsed, 100);
    assert!(!t.tick(60));
    assert!(t.finished);
    let mut r = Timer::repeating(100);
    assert!(r.tick(250));
    assert_eq!(r.elapsed, 50);
    assert!(!r.tick(10));
    t.reset();
    assert_eq!(t, Timer::once(100));
}

use aim_trainer::curve::{calculate_sensitivity_multiplier, CurveParameters};

fn params(growth_base: u32, plateau: bool) -> CurveParameters {
    CurveParameters { min_sens: 1000, max_sens: 3000, range: 500, growth_base, offset: 50, plateau }
}

#[test]
fn default_parameters() {
    let p = CurveParameters::default();
    assert_eq!(p, params(1020, true));
}

#[test]
fn flat_at_or_below_offset() {
    let p = CurveParameters::default();
    for speed in [0u64, 1, 25, 49, 50] {
        assert_eq!(calculate_sensitivity_multiplier(speed, &p), 1000);
    }
}

#[test]
fn exponential_ramp_values() {
    let p = CurveParameters::default();
    assert_eq!(calculate_sensitivity_multiplier(51, &p), 1000);
    assert_eq!(calculate_sensitivity_multiplier(300, &p), 1014);
    assert_eq!(calculate_sensitivity_multiplier(549, &p), 2960);
    assert_eq!(calculate_sensitivity_multiplier(550, &p), 3000);
}

#[test]
fn smoothstep_ramp_values() {
    let p = params(1000, true);
    assert_eq!(calculate_sensitivity_multiplier(300, &p), 2000);
    assert_eq!(calculate_sensitivity_multiplier(175, &p), 1312);
}

#[test]
fn constant_max_beyond_range() {
    for plateau in [true, false] {
        for growth in [800u32, 1000, 1020, 2000] {
            let p = params(growth, plateau);
            for speed in [550u64, 551, 10_000, u64::MAX] {
                assert_eq!(calculate_sensitivity_multiplier(speed, &p), 3000);
            }
        }
    }
}

#[test]
fn monotone_in_speed() {
    for plateau in [true, false] {
        for growth in [500u32, 1000, 1001, 1020, 1500] {
            let p = params(growth, plateau);
            let mut last = 0;
            for speed in 0u64..700 {
                let v = calculate_sensitivity_multiplier(speed, &p);
                assert!(v >= last);
                assert!(v >= 1000 && v <= 3000);
                last = v;
            }
        }
    }
}

#[test]
fn degenerate_parameters_give_min() {
    let mut p = params(1020, true);
    p.range = 0;
    assert_eq!(calculate_sensitivity_multiplier(1000, &p), 1000);
    let mut q = params(1020, false);
    q.max_sens = 500;
    assert_eq!(calculate_sensitivity_multiplier(1000, &q), 1000);
}

use aim_trainer::curve::{handle_sensitivity_test_ui_interaction, TuningKeys};

fn keys(ctrl: bool, shift: bool, up: bool, down: bool, left: bool, right: bool) -> TuningKeys {
    TuningKeys { ctrl, shift, up, down, left, right }
}

#[test]
fn live_tuning_with_modifiers() {
    let mut p = CurveParameters::default();
    assert!(handle_sensitivity_test_ui_interaction(&mut p, &keys(true, false, true, false, false, true)));
    assert_eq!((p.min_sens, p.max_sens), (1100, 3500));
    assert!(handle_sensitivity_test_ui_interaction(&mut p, &keys(false, true, false, true, true, false)));
    assert_eq!((p.range, p.growth_base), (495, 1010));
    assert!(!handle_sensitivity_test_ui_interaction(&mut p, &keys(false, false, true, true, true, true)));
    assert_eq!((p.range, p.growth_base, p.min_sens, p.max_sens), (495, 1010, 1100, 3500));
}

#[test]
fn live_tuning_floors() {
    let mut p = CurveParameters { min_sens: 150, max_sens: 400, range: 7, growth_base: 1005, offset: 0, plateau: true };
    handle_sensitivity_test_ui_interaction(&mut p, &keys(true, true, false, true, true, false));
    assert_eq!(p.min_sens, 100);
    assert_eq!(p.max_sens, 100);
    assert_eq!(p.range, 5);
    assert_eq!(p.growth_base, 1000);
}

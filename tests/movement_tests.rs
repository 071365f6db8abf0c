use aim_trainer::geometry::Vec3;
use aim_trainer::movement::{
    advance_pattern, respawn, scale_to_speed, update_target_movement, update_target_movements, Bounds,
    MovementPattern, PatternMovement, TargetMovement, Wave,
};

fn in_band(p: Vec3) -> bool {
    p.z >= -95_000_000 && p.z <= -65_000_000 && p.y >= 5_000_000 && p.y <= 45_000_000
}

#[test]
fn linear_bounce_reverses_only_violating_axis() {
    let bounds = Bounds { min: Vec3::new(-1000, -1000, -1000), max: Vec3::new(1000, 1000, 1000) };
    let mut pos = Vec3::new(900, 0, 0);
    let mut m = TargetMovement::Linear { velocity: Vec3::new(10, 5, -3), bounds: Some(bounds) };
    update_target_movement(&mut pos, &mut m, 20);
    assert_eq!(pos, Vec3::new(1000, 100, -60));
    assert_eq!(m, TargetMovement::Linear { velocity: Vec3::new(-10, 5, -3), bounds: Some(bounds) });
}

#[test]
fn linear_bounded_target_never_leaves_bounds() {
    let bounds = Bounds { min: Vec3::new(-5000, 0, -300), max: Vec3::new(5000, 700, 300) };
    let mut pos = Vec3::new(0, 350, 0);
    let mut m = TargetMovement::Linear { velocity: Vec3::new(37, -11, 23), bounds: Some(bounds) };
    for frame in 0..2000u64 {
        update_target_movement(&mut pos, &mut m, 1 + frame % 40);
        assert!(pos.x >= -5000 && pos.x <= 5000);
        assert!(pos.y >= 0 && pos.y <= 700);
        assert!(pos.z >= -300 && pos.z <= 300);
    }
}

#[test]
fn unbounded_linear_and_static() {
    let mut pos = Vec3::new(1, 2, 3);
    let mut m = TargetMovement::Linear { velocity: Vec3::new(-1, 0, 2), bounds: None };
    update_target_movement(&mut pos, &mut m, 10);
    assert_eq!(pos, Vec3::new(-9, 2, 23));
    let mut s = TargetMovement::default();
    update_target_movement(&mut pos, &mut s, 10);
    assert_eq!(pos, Vec3::new(-9, 2, 23));
}

#[test]
fn scaling_to_speed() {
    assert_eq!(scale_to_speed(Vec3::new(3, 0, 4), 10_000), Vec3::new(6_000, 0, 8_000));
    assert_eq!(scale_to_speed(Vec3::new(0, 0, 0), 10_000), Vec3::new(0, 0, 0));
    assert_eq!(scale_to_speed(Vec3::new(-3, 0, -4), 5), Vec3::new(-3, 0, -4));
}

#[test]
fn linear_pattern_starts_with_drawn_heading_and_bounces() {
    let start = Vec3::new(0, 15_000_000, -80_000_000);
    let mut pos = start;
    let mut m = PatternMovement::new(MovementPattern::Linear, start, 5_000);
    let w = Wave { a: 0, b: 0 };
    advance_pattern(&mut pos, &mut m, 16, None, w, Vec3::new(600, 0, 800));
    assert_eq!(m.velocity, Vec3::new(3_000, 0, 4_000));
    assert_eq!(pos, Vec3::new(48_000, 15_000_000, -79_936_000));
    // Past the far depth the depth velocity turns round and the target is put back.
    let mut deep = Vec3::new(0, 15_000_000, -65_001_000);
    advance_pattern(&mut deep, &mut m, 10, None, w, Vec3::new(0, 0, 0));
    assert_eq!(deep.z, -65_000_000);
    assert_eq!(m.velocity, Vec3::new(3_000, 0, -4_000));
}

#[test]
fn random_patterns_stay_in_view() {
    for pattern in [MovementPattern::Random, MovementPattern::Reactive, MovementPattern::Linear] {
        let start = Vec3::new(0, 15_000_000, -90_000_000);
        let mut pos = start;
        let mut m = PatternMovement::new(pattern, start, 15_000);
        for _ in 0..3000 {
            update_target_movements(&mut pos, &mut m, 16, None, Wave { a: 0, b: 0 });
            assert!(in_band(pos));
            assert!(pos.x.abs() <= 95_000_000 + 15_000 * 16);
            assert_eq!(m.pattern, pattern);
        }
    }
}

#[test]
fn reactive_turns_every_half_second() {
    let start = Vec3::new(0, 15_000_000, -90_000_000);
    let mut pos = start;
    let mut m = PatternMovement::new(MovementPattern::Reactive, start, 15_000);
    m.velocity = Vec3::new(100, 0, 0);
    advance_pattern(&mut pos, &mut m, 500, None, Wave { a: 0, b: 0 }, Vec3::new(0, 0, 999));
    assert_eq!(m.timer, 500);
    assert_eq!(m.velocity, Vec3::new(100, 0, 0));
    advance_pattern(&mut pos, &mut m, 1, None, Wave { a: 0, b: 0 }, Vec3::new(0, 0, 999));
    assert_eq!(m.timer, 0);
    assert_eq!(m.velocity, Vec3::new(0, 0, 15_000));
}

#[test]
fn circling_target_follows_its_wave() {
    let start = Vec3::new(0, 15_000_000, -90_000_000);
    let mut pos = start;
    let mut m = PatternMovement::new(MovementPattern::Circular, start, 3_000);
    // 5 s at 3 m/s on a 15 m orbit: one radian.
    assert_eq!(m.phase_after(5000), 1_000_000);
    // cos 1 = 0.540302, sin 1 = 0.841471
    advance_pattern(&mut pos, &mut m, 5000, None, Wave { a: 540_302, b: 841_471 }, Vec3::new(0, 0, 0));
    assert_eq!(pos, Vec3::new(8_104_530, 18_786_619, -83_620_906));
    assert_eq!(m.timer, 5000);
}

#[test]
fn figure_eight_phase_and_position() {
    let start = Vec3::new(0, 15_000_000, -90_000_000);
    let mut pos = start;
    let mut m = PatternMovement::new(MovementPattern::Smooth, start, 8_000);
    assert_eq!(m.phase_after(1500), 1_500_000);
    advance_pattern(&mut pos, &mut m, 1500, None, Wave { a: -1_000_000, b: 500_000 }, Vec3::new(0, 0, 0));
    assert_eq!(pos, Vec3::new(-15_000_000, 19_000_000, -85_000_000));
}

#[test]
fn evasive_strafes_across_line_of_sight() {
    let start = Vec3::new(0, 15_000_000, -90_000_000);
    let mut pos = start;
    let mut m = PatternMovement::new(MovementPattern::Evasive, start, 12_000);
    let camera = Vec3::new(0, 1_625_000, 0);
    advance_pattern(&mut pos, &mut m, 10, Some(camera), Wave { a: 0, b: 0 }, Vec3::new(0, 0, 0));
    assert_eq!(pos, Vec3::new(120_000, 15_000_000, -90_000_000));
    let mut still = start;
    advance_pattern(&mut still, &mut m, 10, None, Wave { a: 0, b: 0 }, Vec3::new(0, 0, 0));
    assert_eq!(still, start);
}

#[test]
fn fallen_player_respawns() {
    let mut p = Vec3::new(3, -50_000_000, 4);
    let mut v = Vec3::new(1, -9, 1);
    assert!(respawn(&mut p, &mut v));
    assert_eq!(p, Vec3::new(0, 1_625_000, 0));
    assert_eq!(v, Vec3::new(0, 0, 0));
    let mut q = Vec3::new(3, -49_999_999, 4);
    assert!(!respawn(&mut q, &mut v));
}

#[test]
fn view_width_comes_from_the_moved_depth() {
    // From x = 95 m, z = -95 m at (3, 0, -5) m/s for 1 s the moved point is
    // (98, 10, -100) m: x lies within the view width at -100 m.
    let start = Vec3::new(95_000_000, 10_000_000, -95_000_000);
    let mut pos = start;
    let mut m = PatternMovement::new(MovementPattern::Linear, start, 5_831);
    m.velocity = Vec3::new(3_000, 0, -5_000);
    advance_pattern(&mut pos, &mut m, 1000, None, Wave { a: 0, b: 0 }, Vec3::new(1, 0, 0));
    assert_eq!(pos, Vec3::new(98_000_000, 10_000_000, -95_000_000));
    assert_eq!(m.velocity, Vec3::new(3_000, 0, 5_000));
}

#[test]
fn still_reactive_target_turns_at_once() {
    let start = Vec3::new(0, 15_000_000, -90_000_000);
    let mut pos = start;
    let mut m = PatternMovement::new(MovementPattern::Reactive, start, 15_000);
    advance_pattern(&mut pos, &mut m, 16, None, Wave { a: 0, b: 0 }, Vec3::new(0, 0, -500));
    assert_eq!(m.velocity, Vec3::new(0, 0, -15_000));
    assert_eq!(m.timer, 0);
    assert_eq!(pos, Vec3::new(0, 15_000_000, -90_240_000));
}

#[test]
fn drawn_headings_give_full_speed() {
    for pattern in [MovementPattern::Linear, MovementPattern::Random, MovementPattern::Reactive] {
        for _ in 0..200 {
            let start = Vec3::new(0, 15_000_000, -80_000_000);
            let mut pos = start;
            let mut m = PatternMovement::new(pattern, start, 10_000);
            update_target_movements(&mut pos, &mut m, 1, None, Wave { a: 0, b: 0 });
            let v = m.velocity;
            let sq = v.x * v.x + v.y * v.y + v.z * v.z;
            assert!(sq > 9_990 * 9_990 && sq <= 10_001 * 10_001);
        }
    }
}

#[test]
fn long_frames_are_accepted() {
    let bounds = Bounds { min: Vec3::new(-1000, -1000, -1000), max: Vec3::new(1000, 1000, 1000) };
    let mut pos = Vec3::new(0, 0, 0);
    let mut m = TargetMovement::Linear { velocity: Vec3::new(1, -1, 0), bounds: Some(bounds) };
    update_target_movement(&mut pos, &mut m, u64::MAX);
    assert_eq!(pos, Vec3::new(1000, -1000, 0));
    assert_eq!(m, TargetMovement::Linear { velocity: Vec3::new(-1, 1, 0), bounds: Some(bounds) });
    let start = Vec3::new(0, 15_000_000, -90_000_000);
    let mut c = start;
    let mut circle = PatternMovement::new(MovementPattern::Circular, start, 3_000);
    advance_pattern(&mut c, &mut circle, 10_000_000_000, None, Wave { a: 1_000_000, b: 0 }, Vec3::new(1, 0, 0));
    assert_eq!(circle.timer, 10_000_000_000);
    assert_eq!(c, Vec3::new(15_000_000, 15_000_000, -85_000_000));
}

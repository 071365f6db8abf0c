use aim_trainer::geometry::{isqrt, Hitbox, Ray3, Vec3};
use aim_trainer::shooting::max_shot_distance;

fn ray(o: (i64, i64, i64), d: (i64, i64, i64)) -> Ray3 {
    Ray3 { origin: Vec3::new(o.0, o.1, o.2), direction: Vec3::new(d.0, d.1, d.2) }
}

#[test]
fn integer_square_root() {
    assert_eq!(isqrt(0), 0);
    assert_eq!(isqrt(1), 1);
    assert_eq!(isqrt(15), 3);
    assert_eq!(isqrt(16), 4);
    assert_eq!(isqrt(u128::MAX), u64::MAX as u128);
}

#[test]
fn aimed_at_center_hits_at_distance_less_radius() {
    let h = Hitbox::Sphere { radius: 1_000_000 };
    let r = ray((0, 0, 0), (0, 0, -1000));
    // 10 m away, 1 m radius: 9 m, times the direction's length of 1000.
    assert_eq!(h.intersect_ray(&r, Vec3::new(0, 0, -10_000_000)), Some(9_000_000_000));
}

#[test]
fn aimed_away_misses() {
    let h = Hitbox::Sphere { radius: 1_000_000 };
    let r = ray((0, 0, 0), (0, 0, 1000));
    assert_eq!(h.intersect_ray(&r, Vec3::new(0, 0, -10_000_000)), None);
}

#[test]
fn passing_wide_misses() {
    let h = Hitbox::Sphere { radius: 1_000_000 };
    let r = ray((0, 0, 0), (0, 0, -1000));
    assert_eq!(h.intersect_ray(&r, Vec3::new(1_000_001, 0, -10_000_000)), None);
}

#[test]
fn tangent_ray_touches() {
    let h = Hitbox::Sphere { radius: 1_000_000 };
    let r = ray((0, 0, 0), (0, 0, -1000));
    assert_eq!(h.intersect_ray(&r, Vec3::new(1_000_000, 0, -10_000_000)), Some(10_000_000_000));
}

#[test]
fn origin_inside_takes_far_side() {
    let h = Hitbox::Sphere { radius: 2_000_000 };
    let r = ray((0, 0, 0), (0, 0, -1));
    assert_eq!(h.intersect_ray(&r, Vec3::new(0, 0, -500_000)), Some(2_500_000));
}

#[test]
fn shot_range_is_one_and_a_half_diagonals() {
    // sqrt(200^2 + 200^2 + 50^2) m = 287.228... m
    assert_eq!(max_shot_distance(), 287_228_132 * 3 / 2);
}

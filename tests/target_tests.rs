use aim_trainer::geometry::{Hitbox, Ray3, Vec3};
use aim_trainer::movement::TargetMovement;
use aim_trainer::targets::{
    setup_basic_target_spawner, update_target_spawners,
    detect_target_hits, nearest_hit, update_target_health, update_target_lifetime, HitCandidate, Lifetime,
    Target, TargetDestroyedEvent, TargetSpawner,
};
use aim_trainer::timer::Timer;

fn forward() -> Ray3 {
    Ray3 { origin: Vec3::new(0, 0, 0), direction: Vec3::new(0, 0, -1000) }
}

fn candidate(entity: u64, z: i64, radius: u32) -> HitCandidate {
    HitCandidate {
        entity,
        position: Vec3::new(0, 0, z),
        target: Target::default(),
        hitbox: Hitbox::Sphere { radius },
    }
}

#[test]
fn nearer_of_two_overlapping_targets_is_hit() {
    let far = candidate(1, -12_000_000, 2_000_000);
    let near = candidate(2, -10_000_000, 2_000_000);
    let cands = vec![far, near];
    assert_eq!(nearest_hit(&forward(), &cands), Some((1, 8_000_000_000)));
    let hit = detect_target_hits(true, &forward(), &cands).unwrap();
    assert_eq!(hit.target_entity, 2);
    assert_eq!(hit.distance, 8_000_000_000);
    assert_eq!(hit.damage, 1);
}

#[test]
fn equal_distance_takes_first() {
    let cands = vec![candidate(7, -10_000_000, 1_000_000), candidate(8, -10_000_000, 1_000_000)];
    assert_eq!(detect_target_hits(true, &forward(), &cands).unwrap().target_entity, 7);
}

#[test]
fn no_press_or_no_target_gives_no_hit() {
    let cands = vec![candidate(1, -10_000_000, 1_000_000)];
    assert!(detect_target_hits(false, &forward(), &cands).is_none());
    let behind = vec![candidate(1, 10_000_000, 1_000_000)];
    assert!(detect_target_hits(true, &forward(), &behind).is_none());
    assert!(detect_target_hits(true, &forward(), &Vec::new()).is_none());
}

#[test]
fn spawning_target_cannot_be_hit() {
    let mut appearing = candidate(1, -10_000_000, 1_000_000);
    appearing.target.spawn_timer = Some(Timer::once(500));
    let behind_it = candidate(2, -20_000_000, 1_000_000);
    let hit = detect_target_hits(true, &forward(), &vec![appearing, behind_it]).unwrap();
    assert_eq!(hit.target_entity, 2);
}

#[test]
fn hit_destroys_destroy_on_hit_target() {
    let mut t = Target::default();
    let e = update_target_health(&mut t, 5, 1).unwrap();
    assert_eq!(e, TargetDestroyedEvent { target_entity: 5, points: 100, destroyed_by_hit: true });
    assert_eq!(t, Target::default());
}

#[test]
fn hits_wear_down_health() {
    let mut t = Target { health: 2, destroy_on_hit: false, ..Target::default() };
    assert!(update_target_health(&mut t, 3, 1).is_none());
    assert_eq!(t.health, 1);
    let e = update_target_health(&mut t, 3, 1).unwrap();
    assert_eq!(t.health, 0);
    assert!(e.destroyed_by_hit);
}

#[test]
fn lifetime_expiry_gives_no_points() {
    let mut l = Lifetime { timer: Timer::once(5000) };
    assert!(update_target_lifetime(&mut l, 9, 4999).is_none());
    let e = update_target_lifetime(&mut l, 9, 1).unwrap();
    assert_eq!(e, TargetDestroyedEvent { target_entity: 9, points: 0, destroyed_by_hit: false });
}

#[test]
fn spawner_spawns_in_area_each_second_below_cap() {
    let mut s = setup_basic_target_spawner();
    assert!(update_target_spawners(&mut s, 999, 0).is_none());
    let t = update_target_spawners(&mut s, 1, 0).unwrap();
    assert!(t.position.x >= -5_000_000 && t.position.x < 5_000_000);
    assert!(t.position.y >= 500_000 && t.position.y < 3_000_000);
    assert!(t.position.z >= -8_000_000 && t.position.z < -3_000_000);
    assert_eq!(t.target.radius, 400_000);
    assert_eq!(t.hitbox, Hitbox::Sphere { radius: 480_000 });
    assert_eq!(t.lifetime, Some(Lifetime { timer: Timer::once(5000) }));
    assert_eq!(t.movement, TargetMovement::Static);
    assert_eq!(s.spawn_timer.elapsed, 0);
    // At the cap nothing spawns.
    assert!(update_target_spawners(&mut s, 1000, 5).is_none());
}

#[test]
fn spawner_with_one_shot_timer() {
    let mut s = setup_basic_target_spawner();
    s.spawn_timer = Timer::once(200);
    assert!(update_target_spawners(&mut s, 100, 0).is_none());
    assert!(update_target_spawners(&mut s, 100, 0).is_some());
    assert_eq!(s.spawn_timer, Timer::once(200));
}

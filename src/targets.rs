use vstd::prelude::*;
use crate::geometry::{Hitbox, Ray3, Vec3, WORLD_LIMIT};
use crate::movement::TargetMovement;
use crate::random::random_between;
use crate::timer::Timer;

verus! {

/// A shootable target.
#[derive(Clone, Copy, Debug, PartialEq, Eq, Structural)]
pub struct Target {
    /// Visual radius in micrometres.
    pub radius: u32,
    pub health: i32,
    /// Points awarded when a hit destroys it.
    pub points: i32,
    pub destroy_on_hit: bool,
    /// Lifetime in milliseconds, if it expires on its own.
    pub time_to_live: Option<u64>,
    /// While this timer runs the target is still appearing and cannot be hit.
    pub spawn_timer: Option<Timer>,
}

impl Default for Target {
    fn default() -> (r: Self)
        ensures
            r == (Target {
                radius: 500_000,
                health: 1,
                points: 100,
                destroy_on_hit: true,
                time_to_live: None,
                spawn_timer: None,
            }),
    {
        Target {
            radius: 500_000,
            health: 1,
            points: 100,
            destroy_on_hit: true,
            time_to_live: None,
            spawn_timer: None,
        }
    }
}

impl Target {
    /// The target can be hit: it has no spawn timer or that timer is done.
    pub open spec fn hittable(self) -> bool {
        match self.spawn_timer {
            Some(t) => t.finished,
            None => true,
        }
    }
}

/// A target was struck by a shot.
#[derive(Clone, Copy, Debug, PartialEq, Eq, Structural)]
pub struct TargetHitEvent {
    pub target_entity: u64,
    /// Distance along the shot's ray, times the length of its direction.
    pub distance: u64,
    pub damage: i32,
}

/// A target left the game, by a hit or by expiring.
#[derive(Clone, Copy, Debug, PartialEq, Eq, Structural)]
pub struct TargetDestroyedEvent {
    pub target_entity: u64,
    pub points: i32,
    pub destroyed_by_hit: bool,
}

/// A target entered the game.
#[derive(Clone, Copy, Debug, PartialEq, Eq, Structural)]
pub struct TargetSpawnedEvent {
    pub target_entity: u64,
    pub position: Vec3,
}

/// A live target as the hit test sees it.
#[derive(Clone, Copy, Debug, PartialEq, Eq, Structural)]
pub struct HitCandidate {
    pub entity: u64,
    pub position: Vec3,
    pub target: Target,
    pub hitbox: Hitbox,
}

impl HitCandidate {
    pub open spec fn hit(self, ray: Ray3) -> Option<nat> {
        if self.target.hittable() {
            self.hitbox.hit_spec(ray, self.position)
        } else {
            None
        }
    }
}

/// All candidates lie where the exact hit arithmetic applies.
pub open spec fn candidates_in_world(cands: Seq<HitCandidate>) -> bool {
    forall|i: int| 0 <= i < cands.len() ==> (#[trigger] cands[i]).position.within(WORLD_LIMIT as int)
}

/// Index and distance of the nearest hit candidate along the ray: the
/// smallest distance among all candidates that the ray hits, the first such
/// candidate on a tie; `None` when the ray hits none.
pub fn nearest_hit(ray: &Ray3, cands: &Vec<HitCandidate>) -> (r: Option<(usize, u64)>)
    requires
        ray.well_formed(),
        candidates_in_world(cands@),
    ensures
        r is None <==> forall|j: int| 0 <= j < cands@.len() ==> (#[trigger] cands@[j].hit(*ray)) is None,
        r matches Some((i, t)) ==> {
            &&& i < cands@.len()
            &&& cands@[i as int].hit(*ray) == Some(t as nat)
            &&& forall|j: int| 0 <= j < cands@.len() ==> (#[trigger] cands@[j].hit(*ray) matches Some(u) ==> t <= u)
            &&& forall|j: int| 0 <= j < i ==> (#[trigger] cands@[j].hit(*ray) matches Some(u) ==> t < u)
        },
{
    let mut best: Option<(usize, u64)> = None;
    let mut k: usize = 0;
    while k < cands.len()
        invariant
            ray.well_formed(),
            candidates_in_world(cands@),
            k <= cands@.len(),
            best is None <==> forall|j: int| 0 <= j < k ==> (#[trigger] cands@[j].hit(*ray)) is None,
            best matches Some((i, t)) ==> {
                &&& i < k
                &&& cands@[i as int].hit(*ray) == Some(t as nat)
                &&& forall|j: int| 0 <= j < k ==> (#[trigger] cands@[j].hit(*ray) matches Some(u) ==> t <= u)
                &&& forall|j: int| 0 <= j < i ==> (#[trigger] cands@[j].hit(*ray) matches Some(u) ==> t < u)
            },
        decreases cands@.len() - k,
    {
        let c = &cands[k];
        assert(c.position.within(WORLD_LIMIT as int));
        let hittable = match &c.target.spawn_timer {
            Some(t) => t.finished,
            None => true,
        };
        if hittable {
            if let Some(d) = c.hitbox.intersect_ray(ray, c.position) {
                let closer = match best {
                    None => true,
                    Some((_, t)) => d < t,
                };
                if closer {
                    best = Some((k, d));
                }
            }
        }
        k = k + 1;
    }
    best
}

/// On a fresh press of the fire button, the hit on the nearest target along
/// the shot's ray (one damage); no event when the button was not pressed or
/// the shot hits nothing.
pub fn detect_target_hits(fire_pressed: bool, ray: &Ray3, cands: &Vec<HitCandidate>) -> (r: Option<TargetHitEvent>)
    requires
        ray.well_formed(),
        candidates_in_world(cands@),
    ensures
        !fire_pressed ==> r is None,
        fire_pressed ==> (r is None <==> forall|j: int| 0 <= j < cands@.len() ==> (#[trigger] cands@[j].hit(*ray)) is None),
        r matches Some(e) ==> exists|i: int| 0 <= i < cands@.len() && {
            &&& cands@[i].entity == e.target_entity
            &&& cands@[i].hit(*ray) == Some(e.distance as nat)
            &&& forall|j: int| 0 <= j < cands@.len() ==> (#[trigger] cands@[j].hit(*ray) matches Some(u) ==> e.distance <= u)
            &&& forall|j: int| 0 <= j < i ==> (#[trigger] cands@[j].hit(*ray) matches Some(u) ==> e.distance < u)
        },
        r matches Some(e) ==> e.damage == 1,
{
    if !fire_pressed {
        return None;
    }
    match nearest_hit(ray, cands) {
        Some((i, d)) => Some(TargetHitEvent { target_entity: cands[i].entity, distance: d, damage: 1 }),
        None => None,
    }
}

/// What a hit does to a target: one that is destroyed on hit, or whose
/// health drops to zero or below, is destroyed and awards its points.
pub fn update_target_health(target: &mut Target, entity: u64, damage: i32) -> (r: Option<TargetDestroyedEvent>)
    requires
        !old(target).destroy_on_hit ==> i32::MIN <= old(target).health - damage <= i32::MAX,
    ensures
        old(target).destroy_on_hit ==> *final(target) == *old(target),
        !old(target).destroy_on_hit ==> *final(target) == (Target { health: (old(target).health - damage) as i32, ..*old(target) }),
        r is Some <==> (old(target).destroy_on_hit || old(target).health - damage <= 0),
        r matches Some(e) ==> e == (TargetDestroyedEvent { target_entity: entity, points: old(target).points, destroyed_by_hit: true }),
{
    if target.destroy_on_hit {
        return Some(TargetDestroyedEvent { target_entity: entity, points: target.points, destroyed_by_hit: true });
    }
    target.health = target.health - damage;
    if target.health <= 0 {
        Some(TargetDestroyedEvent { target_entity: entity, points: target.points, destroyed_by_hit: true })
    } else {
        None
    }
}

/// A target's remaining life.
#[derive(Clone, Copy, Debug, PartialEq, Eq, Structural)]
pub struct Lifetime {
    pub timer: Timer,
}

/// Ticks a target's lifetime; once it runs out the target is destroyed
/// without awarding points.
pub fn update_target_lifetime(lifetime: &mut Lifetime, entity: u64, dt: u64) -> (r: Option<TargetDestroyedEvent>)
    requires
        old(lifetime).timer.well_formed(),
    ensures
        final(lifetime).timer == old(lifetime).timer.ticked(dt as nat),
        final(lifetime).timer.well_formed(),
        r is Some <==> final(lifetime).timer.finished,
        r matches Some(e) ==> e == (TargetDestroyedEvent { target_entity: entity, points: 0, destroyed_by_hit: false }),
{
    lifetime.timer.tick(dt);
    if lifetime.timer.finished {
        Some(TargetDestroyedEvent { target_entity: entity, points: 0, destroyed_by_hit: false })
    } else {
        None
    }
}

/// Largest visual radius (micrometres) of a spawned target.
pub const MAX_TARGET_RADIUS: u32 = 1_000_000_000;

/// Spawns targets at random spots of a box, on a repeating timer, while fewer
/// than `max_targets` are up.
#[derive(Clone, Copy, Debug, PartialEq, Eq, Structural)]
pub struct TargetSpawner {
    pub spawn_timer: Timer,
    pub max_targets: usize,
    pub spawn_area_min: Vec3,
    pub spawn_area_max: Vec3,
    pub target_radius: u32,
    /// Lifetime of spawned targets in milliseconds, if they expire.
    pub target_lifetime: Option<u64>,
    pub target_movement: TargetMovement,
}

/// Everything a spawner makes for one new target.
#[derive(Clone, Copy, Debug, PartialEq, Eq, Structural)]
pub struct SpawnedTarget {
    pub position: Vec3,
    pub target: Target,
    pub hitbox: Hitbox,
    pub lifetime: Option<Lifetime>,
    pub movement: TargetMovement,
}

impl TargetSpawner {
    pub open spec fn well_formed(self) -> bool {
        &&& self.spawn_timer.well_formed()
        &&& self.spawn_area_min.x < self.spawn_area_max.x
        &&& self.spawn_area_min.y < self.spawn_area_max.y
        &&& self.spawn_area_min.z < self.spawn_area_max.z
        &&& self.target_radius <= MAX_TARGET_RADIUS
    }

    /// The target this spawner makes at a given spot: default stats with the
    /// spawner's radius and lifetime, a hitbox 1.2 times the radius (rounded
    /// down) for forgiving hits, and the spawner's movement.
    pub open spec fn spawned_at(self, position: Vec3) -> SpawnedTarget {
        SpawnedTarget {
            position,
            target: Target {
                radius: self.target_radius,
                health: 1,
                points: 100,
                destroy_on_hit: true,
                time_to_live: self.target_lifetime,
                spawn_timer: None,
            },
            hitbox: Hitbox::Sphere { radius: (self.target_radius * 6 / 5) as u32 },
            lifetime: match self.target_lifetime {
                Some(ms) => Some(Lifetime { timer: Timer::once_spec(ms) }),
                None => None,
            },
            movement: self.target_movement,
        }
    }
}

/// One frame: ticks the timer and, when it comes round while fewer than
/// `max_targets` targets are up, spawns one at a random spot of the box
/// and restarts the timer.
pub fn update_target_spawners(spawner: &mut TargetSpawner, dt: u64, current_count: usize) -> (r: Option<SpawnedTarget>)
    requires
        old(spawner).well_formed(),
    ensures
        final(spawner).well_formed(),
        r is Some <==> (old(spawner).spawn_timer.ticked(dt as nat).just_finished && current_count < old(spawner).max_targets),
        r is None ==> *final(spawner) == (TargetSpawner { spawn_timer: old(spawner).spawn_timer.ticked(dt as nat), ..*old(spawner) }),
        r matches Some(t) ==> {
            &&& *final(spawner) == (TargetSpawner {
                spawn_timer: Timer { elapsed: 0, finished: false, just_finished: false, ..old(spawner).spawn_timer },
                ..*old(spawner)
            })
            &&& t == old(spawner).spawned_at(t.position)
            &&& old(spawner).spawn_area_min.x <= t.position.x < old(spawner).spawn_area_max.x
            &&& old(spawner).spawn_area_min.y <= t.position.y < old(spawner).spawn_area_max.y
            &&& old(spawner).spawn_area_min.z <= t.position.z < old(spawner).spawn_area_max.z
        },
{
    let done = spawner.spawn_timer.tick(dt);
    if !(done && current_count < spawner.max_targets) {
        return None;
    }
    let position = Vec3 {
        x: random_between(spawner.spawn_area_min.x, spawner.spawn_area_max.x),
        y: random_between(spawner.spawn_area_min.y, spawner.spawn_area_max.y),
        z: random_between(spawner.spawn_area_min.z, spawner.spawn_area_max.z),
    };
    let hitbox_radius: u64 = (spawner.target_radius as u64) * 6 / 5;
    let lifetime = match spawner.target_lifetime {
        Some(ms) => Some(Lifetime { timer: Timer::once(ms) }),
        None => None,
    };
    let t = SpawnedTarget {
        position,
        target: Target {
            radius: spawner.target_radius,
            health: 1,
            points: 100,
            destroy_on_hit: true,
            time_to_live: spawner.target_lifetime,
            spawn_timer: None,
        },
        hitbox: Hitbox::Sphere { radius: hitbox_radius as u32 },
        lifetime,
        movement: spawner.target_movement,
    };
    spawner.spawn_timer.reset();
    Some(t)
}

/// The spawner of the basic arena: one static target a second, at most
/// five, 0.4 m in radius, living five seconds, in a box in front of the
/// player.
pub fn setup_basic_target_spawner() -> (r: TargetSpawner)
    ensures
        r.well_formed(),
        r.spawn_timer == Timer::repeating_spec(1000),
        r.max_targets == 5,
        r.spawn_area_min == (Vec3 { x: -5_000_000i64, y: 500_000, z: -8_000_000i64 }),
        r.spawn_area_max == (Vec3 { x: 5_000_000, y: 3_000_000, z: -3_000_000i64 }),
        r.target_radius == 400_000,
        r.target_lifetime == Some(5000u64),
        r.target_movement is Static,
{
    TargetSpawner {
        spawn_timer: Timer::repeating(1000),
        max_targets: 5,
        spawn_area_min: Vec3 { x: -5_000_000, y: 500_000, z: -8_000_000 },
        spawn_area_max: Vec3 { x: 5_000_000, y: 3_000_000, z: -3_000_000 },
        target_radius: 400_000,
        target_lifetime: Some(5000),
        target_movement: TargetMovement::Static,
    }
}

} // verus!

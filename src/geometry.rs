use vstd::prelude::*;

verus! {

/// Largest coordinate magnitude (micrometres) that the hit test accepts.
pub const WORLD_LIMIT: i64 = 0x1_0000_0000;

/// Largest component magnitude of a ray direction.
pub const DIRECTION_LIMIT: i64 = 0x100_0000;

/// A point or displacement; each component in micrometres.
#[derive(Clone, Copy, Debug, PartialEq, Eq, Structural)]
pub struct Vec3 {
    pub x: i64,
    pub y: i64,
    pub z: i64,
}

impl Vec3 {
    pub fn new(x: i64, y: i64, z: i64) -> (r: Vec3)
        ensures
            r == (Vec3 { x, y, z }),
    {
        Vec3 { x, y, z }
    }

    pub open spec fn within(self, limit: int) -> bool {
        -limit <= self.x <= limit && -limit <= self.y <= limit && -limit <= self.z <= limit
    }
}

/// A ray: the points `origin + k * direction` for `k >= 0`. The direction
/// need not be a unit vector; distances along the ray come out multiplied by
/// its length.
#[derive(Clone, Copy, Debug, PartialEq, Eq, Structural)]
pub struct Ray3 {
    pub origin: Vec3,
    pub direction: Vec3,
}

impl Ray3 {
    /// Origin and direction are small enough for the exact hit arithmetic.
    pub open spec fn well_formed(self) -> bool {
        self.origin.within(WORLD_LIMIT as int) && self.direction.within(DIRECTION_LIMIT as int)
    }
}

pub open spec fn dot(ax: int, ay: int, az: int, bx: int, by: int, bz: int) -> int {
    ax * bx + ay * by + az * bz
}

/// `s` is the square root of `n` rounded down.
pub open spec fn is_sqrt_floor(n: nat, s: nat) -> bool {
    s * s <= n < (s + 1) * (s + 1)
}

/// The square root of `n`, rounded down.
pub open spec fn sqrt_floor(n: nat) -> nat {
    choose|s: nat| is_sqrt_floor(n, s)
}

pub proof fn lemma_sqrt_floor_unique(n: nat, s: nat)
    requires
        is_sqrt_floor(n, s),
    ensures
        sqrt_floor(n) == s,
{
    assert(is_sqrt_floor(n, s));
    let c = sqrt_floor(n);
    assert(is_sqrt_floor(n, c));
    if c < s {
        assert((c + 1) * (c + 1) <= s * s) by (nonlinear_arith)
            requires c + 1 <= s;
    } else if s < c {
        assert((s + 1) * (s + 1) <= c * c) by (nonlinear_arith)
            requires s + 1 <= c;
    }
}

/// Square root rounded down.
pub fn isqrt(n: u128) -> (r: u128)
    ensures
        is_sqrt_floor(n as nat, r as nat),
        r == sqrt_floor(n as nat),
{
    let mut lo: u128 = 0;
    let mut hi: u128 = 0x1_0000_0000_0000_0000;
    assert(hi * hi > 0xffff_ffff_ffff_ffff_ffff_ffff_ffff_ffff) by (nonlinear_arith)
        requires hi == 0x1_0000_0000_0000_0000u128;
    while hi - lo > 1
        invariant
            lo < hi <= 0x1_0000_0000_0000_0000,
            lo * lo <= n,
            n < hi * hi,
        decreases hi - lo,
    {
        let mid: u128 = lo + (hi - lo) / 2;
        assert(mid * mid <= 0xffff_ffff_ffff_ffff * 0xffff_ffff_ffff_ffff) by (nonlinear_arith)
            requires mid <= 0xffff_ffff_ffff_ffff;
        if mid * mid <= n {
            lo = mid;
        } else {
            hi = mid;
        }
    }
    assert(hi == lo + 1);
    proof {
        lemma_sqrt_floor_unique(n as nat, lo as nat);
    }
    lo
}

/// `|x * y| <= bx * by` for `|x| <= bx`, `|y| <= by`.
pub proof fn lemma_mul_abs(x: int, y: int, bx: int, by: int)
    requires
        -bx <= x <= bx,
        -by <= y <= by,
    ensures
        -(bx * by) <= x * y <= bx * by,
{
    assert(-(bx * by) <= x * y <= bx * by) by (nonlinear_arith)
        requires -bx <= x <= bx, -by <= y <= by;
}

/// Nearest forward hit of a ray on a sphere, as the distance along the ray
/// multiplied by the length of the ray's direction. With `a = |d|^2`,
/// `b = d . (c - o)` and `disc = b^2 - a (|c - o|^2 - r^2)`, the two
/// crossings lie at `(b -/+ sqrt(disc)) / |d|`: the nearer is taken when it
/// lies ahead of the origin, else the farther, else there is none. A
/// negative `disc` means that the ray's line misses the sphere.
pub open spec fn ray_sphere_hit(ray: Ray3, center: Vec3, radius: nat) -> Option<nat> {
    let b = ray_projection(ray, center);
    let disc = ray_discriminant(ray, center, radius);
    if disc < 0 {
        None
    } else {
        let s = sqrt_floor(disc as nat);
        if b - s > 0 {
            Some((b - s) as nat)
        } else if b + s > 0 {
            Some((b + s) as nat)
        } else {
            None
        }
    }
}

/// `|d|^2`, the squared length of the ray's direction.
pub open spec fn ray_length_sq(ray: Ray3) -> int {
    let d = ray.direction;
    dot(d.x as int, d.y as int, d.z as int, d.x as int, d.y as int, d.z as int)
}

/// `d . (c - o)`: the projection of the center onto the ray, times `|d|`.
pub open spec fn ray_projection(ray: Ray3, center: Vec3) -> int {
    let d = ray.direction;
    dot(d.x as int, d.y as int, d.z as int,
        center.x - ray.origin.x, center.y - ray.origin.y, center.z - ray.origin.z)
}

/// `|c - o|^2`, the squared distance from the origin to the center.
pub open spec fn center_dist_sq(ray: Ray3, center: Vec3) -> int {
    let (ox, oy, oz) = (center.x - ray.origin.x, center.y - ray.origin.y, center.z - ray.origin.z);
    dot(ox, oy, oz, ox, oy, oz)
}

/// `b^2 - a (|c - o|^2 - r^2)`; it is `a` times `r^2` less the squared
/// distance from the center to the ray's line.
pub open spec fn ray_discriminant(ray: Ray3, center: Vec3, radius: nat) -> int {
    let b = ray_projection(ray, center);
    b * b - ray_length_sq(ray) * (center_dist_sq(ray, center) - radius * radius)
}

/// A ray that starts outside a sphere and points straight at its center hits
/// it at the distance to the center less the radius (both times `|d|`).
pub proof fn lemma_hit_aimed_at_center(ray: Ray3, center: Vec3, radius: nat, m: nat, len: nat)
    requires
        ray_length_sq(ray) == len * len,
        center.x - ray.origin.x == m * ray.direction.x,
        center.y - ray.origin.y == m * ray.direction.y,
        center.z - ray.origin.z == m * ray.direction.z,
        m * len > radius,
    ensures
        ray_sphere_hit(ray, center, radius) == Some(len * (m * len - radius) as nat),
{
    let d = ray.direction;
    let a = ray_length_sq(ray);
    assert(ray_projection(ray, center) == m * a) by (nonlinear_arith)
        requires
            center.x - ray.origin.x == m * d.x, center.y - ray.origin.y == m * d.y,
            center.z - ray.origin.z == m * d.z, a == d.x * d.x + d.y * d.y + d.z * d.z,
            ray_projection(ray, center) == d.x * (center.x - ray.origin.x) + d.y * (center.y - ray.origin.y) + d.z * (center.z - ray.origin.z);
    assert(center_dist_sq(ray, center) == m * m * a) by (nonlinear_arith)
        requires
            center.x - ray.origin.x == m * d.x, center.y - ray.origin.y == m * d.y,
            center.z - ray.origin.z == m * d.z, a == d.x * d.x + d.y * d.y + d.z * d.z,
            center_dist_sq(ray, center) == (center.x - ray.origin.x) * (center.x - ray.origin.x)
                + (center.y - ray.origin.y) * (center.y - ray.origin.y) + (center.z - ray.origin.z) * (center.z - ray.origin.z);
    let s = len * radius;
    let b = m * a;
    let q = m * m * a;
    let r2 = radius * radius;
    assert(b * b == m * m * (a * a)) by (nonlinear_arith)
        requires b == m * a;
    assert(a * (q - r2) == m * m * (a * a) - a * r2) by (nonlinear_arith)
        requires q == m * m * a;
    assert(a * r2 == s * s) by (nonlinear_arith)
        requires a == len * len, s == len * radius, r2 == radius * radius;
    assert(ray_discriminant(ray, center, radius) == s * s);
    assert(s * s <= s * s < (s + 1) * (s + 1)) by (nonlinear_arith);
    lemma_sqrt_floor_unique((s * s) as nat, s);
    assert(m * a - s == len * (m * len - radius)) by (nonlinear_arith)
        requires a == len * len, s == len * radius;
    assert(len * (m * len - radius) > 0) by (nonlinear_arith)
        requires m * len > radius, len >= 0;
}

/// A ray that starts outside a sphere and points away from its center (or
/// across it at a right angle) never hits it.
pub proof fn lemma_miss_aimed_away(ray: Ray3, center: Vec3, radius: nat)
    requires
        center_dist_sq(ray, center) > radius * radius,
        ray_projection(ray, center) <= 0,
    ensures
        ray_sphere_hit(ray, center, radius) is None,
{
    let b = ray_projection(ray, center);
    let d = ray.direction;
    let disc = ray_discriminant(ray, center, radius);
    assert(ray_length_sq(ray) >= 0) by (nonlinear_arith)
        requires ray_length_sq(ray) == d.x * d.x + d.y * d.y + d.z * d.z;
    assert(disc <= b * b) by (nonlinear_arith)
        requires
            disc == b * b - ray_length_sq(ray) * (center_dist_sq(ray, center) - radius * radius),
            ray_length_sq(ray) >= 0, center_dist_sq(ray, center) > radius * radius;
    if disc >= 0 {
        let s = sqrt_floor(disc as nat);
        lemma_sqrt_floor_exists(disc as nat);
        assert(s * s <= disc);
        assert(s <= -b) by (nonlinear_arith)
            requires s * s <= disc, disc <= b * b, b <= 0, s >= 0
        {
            if s > -b {
                assert(s * s > b * b) by (nonlinear_arith)
                    requires s > -b, b <= 0;
            }
        }
    }
}

/// Every natural number has a rounded-down square root.
pub proof fn lemma_sqrt_floor_exists(n: nat)
    ensures
        is_sqrt_floor(n, sqrt_floor(n)),
{
    let r = isqrt_spec_witness(n);
    lemma_sqrt_floor_unique(n, r);
}

proof fn isqrt_spec_witness(n: nat) -> (r: nat)
    ensures
        is_sqrt_floor(n, r),
    decreases n,
{
    if n == 0 {
        assert(0 * 0 <= 0nat < (0 + 1) * (0 + 1)) by (nonlinear_arith);
        0
    } else {
        let p = isqrt_spec_witness((n - 1) as nat);
        if (p + 1) * (p + 1) <= n {
            assert((p + 1) * (p + 1) == n) by (nonlinear_arith)
                requires (p + 1) * (p + 1) <= n, n - 1 < (p + 1) * (p + 1);
            assert(n < (p + 2) * (p + 2)) by (nonlinear_arith)
                requires (p + 1) * (p + 1) == n;
            p + 1
        } else {
            p
        }
    }
}

/// A ray whose line passes exactly at the radius from the center, ahead of
/// the origin, touches the sphere at the point of closest approach.
pub proof fn lemma_tangent_hit(ray: Ray3, center: Vec3, radius: nat)
    requires
        ray_discriminant(ray, center, radius) == 0,
        ray_projection(ray, center) > 0,
    ensures
        ray_sphere_hit(ray, center, radius) == Some(ray_projection(ray, center) as nat),
{
    assert(0 * 0 <= 0nat < (0 + 1) * (0 + 1)) by (nonlinear_arith);
    lemma_sqrt_floor_unique(0, 0);
}

/// Collision shape of a target.
#[derive(Clone, Copy, Debug, PartialEq, Eq, Structural)]
pub enum Hitbox {
    /// A sphere of the given radius (micrometres) around the target's position.
    Sphere { radius: u32 },
}

impl Hitbox {
    pub open spec fn hit_spec(self, ray: Ray3, center: Vec3) -> Option<nat> {
        match self {
            Hitbox::Sphere { radius } => ray_sphere_hit(ray, center, radius as nat),
        }
    }

    /// Distance (scaled by the direction's length) from the ray's origin to
    /// the nearest point ahead of it where the ray enters or leaves the
    /// hitbox placed at `center`.
    pub fn intersect_ray(&self, ray: &Ray3, center: Vec3) -> (r: Option<u64>)
        requires
            ray.well_formed(),
            center.within(WORLD_LIMIT as int),
        ensures
            r == (match self.hit_spec(*ray, center) {
                Some(t) => Some(t as u64),
                None => None,
            }),
            self.hit_spec(*ray, center) matches Some(t) ==> t <= u64::MAX,
    {
        match self {
            Hitbox::Sphere { radius } => sphere_hit(ray, center, *radius),
        }
    }
}

fn sphere_hit(ray: &Ray3, center: Vec3, radius: u32) -> (r: Option<u64>)
    requires
        ray.well_formed(),
        center.within(WORLD_LIMIT as int),
    ensures
        r == (match ray_sphere_hit(*ray, center, radius as nat) {
            Some(t) => Some(t as u64),
            None => None,
        }),
        ray_sphere_hit(*ray, center, radius as nat) matches Some(t) ==> t <= u64::MAX,
{
    let ox: i128 = center.x as i128 - ray.origin.x as i128;
    let oy: i128 = center.y as i128 - ray.origin.y as i128;
    let oz: i128 = center.z as i128 - ray.origin.z as i128;
    let dx: i128 = ray.direction.x as i128;
    let dy: i128 = ray.direction.y as i128;
    let dz: i128 = ray.direction.z as i128;
    let ghost lim_o: int = 2 * WORLD_LIMIT;
    let ghost lim_d: int = DIRECTION_LIMIT as int;
    proof {
        lemma_mul_abs(dx as int, dx as int, lim_d, lim_d);
        lemma_mul_abs(dy as int, dy as int, lim_d, lim_d);
        lemma_mul_abs(dz as int, dz as int, lim_d, lim_d);
        lemma_mul_abs(dx as int, ox as int, lim_d, lim_o);
        lemma_mul_abs(dy as int, oy as int, lim_d, lim_o);
        lemma_mul_abs(dz as int, oz as int, lim_d, lim_o);
        lemma_mul_abs(ox as int, ox as int, lim_o, lim_o);
        lemma_mul_abs(oy as int, oy as int, lim_o, lim_o);
        lemma_mul_abs(oz as int, oz as int, lim_o, lim_o);
    }
    let a: i128 = dx * dx + dy * dy + dz * dz;
    let b: i128 = dx * ox + dy * oy + dz * oz;
    let oo: i128 = ox * ox + oy * oy + oz * oz;
    proof {
        lemma_mul_abs(radius as int, radius as int, 0xffff_ffff, 0xffff_ffff);
        assert(ox * ox >= 0 && oy * oy >= 0 && oz * oz >= 0 && radius * radius >= 0) by (nonlinear_arith);
    }
    let rr: i128 = (radius as i128) * (radius as i128);
    let ghost lim_a: int = 3 * lim_d * lim_d;
    let ghost lim_b: int = 3 * lim_d * lim_o;
    let ghost lim_q: int = 3 * lim_o * lim_o + 0x1_0000_0000_0000_0000;
    proof {
        lemma_mul_abs(b as int, b as int, lim_b, lim_b);
        lemma_mul_abs(a as int, (oo - rr) as int, lim_a, lim_q);
        assert(lim_b * lim_b < 0x100_0000_0000_0000_0000_0000_0000_0000) by (nonlinear_arith)
            requires lim_b == 3 * 0x100_0000 * 0x2_0000_0000;
        assert(lim_a * lim_q < 0x100_0000_0000_0000_0000_0000_0000_0000) by (nonlinear_arith)
            requires lim_a == 3 * 0x100_0000 * 0x100_0000, lim_q == 3 * 0x2_0000_0000 * 0x2_0000_0000 + 0x1_0000_0000_0000_0000;
    }
    let disc: i128 = b * b - a * (oo - rr);
    if disc < 0 {
        return None;
    }
    let s: u128 = isqrt(disc as u128);
    proof {
        assert(s * s <= disc);
        assert(disc < 0x200_0000_0000_0000_0000_0000_0000_0000);
        if s >= 0x2000_0000_0000_0000 {
            assert(s * s >= 0x2000_0000_0000_0000 * 0x2000_0000_0000_0000) by (nonlinear_arith)
                requires s >= 0x2000_0000_0000_0000;
        }
    }
    let si: i128 = s as i128;
    assert(lim_b < 0x1000_0000_0000_0000) by (nonlinear_arith)
        requires lim_b == 3 * 0x100_0000 * 0x2_0000_0000;
    if b - si > 0 {
        Some((b - si) as u64)
    } else if b + si > 0 {
        Some((b + si) as u64)
    } else {
        None
    }
}

} // verus!

//! Hittable geometry: spheres and the aggregate scene that returns the
//! nearest intersection of a ray within a parametric interval.

use vstd::prelude::*;
use crate::fx::{SCALE, fadd, fsub, fneg, fmul, fdiv, fsqrt, lemma_tdiv_cancel, lemma_sqrt_unique};
use crate::fx::{fx_add, fx_sub, fx_neg, fx_mul, fx_div, fx_sqrt};
use crate::vec3::{Vec3, V3i, v3_sub, v3_div_s, dot3, len3};
use crate::ray::{Ray, ray_at};
use crate::material::Material;

verus! {

/// A recorded intersection: parametric distance, world-space point, outward
/// normal, and the material of the struck surface.
#[derive(Clone, Copy, Debug, PartialEq, Eq, Structural)]
pub struct HitRecord {
    pub t: i64,
    pub p: Vec3,
    pub normal: Vec3,
    pub material: Material,
}

/// A sphere. A negative radius is allowed and flips the normal inward,
/// which models a hollow glass shell; a zero radius is degenerate and kept
/// out by the scene's well-formedness.
#[derive(Clone, Copy, Debug, PartialEq, Eq, Structural)]
pub struct Sphere {
    pub center: Vec3,
    pub radius: i64,
    pub material: Material,
}

/// The components of a mathematical vector as a `Vec3`: the identity
/// whenever they fit the scalar range, as every saturated result does.
pub open spec fn to_vec3(a: V3i) -> Vec3 {
    Vec3 { x: a.x as i64, y: a.y as i64, z: a.z as i64 }
}

/// The record a sphere reports for a hit at parameter `t`: the point on the
/// ray and the normal `(point - center) / radius`, whose direction follows
/// the sign of the radius.
pub open spec fn sphere_rec(s: Sphere, r: Ray, t: int) -> HitRecord {
    let p = ray_at(r, t);
    HitRecord {
        t: t as i64,
        p: to_vec3(p),
        normal: to_vec3(v3_div_s(v3_sub(p, s.center@), s.radius as int)),
        material: s.material,
    }
}

/// Mirror of the quadratic intersection test: with `oc = origin - center`,
/// `a = dot(dir, dir)`, `b = dot(oc, dir)`, `c = dot(oc, oc) - radius^2`
/// and `disc = b^2 - a * c`, the nearer root `(-b - sqrt(disc)) / a` is
/// tried first, then the farther one, each against the open interval
/// `(t_min, t_max)`. No hit unless the discriminant is positive; a
/// direction whose squared length rounds to zero is a miss.
pub open spec fn sphere_hit_spec(s: Sphere, r: Ray, t_min: int, t_max: int) -> Option<HitRecord> {
    let oc = v3_sub(r.a@, s.center@);
    let a = dot3(r.b@, r.b@);
    let b = dot3(oc, r.b@);
    let c = fsub(dot3(oc, oc), fmul(s.radius as int, s.radius as int));
    let disc = fsub(fmul(b, b), fmul(a, c));
    if disc > 0 && a != 0 {
        let sq = fsqrt(disc);
        let t1 = fdiv(fsub(fneg(b), sq), a);
        if t_min < t1 && t1 < t_max {
            Some(sphere_rec(s, r, t1))
        } else {
            let t2 = fdiv(fadd(fneg(b), sq), a);
            if t_min < t2 && t2 < t_max {
                Some(sphere_rec(s, r, t2))
            } else {
                None
            }
        }
    } else {
        None
    }
}

impl Sphere {
    /// The nearest intersection of the ray with this sphere strictly inside
    /// `(t_min, t_max)`, if any.
    pub fn hit(&self, ray: &Ray, t_min: i64, t_max: i64) -> (r: Option<HitRecord>)
        requires
            self.radius != 0,
        ensures
            r == sphere_hit_spec(*self, *ray, t_min as int, t_max as int),
    {
        let oc = ray.a.sub(self.center);
        let a = Vec3::dot(&ray.b, &ray.b);
        let b = Vec3::dot(&oc, &ray.b);
        let c = fx_sub(Vec3::dot(&oc, &oc), fx_mul(self.radius, self.radius));
        let discriminant = fx_sub(fx_mul(b, b), fx_mul(a, c));
        if discriminant > 0 && a != 0 {
            let discriminant_sqrt = fx_sqrt(discriminant);
            let temp = fx_div(fx_sub(fx_neg(b), discriminant_sqrt), a);
            if t_max > temp && temp > t_min {
                let point = ray.point_at_parameter(temp);
                return Some(
                    HitRecord {
                        t: temp,
                        p: point,
                        normal: point.sub(self.center).div_s(self.radius),
                        material: self.material,
                    },
                );
            }
            let temp = fx_div(fx_add(fx_neg(b), discriminant_sqrt), a);
            if t_max > temp && temp > t_min {
                let point = ray.point_at_parameter(temp);
                return Some(
                    HitRecord {
                        t: temp,
                        p: point,
                        normal: point.sub(self.center).div_s(self.radius),
                        material: self.material,
                    },
                );
            }
        }
        None
    }
}

/// The nearest hit among the first `n` spheres of the list: each candidate
/// is tried against an interval shrunk to the closest hit found so far, so
/// a later sphere replaces the result only when strictly closer, and equal
/// distances keep the earliest sphere.
pub open spec fn hit_prefix(list: Seq<Sphere>, r: Ray, t_min: int, t_max: int, n: int) -> Option<
    HitRecord,
>
    decreases n,
{
    if n <= 0 {
        None
    } else {
        let prev = hit_prefix(list, r, t_min, t_max, n - 1);
        let cur_max = match prev {
            Some(h) => h.t as int,
            None => t_max,
        };
        match sphere_hit_spec(list[n - 1], r, t_min, cur_max) {
            Some(h) => Some(h),
            None => prev,
        }
    }
}

/// The nearest hit across the whole scene.
pub open spec fn hit_list_spec(list: Seq<Sphere>, r: Ray, t_min: int, t_max: int) -> Option<
    HitRecord,
> {
    hit_prefix(list, r, t_min, t_max, list.len() as int)
}

/// Why a scene was rejected at construction.
#[derive(Clone, Copy, Debug, PartialEq, Eq, Structural)]
pub enum GeometryError {
    /// Some sphere has radius zero, which leaves its normal undefined.
    DegenerateSphere,
    /// Some dielectric's refractive index does not lie above one.
    InvalidRefractiveIndex,
}

/// A usable primitive: a nonzero radius and a well-formed material.
pub open spec fn sphere_wf(s: Sphere) -> bool {
    s.radius != 0 && s.material.wf()
}

/// The ordered collection of primitives making up a scene. Built once,
/// then read-only.
pub struct HittableList {
    pub list: Vec<Sphere>,
}

impl HittableList {
    /// Every radius is nonzero and every material is well formed.
    pub open spec fn wf(&self) -> bool {
        forall|i: int| 0 <= i < self.list@.len() ==> sphere_wf(#[trigger] self.list@[i])
    }

    /// Build a scene, rejecting degenerate primitives: it succeeds exactly
    /// when every radius is nonzero and every refractive index lies above
    /// one, and otherwise reports what is wrong with the first bad sphere.
    pub fn new(list: Vec<Sphere>) -> (r: Result<HittableList, GeometryError>)
        ensures
            r is Ok <==> forall|i: int| 0 <= i < list@.len() ==> sphere_wf(#[trigger] list@[i]),
            r matches Ok(w) ==> w.list == list && w.wf(),
            r matches Err(e) ==> exists|i: int|
                0 <= i < list@.len() && !sphere_wf(#[trigger] list@[i]) && (forall|j: int|
                    0 <= j < i ==> sphere_wf(#[trigger] list@[j])) && e == (if list@[i].radius
                    == 0 {
                    GeometryError::DegenerateSphere
                } else {
                    GeometryError::InvalidRefractiveIndex
                }),
    {
        let mut i: usize = 0;
        while i < list.len()
            invariant
                i <= list@.len(),
                forall|j: int| 0 <= j < i ==> sphere_wf(#[trigger] list@[j]),
            decreases list@.len() - i,
        {
            if list[i].radius == 0 {
                return Err(GeometryError::DegenerateSphere);
            }
            let index_ok = match list[i].material {
                Material::Dielectric(d) => d.ref_idx > SCALE,
                _ => true,
            };
            if !index_ok {
                return Err(GeometryError::InvalidRefractiveIndex);
            }
            i += 1;
        }
        Ok(HittableList { list })
    }

    /// The nearest intersection across all primitives: a linear scan that
    /// shrinks the interval to the closest hit found so far.
    pub fn hit(&self, ray: &Ray, t_min: i64, t_max: i64) -> (r: Option<HitRecord>)
        requires
            self.wf(),
        ensures
            r == hit_list_spec(self.list@, *ray, t_min as int, t_max as int),
    {
        let mut hit_anything: Option<HitRecord> = None;
        let mut closest_so_far = t_max;
        let mut i: usize = 0;
        while i < self.list.len()
            invariant
                self.wf(),
                i <= self.list@.len(),
                hit_anything == hit_prefix(self.list@, *ray, t_min as int, t_max as int, i as int),
                closest_so_far as int == (match hit_anything {
                    Some(h) => h.t as int,
                    None => t_max as int,
                }),
            decreases self.list@.len() - i,
        {
            if let Some(hit) = self.list[i].hit(ray, t_min, closest_so_far) {
                closest_so_far = hit.t;
                hit_anything = Some(hit);
            }
            i += 1;
        }
        hit_anything
    }
}

/// Sphere intersection round trip: a ray starting two radii from the
/// center of a sphere, aimed straight at it along an axis, hits at a
/// positive parameter, at a point whose distance from the center is
/// exactly the radius, with a normal of exactly unit length. The radius is
/// kept on the fixed-point grid (a multiple of 256 below `2^38`) so every
/// step of the quadratic is exact.
pub proof fn lemma_sphere_round_trip(rad: i64, m: Material, t_min: int, t_max: int)
    requires
        0 < rad,
        rad % 256 == 0,
        rad <= 0x4000000000,
        0 <= t_min < rad,
        rad < t_max,
    ensures
        ({
            let s = (Sphere { center: (Vec3 { x: 0, y: 0, z: 0 }), radius: rad, material: m });
            let r = (Ray {
                a: (Vec3 { x: 0, y: 0, z: (2 * rad) as i64 }),
                b: (Vec3 { x: 0, y: 0, z: (-65536) as i64 }),
            });
            let hit = sphere_hit_spec(s, r, t_min, t_max);
            &&& hit == Some(sphere_rec(s, r, rad as int))
            &&& sphere_rec(s, r, rad as int).t == rad
            &&& sphere_rec(s, r, rad as int).t > 0
            &&& len3(v3_sub(sphere_rec(s, r, rad as int).p@, s.center@)) == rad
            &&& sphere_rec(s, r, rad as int).normal@ == (V3i { x: 0, y: 0, z: SCALE as int })
            &&& len3(sphere_rec(s, r, rad as int).normal@) == SCALE
        }),
{
    let sc = SCALE as int;
    let rd = rad as int;
    let k = rd / 256;
    vstd::arithmetic::div_mod::lemma_fundamental_div_mod(rd, 256);
    assert(rd == 256 * k);
    assert(0 < k <= 0x40000000);

    let s = (Sphere { center: (Vec3 { x: 0, y: 0, z: 0 }), radius: rad, material: m });
    let r = (Ray {
        a: (Vec3 { x: 0, y: 0, z: (2 * rad) as i64 }),
        b: (Vec3 { x: 0, y: 0, z: (-65536) as i64 }),
    });

    // products of zero components
    lemma_tdiv_cancel(0, sc);
    assert(fmul(0, 0) == 0);

    // a = dot(dir, dir) is exactly one
    lemma_tdiv_cancel(sc, sc);
    assert((-sc) * (-sc) == sc * sc) by (nonlinear_arith);
    assert(fmul(-sc, -sc) == sc);
    let aq = dot3(r.b@, r.b@);
    assert(aq == sc);

    // b = dot(oc, dir) is exactly -2r
    let oc = v3_sub(r.a@, s.center@);
    assert(oc == (V3i { x: 0, y: 0, z: 2 * rd }));
    lemma_tdiv_cancel(-2 * rd, sc);
    assert((2 * rd) * (-sc) == (-2 * rd) * sc) by (nonlinear_arith);
    assert(fmul(2 * rd, -sc) == -2 * rd);
    let bq = dot3(oc, r.b@);
    assert(bq == -2 * rd);

    // k * k fits comfortably, so nothing saturates
    assert(1 <= k * k && k * k <= 0x40000000 * 0x40000000) by (nonlinear_arith)
        requires
            0 < k <= 0x40000000,
    ;

    // c = dot(oc, oc) - r^2 is exactly 3 k^2
    lemma_tdiv_cancel(4 * (k * k), sc);
    assert((2 * rd) * (2 * rd) == (4 * (k * k)) * sc) by (nonlinear_arith)
        requires
            rd == 256 * k,
            sc == 65536,
    ;
    assert(fmul(2 * rd, 2 * rd) == 4 * (k * k));
    lemma_tdiv_cancel(k * k, sc);
    assert(rd * rd == (k * k) * sc) by (nonlinear_arith)
        requires
            rd == 256 * k,
            sc == 65536,
    ;
    assert(fmul(rd, rd) == k * k);
    let cq = fsub(dot3(oc, oc), fmul(rd, rd));
    assert(cq == 3 * (k * k));

    // disc = b^2 - a c is exactly k^2, and its root is exactly r
    assert((-2 * rd) * (-2 * rd) == (4 * (k * k)) * sc) by (nonlinear_arith)
        requires
            rd == 256 * k,
            sc == 65536,
    ;
    assert(fmul(bq, bq) == 4 * (k * k));
    lemma_tdiv_cancel(3 * (k * k), sc);
    assert(sc * (3 * (k * k)) == (3 * (k * k)) * sc) by (nonlinear_arith);
    assert(fmul(aq, cq) == 3 * (k * k));
    let disc = fsub(fmul(bq, bq), fmul(aq, cq));
    assert(disc == k * k);
    assert((k * k) * sc == rd * rd) by (nonlinear_arith)
        requires
            rd == 256 * k,
            sc == 65536,
    ;
    assert(rd * rd < (rd + 1) * (rd + 1)) by (nonlinear_arith)
        requires
            rd > 0,
    ;
    lemma_sqrt_unique(rd * rd, rd);
    assert(fsqrt(disc) == rd);

    // the nearer root (-b - sqrt) / a is exactly r, inside the interval
    lemma_tdiv_cancel(rd, sc);
    assert(fdiv(fsub(fneg(bq), fsqrt(disc)), aq) == rd);

    // the hit point is (0, 0, r), at distance exactly r from the center
    lemma_tdiv_cancel(-rd, sc);
    assert((-sc) * rd == (-rd) * sc) by (nonlinear_arith);
    assert(fmul(-sc, rd) == -rd);
    assert(fmul(0, rd) == 0);
    let p = ray_at(r, rd);
    assert(p == (V3i { x: 0, y: 0, z: rd }));
    lemma_sqrt_unique((k * k) * sc, rd);
    assert(len3(v3_sub(p, s.center@)) == rd);

    // the normal is exactly (0, 0, 1), of exactly unit length
    lemma_tdiv_cancel(sc, rd);
    assert(sc * rd == rd * sc) by (nonlinear_arith);
    assert(fdiv(rd, rd) == sc);
    assert(0 * sc == 0 * rd) by (nonlinear_arith);
    lemma_tdiv_cancel(0, rd);
    assert(fdiv(0, rd) == 0);
    let n = v3_div_s(v3_sub(p, s.center@), rd);
    assert(n == (V3i { x: 0, y: 0, z: sc }));
    assert(fmul(sc, sc) == sc);
    lemma_sqrt_unique(sc * sc, sc);
    assert(len3(n) == sc);
}

/// The material a reported hit carries is the material of one of the first
/// `n` spheres of the list.
pub proof fn lemma_hit_material(list: Seq<Sphere>, r: Ray, t_min: int, t_max: int, n: int)
    requires
        0 <= n <= list.len(),
    ensures
        hit_prefix(list, r, t_min, t_max, n) matches Some(h) ==> exists|i: int|
            0 <= i < n && h.material == (#[trigger] list[i]).material,
    decreases n,
{
    if n > 0 {
        lemma_hit_material(list, r, t_min, t_max, n - 1);
        let prev = hit_prefix(list, r, t_min, t_max, n - 1);
        let cur_max = match prev {
            Some(h) => h.t as int,
            None => t_max,
        };
        match sphere_hit_spec(list[n - 1], r, t_min, cur_max) {
            Some(h) => {
                assert(h.material == list[n - 1].material);
            },
            None => {},
        }
    }
}

/// A hit the scan reports lies strictly inside the query interval. Each
/// candidate is tested against an interval that only ever shrinks, so in
/// particular the nearest-hit parameter is positive whenever the interval
/// starts at a nonnegative bound.
pub proof fn lemma_hit_in_interval(list: Seq<Sphere>, r: Ray, t_min: int, t_max: int, n: int)
    requires
        0 <= n <= list.len(),
    ensures
        hit_prefix(list, r, t_min, t_max, n) matches Some(h) ==> t_min < h.t < t_max,
    decreases n,
{
    if n > 0 {
        lemma_hit_in_interval(list, r, t_min, t_max, n - 1);
    }
}

} // verus!

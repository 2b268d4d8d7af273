//! The light-scattering model: diffuse (Lambertian), reflective (Metal) and
//! refractive (Dielectric) materials behind one closed variant, mapping an
//! incoming ray and a surface hit to an attenuation color, an outgoing ray
//! and whether the path continues.

use vstd::prelude::*;
use crate::fx::{SCALE, fadd, fsub, fmul, fdiv, fsqrt};
use crate::fx::{fx_add, fx_sub, fx_neg, fx_mul, fx_div};
use crate::vec3::{Vec3, V3i, v3_add, v3_sub, v3_neg, v3_scale, dot3, unit3};
use crate::ray::Ray;
use crate::objects::HitRecord;
use crate::rng::{rand01, random_in_unit_sphere};

verus! {

/// Mirror of the reflection formula `v - 2 * dot(v, n) * n`.
pub open spec fn reflect3(v: V3i, n: V3i) -> V3i {
    v3_sub(v, v3_scale(n, fmul(131072, dot3(v, n))))
}

fn reflect(v: &Vec3, n: &Vec3) -> (r: Vec3)
    ensures
        r@ == reflect3(v@, n@),
{
    let s = fx_mul(131072, Vec3::dot(v, n));
    (*v).sub((*n).scale(s))
}

/// Mirror of Snell's law: the refracted direction when the discriminant
/// `1 - ratio^2 * (1 - dt^2)` is positive, or nothing on total internal
/// reflection.
pub open spec fn refract3(v: V3i, n: V3i, ni_over_nt: int) -> Option<V3i> {
    let uv = unit3(v);
    let dt = dot3(uv, n);
    let disc = fsub(SCALE as int, fmul(fmul(ni_over_nt, ni_over_nt), fsub(SCALE as int, fmul(dt, dt))));
    if disc > 0 {
        Some(v3_sub(v3_scale(v3_sub(uv, v3_scale(n, dt)), ni_over_nt), v3_scale(n, fsqrt(disc))))
    } else {
        None
    }
}

fn refract(v: &Vec3, n: &Vec3, ni_over_nt: i64) -> (r: Option<Vec3>)
    ensures
        r is Some <==> refract3(v@, n@, ni_over_nt as int) is Some,
        r matches Some(w) ==> refract3(v@, n@, ni_over_nt as int) == Some(w@),
{
    let uv = Vec3::unit_or_zero(*v);
    let dt = Vec3::dot(&uv, n);
    let disc = fx_sub(
        SCALE,
        fx_mul(fx_mul(ni_over_nt, ni_over_nt), fx_sub(SCALE, fx_mul(dt, dt))),
    );
    if disc > 0 {
        Some(uv.sub((*n).scale(dt)).scale(ni_over_nt).sub((*n).scale(crate::fx::fx_sqrt(disc))))
    } else {
        None
    }
}

/// The reflectance at normal incidence, `((1 - index) / (1 + index))^2`.
pub open spec fn schlick_r0(ref_idx: int) -> int {
    let a = fdiv(fsub(SCALE as int, ref_idx), fadd(SCALE as int, ref_idx));
    fmul(a, a)
}

/// The fifth power, associated as `((x^2) * (x^2)) * x`.
pub open spec fn pow5(x: int) -> int {
    fmul(fmul(fmul(x, x), fmul(x, x)), x)
}

/// Mirror of Schlick's approximation `r0 + (1 - r0) * (1 - cos)^5`.
pub open spec fn schlick_spec(cos: int, ref_idx: int) -> int {
    fadd(schlick_r0(ref_idx), fmul(fsub(SCALE as int, schlick_r0(ref_idx)), pow5(fsub(SCALE as int, cos))))
}

/// Schlick's approximation of the Fresnel reflectance. The index must not
/// be minus one, where the formula divides by zero.
pub fn schlick(cos: i64, ref_idx: i64) -> (r: i64)
    requires
        ref_idx != -SCALE,
    ensures
        r as int == schlick_spec(cos as int, ref_idx as int),
{
    let a = fx_div(fx_sub(SCALE, ref_idx), fx_add(SCALE, ref_idx));
    let r0 = fx_mul(a, a);
    let omc = fx_sub(SCALE, cos);
    let p5 = fx_mul(fx_mul(fx_mul(omc, omc), fx_mul(omc, omc)), omc);
    fx_add(r0, fx_mul(fx_sub(SCALE, r0), p5))
}

/// At normal incidence (`cos` exactly one) Schlick's reflectance is exactly
/// `r0 = ((1 - index) / (1 + index))^2`: the angle-dependent term vanishes.
pub proof fn lemma_schlick_normal_incidence(ref_idx: int)
    requires
        ref_idx != -(SCALE as int),
    ensures
        schlick_spec(SCALE as int, ref_idx) == schlick_r0(ref_idx),
{
    assert(pow5(0) == 0);
    assert(fmul(fsub(SCALE as int, schlick_r0(ref_idx)), 0) == 0);
}

/// A diffuse surface: scatters toward a random point near the surface
/// normal and always continues the path.
#[derive(Clone, Copy, Debug, PartialEq, Eq, Structural)]
pub struct Lambertian {
    pub albedo: Vec3,
}

impl Lambertian {
    fn scatter(&self, record: &HitRecord, rng: &mut rand::rngs::StdRng) -> (r: (Vec3, Ray, bool))
        ensures
            r.0 == self.albedo,
            r.1.a == record.p,
            r.2 == true,
            exists|u: V3i|
                dot3(u, u) < SCALE && r.1.b@ == v3_sub(
                    v3_add(v3_add(record.p@, record.normal@), u),
                    record.p@,
                ),
    {
        let s = random_in_unit_sphere(rng);
        let target = record.p.add(record.normal).add(s);
        let scattered = Ray { a: record.p, b: target.sub(record.p) };
        proof {
            assert(dot3(s@, s@) < SCALE && scattered.b@ == v3_sub(
                v3_add(v3_add(record.p@, record.normal@), s@),
                record.p@,
            ));
        }
        (self.albedo, scattered, true)
    }
}

/// A reflective surface with a fuzz radius; values above one clamp to one.
#[derive(Clone, Copy, Debug, PartialEq, Eq, Structural)]
pub struct Metal {
    pub albedo: Vec3,
    pub fuzz: i64,
}

/// The fuzz actually applied: clamped to at most one.
pub open spec fn metal_fuzz(m: Metal) -> int {
    if m.fuzz < SCALE { m.fuzz as int } else { SCALE as int }
}

impl Metal {
    fn scatter(&self, ray_in: &Ray, record: &HitRecord, rng: &mut rand::rngs::StdRng) -> (r: (
        Vec3,
        Ray,
        bool,
    ))
        ensures
            r.0 == self.albedo,
            r.1.a == record.p,
            r.2 == (dot3(r.1.b@, record.normal@) > 0),
            exists|u: V3i|
                dot3(u, u) < SCALE && r.1.b@ == v3_add(
                    reflect3(unit3(ray_in.b@), record.normal@),
                    v3_scale(u, metal_fuzz(*self)),
                ),
    {
        let reflected = reflect(&Vec3::unit_or_zero(ray_in.b), &record.normal);
        let fuzz = if self.fuzz < SCALE { self.fuzz } else { SCALE };
        let s = random_in_unit_sphere(rng);
        let scattered = Ray { a: record.p, b: reflected.add(s.scale(fuzz)) };
        let scatters = Vec3::dot(&scattered.b, &record.normal) > 0;
        proof {
            assert(dot3(s@, s@) < SCALE && scattered.b@ == v3_add(
                reflect3(unit3(ray_in.b@), record.normal@),
                v3_scale(s@, metal_fuzz(*self)),
            ));
        }
        (self.albedo, scattered, scatters)
    }
}

/// A refractive surface such as glass; the index is above one.
#[derive(Clone, Copy, Debug, PartialEq, Eq, Structural)]
pub struct Dielectric {
    pub ref_idx: i64,
}

/// The outward normal the refraction test uses: against the incoming ray.
pub open spec fn diel_outward(dir: V3i, n: V3i) -> V3i {
    if dot3(dir, n) > 0 { v3_neg(n) } else { n }
}

/// The index ratio: the index itself when exiting, its inverse when
/// entering.
pub open spec fn diel_ratio(ref_idx: int, dir: V3i, n: V3i) -> int {
    if dot3(dir, n) > 0 { ref_idx } else { fdiv(SCALE as int, ref_idx) }
}

impl Dielectric {
    fn scatter(&self, ray_in: &Ray, record: &HitRecord, rng: &mut rand::rngs::StdRng) -> (r: (
        Vec3,
        Ray,
        bool,
    ))
        requires
            self.ref_idx > SCALE,
        ensures
            r.0@ == (V3i { x: SCALE as int, y: SCALE as int, z: SCALE as int }),
            r.1.a == record.p,
            r.2 == true,
            r.1.b@ == reflect3(ray_in.b@, record.normal@) || refract3(
                ray_in.b@,
                diel_outward(ray_in.b@, record.normal@),
                diel_ratio(self.ref_idx as int, ray_in.b@, record.normal@),
            ) == Some(r.1.b@),
    {
        let reflected = reflect(&ray_in.b, &record.normal);
        let d = Vec3::dot(&ray_in.b, &record.normal);
        let dir_len = ray_in.b.length();
        let outward_normal: Vec3;
        let ni_over_nt: i64;
        let cos: i64;
        if d > 0 {
            outward_normal = record.normal.neg();
            ni_over_nt = self.ref_idx;
            cos = if dir_len == 0 { 0 } else { fx_div(fx_mul(self.ref_idx, d), dir_len) };
        } else {
            outward_normal = record.normal;
            ni_over_nt = fx_div(SCALE, self.ref_idx);
            cos = if dir_len == 0 { 0 } else { fx_div(fx_neg(d), dir_len) };
        }
        let b = match refract(&ray_in.b, &outward_normal, ni_over_nt) {
            Some(refracted) => {
                let reflect_prob = schlick(cos, self.ref_idx);
                if rand01(rng) < reflect_prob { reflected } else { refracted }
            },
            None => reflected,
        };
        (Vec3::unit(SCALE), Ray { a: record.p, b }, true)
    }
}

/// The closed variant over the material kinds.
#[derive(Clone, Copy, Debug, PartialEq, Eq, Structural)]
pub enum Material {
    Metal(Metal),
    Lambertian(Lambertian),
    Dielectric(Dielectric),
}

/// The attenuation a scatter applies: the albedo for diffuse and metal
/// surfaces, pure white for glass, which absorbs nothing.
pub open spec fn attenuation_of(m: Material) -> V3i {
    match m {
        Material::Metal(mm) => mm.albedo@,
        Material::Lambertian(l) => l.albedo@,
        Material::Dielectric(_) => V3i { x: SCALE as int, y: SCALE as int, z: SCALE as int },
    }
}

/// An admissible scattered direction for a material at a hit: a diffuse
/// material bounces toward the hit point plus the normal plus a unit-ball
/// sample; a metal reflects the unit incoming direction and perturbs it by
/// the clamped fuzz times a unit-ball sample; glass either reflects the raw
/// incoming direction or refracts it through the outward normal.
pub open spec fn scatter_dir_ok(m: Material, ray_in: Ray, rec: HitRecord, b: V3i) -> bool {
    match m {
        Material::Lambertian(_) => exists|u: V3i|
            dot3(u, u) < SCALE && b == v3_sub(v3_add(v3_add(rec.p@, rec.normal@), u), rec.p@),
        Material::Metal(mm) => exists|u: V3i|
            dot3(u, u) < SCALE && b == v3_add(
                reflect3(unit3(ray_in.b@), rec.normal@),
                v3_scale(u, metal_fuzz(mm)),
            ),
        Material::Dielectric(d) => b == reflect3(ray_in.b@, rec.normal@) || refract3(
            ray_in.b@,
            diel_outward(ray_in.b@, rec.normal@),
            diel_ratio(d.ref_idx as int, ray_in.b@, rec.normal@),
        ) == Some(b),
    }
}

/// Whether a scattered direction continues the path: a metal ray continues
/// exactly when it leaves the surface; diffuse and glass always continue.
pub open spec fn scatter_continues(m: Material, rec: HitRecord, b: V3i) -> bool {
    match m {
        Material::Metal(_) => dot3(b, rec.normal@) > 0,
        _ => true,
    }
}

impl Material {
    /// A dielectric's refractive index lies above one; the other kinds are
    /// unconstrained.
    pub open spec fn wf(self) -> bool {
        match self {
            Material::Dielectric(d) => d.ref_idx > SCALE,
            _ => true,
        }
    }

    /// Scatter the incoming ray at the hit: an admissible direction for the
    /// material from the hit point, attenuated by the material's color.
    /// Diffuse and refractive materials always continue the path; a metal
    /// continues it exactly when the scattered ray leaves the surface.
    pub fn scatter(&self, ray_in: &Ray, record: &HitRecord, rng: &mut rand::rngs::StdRng) -> (r: (
        Vec3,
        Ray,
        bool,
    ))
        requires
            self.wf(),
        ensures
            r.0@ == attenuation_of(*self),
            r.1.a == record.p,
            scatter_dir_ok(*self, *ray_in, *record, r.1.b@),
            r.2 == scatter_continues(*self, *record, r.1.b@),
    {
        match self {
            Material::Metal(m) => m.scatter(ray_in, record, rng),
            Material::Lambertian(m) => m.scatter(record, rng),
            Material::Dielectric(m) => m.scatter(ray_in, record, rng),
        }
    }
}

} // verus!

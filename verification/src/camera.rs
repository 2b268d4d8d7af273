//! The camera: an orthonormal basis and a focal-plane rectangle derived
//! once from the viewing configuration, mapping normalized image-plane
//! coordinates and a lens sample to a world-space ray.

use vstd::prelude::*;
use crate::fx::{SCALE, fadd, fsub, fmul, fdiv};
use crate::fx::{fx_add, fx_sub, fx_mul, fx_div};
use crate::vec3::{Vec3, V3i, v3_add, v3_sub, v3_scale, cross3, dot3, len3, unit3};
use crate::ray::Ray;
use crate::objects::to_vec3;
use crate::rng::rand_sym;

verus! {

/// One radian per degree, `pi / 180`, as a fixed-point scalar.
pub const RAD_PER_DEG: i64 = 1143;

/// Why a camera configuration was rejected.
#[derive(Clone, Copy, Debug, PartialEq, Eq, Structural)]
pub enum ConfigError {
    /// The vertical field of view must lie strictly between 0 and 180 degrees.
    InvalidFov,
    /// The aspect ratio must be positive.
    InvalidAspect,
    /// The aperture must not be negative.
    InvalidAperture,
    /// The focus distance must be positive.
    InvalidFocusDistance,
    /// Look-from and look-at coincide (to fixed-point precision).
    DegenerateView,
    /// The view-up direction is parallel to the view axis.
    DegenerateBasis,
}

/// Rejection sampling of a point uniform in the open unit disk of the
/// x-y plane. A draw budget of `2^64` bounds the loop for the termination
/// proof; an exhausted budget — never observable in practice — yields the
/// center of the disk.
pub fn random_in_unit_disk(rng: &mut rand::rngs::StdRng) -> (p: Vec3)
    ensures
        dot3(p@, p@) < SCALE,
        p@.z == 0,
{
    let mut p = Vec3::unit(SCALE);
    let mut sq = p.squared_length();
    proof {
        crate::fx::lemma_tdiv_cancel(SCALE as int, SCALE as int);
        assert(fmul(SCALE as int, SCALE as int) == SCALE as int);
        assert(dot3(p@, p@) == 3 * SCALE);
    }
    let mut budget: u64 = u64::MAX;
    while sq >= SCALE && budget > 0
        invariant
            sq as int == dot3(p@, p@),
            p@.z == 0 || sq >= SCALE,
        decreases budget,
    {
        p = Vec3 { x: rand_sym(rng), y: rand_sym(rng), z: 0 };
        sq = p.squared_length();
        budget = budget - 1;
    }
    if sq >= SCALE {
        p = Vec3 { x: 0, y: 0, z: 0 };
        assert(dot3(p@, p@) == 0);
    }
    p
}

/// Taylor polynomial for the sine, `x - x^3/6 + x^5/120 - x^7/5040`,
/// over fixed-point scalars.
pub open spec fn sin_poly(x: int) -> int {
    let x2 = fmul(x, x);
    let x3 = fmul(x2, x);
    let x5 = fmul(x3, x2);
    let x7 = fmul(x5, x2);
    fsub(fadd(fsub(x, fdiv(x3, 393216)), fdiv(x5, 7864320)), fdiv(x7, 330301440))
}

/// Taylor polynomial for the cosine, `1 - x^2/2 + x^4/24 - x^6/720`,
/// over fixed-point scalars.
pub open spec fn cos_poly(x: int) -> int {
    let x2 = fmul(x, x);
    let x4 = fmul(x2, x2);
    let x6 = fmul(x4, x2);
    fsub(fadd(fsub(SCALE as int, fdiv(x2, 131072)), fdiv(x4, 1572864)), fdiv(x6, 47185920))
}

/// The tangent as the quotient of the two polynomials; where the cosine
/// term is not positive (at or beyond a right angle) the tangent saturates.
pub open spec fn tan_poly(x: int) -> int {
    if cos_poly(x) <= 0 {
        i64::MAX as int
    } else {
        fdiv(sin_poly(x), cos_poly(x))
    }
}

/// The tangent of an angle given in radians, used for the field of view.
fn tan_fx(x: i64) -> (r: i64)
    ensures
        r as int == tan_poly(x as int),
{
    let x2 = fx_mul(x, x);
    let x3 = fx_mul(x2, x);
    let x5 = fx_mul(x3, x2);
    let x7 = fx_mul(x5, x2);
    let s = fx_sub(fx_add(fx_sub(x, fx_div(x3, 393216)), fx_div(x5, 7864320)), fx_div(x7, 330301440));
    let x4 = fx_mul(x2, x2);
    let x6 = fx_mul(x4, x2);
    let c = fx_sub(fx_add(fx_sub(SCALE, fx_div(x2, 131072)), fx_div(x4, 1572864)), fx_div(x6, 47185920));
    if c <= 0 {
        i64::MAX
    } else {
        fx_div(s, c)
    }
}

/// An immutable camera: basis vectors, the focal rectangle and the lens
/// radius, derived once and shared read-only by every worker.
#[derive(Clone, Copy, Debug, PartialEq, Eq, Structural)]
pub struct Camera {
    pub lower_left_corner: Vec3,
    pub horizontal: Vec3,
    pub vertical: Vec3,
    pub origin: Vec3,
    pub u: Vec3,
    pub v: Vec3,
    pub lens_radius: i64,
}

/// A configuration the constructor accepts: field of view strictly between
/// 0 and 180 degrees, positive aspect ratio, nonnegative aperture, positive
/// focus distance, distinct look-from and look-at, and a view-up direction
/// not parallel to the view axis.
pub open spec fn camera_ok(
    look_from: Vec3,
    look_at: Vec3,
    view_up: Vec3,
    fov: int,
    aspect: int,
    aperture: int,
    focus_distance: int,
) -> bool {
    &&& 0 < fov < 11796480
    &&& aspect > 0
    &&& aperture >= 0
    &&& focus_distance > 0
    &&& len3(v3_sub(look_from@, look_at@)) != 0
    &&& len3(cross3(view_up@, unit3(v3_sub(look_from@, look_at@)))) != 0
}

/// The error reported for a rejected configuration: the first failing check.
pub open spec fn camera_err(
    look_from: Vec3,
    look_at: Vec3,
    view_up: Vec3,
    fov: int,
    aspect: int,
    aperture: int,
    focus_distance: int,
) -> ConfigError {
    if !(0 < fov < 11796480) {
        ConfigError::InvalidFov
    } else if !(aspect > 0) {
        ConfigError::InvalidAspect
    } else if !(aperture >= 0) {
        ConfigError::InvalidAperture
    } else if !(focus_distance > 0) {
        ConfigError::InvalidFocusDistance
    } else if len3(v3_sub(look_from@, look_at@)) == 0 {
        ConfigError::DegenerateView
    } else {
        ConfigError::DegenerateBasis
    }
}

/// Mirror of the construction: `w`, `u`, `v` form a right-handed basis,
/// the focal rectangle is anchored one focus distance ahead, and the lens
/// radius is half the aperture.
pub open spec fn camera_make(
    look_from: Vec3,
    look_at: Vec3,
    view_up: Vec3,
    fov: int,
    aspect: int,
    aperture: int,
    focus_distance: int,
) -> Camera {
    let theta = fmul(fov, RAD_PER_DEG as int);
    let half_height = tan_poly(fdiv(theta, 131072));
    let half_width = fmul(aspect, half_height);
    let w = unit3(v3_sub(look_from@, look_at@));
    let u = unit3(cross3(view_up@, w));
    let v = cross3(w, u);
    let half_horizontal = v3_scale(u, fmul(half_width, focus_distance));
    let half_vertical = v3_scale(v, fmul(half_height, focus_distance));
    let lower_left_corner = v3_sub(
        v3_sub(v3_sub(look_from@, half_horizontal), half_vertical),
        v3_scale(w, focus_distance),
    );
    Camera {
        lower_left_corner: to_vec3(lower_left_corner),
        horizontal: to_vec3(v3_scale(half_horizontal, 131072)),
        vertical: to_vec3(v3_scale(half_vertical, 131072)),
        origin: look_from,
        u: to_vec3(u),
        v: to_vec3(v),
        lens_radius: fdiv(aperture, 131072) as i64,
    }
}

/// The ray `get_ray` builds once the lens sample `rd` is fixed: the origin
/// shifted by the scaled sample within the lens plane, aimed at the focal
/// rectangle point for `(s, t)`.
pub open spec fn ray_for(c: Camera, s: int, t: int, rd: V3i) -> Ray {
    let rs = v3_scale(rd, c.lens_radius as int);
    let offset = v3_add(v3_scale(c.u@, rs.x), v3_scale(c.v@, rs.y));
    let a = v3_add(c.origin@, offset);
    Ray {
        a: to_vec3(a),
        b: to_vec3(
            v3_sub(
                v3_add(v3_add(c.lower_left_corner@, v3_scale(c.horizontal@, s)), v3_scale(c.vertical@, t)),
                a,
            ),
        ),
    }
}

impl Camera {
    /// Derive a camera from the viewing configuration, rejecting a
    /// malformed one with the first failing check.
    pub fn new(
        look_from: Vec3,
        look_at: Vec3,
        view_up: Vec3,
        fov: i64,
        aspect: i64,
        aperture: i64,
        focus_distance: i64,
    ) -> (r: Result<Camera, ConfigError>)
        ensures
            r is Ok <==> camera_ok(
                look_from,
                look_at,
                view_up,
                fov as int,
                aspect as int,
                aperture as int,
                focus_distance as int,
            ),
            r matches Ok(c) ==> c == camera_make(
                look_from,
                look_at,
                view_up,
                fov as int,
                aspect as int,
                aperture as int,
                focus_distance as int,
            ),
            r matches Err(e) ==> e == camera_err(
                look_from,
                look_at,
                view_up,
                fov as int,
                aspect as int,
                aperture as int,
                focus_distance as int,
            ),
    {
        if !(0 < fov && fov < 11796480) {
            return Err(ConfigError::InvalidFov);
        }
        if !(aspect > 0) {
            return Err(ConfigError::InvalidAspect);
        }
        if aperture < 0 {
            return Err(ConfigError::InvalidAperture);
        }
        if !(focus_distance > 0) {
            return Err(ConfigError::InvalidFocusDistance);
        }
        let view = look_from.sub(look_at);
        if view.length() == 0 {
            return Err(ConfigError::DegenerateView);
        }
        let w = Vec3::unit_vector(view);
        let cu = view_up.cross(&w);
        if cu.length() == 0 {
            return Err(ConfigError::DegenerateBasis);
        }
        let u = Vec3::unit_vector(cu);
        let v = w.cross(&u);

        let theta = fx_mul(fov, RAD_PER_DEG);
        let half_height = tan_fx(fx_div(theta, 131072));
        let half_width = fx_mul(aspect, half_height);

        let half_horizontal = u.scale(fx_mul(half_width, focus_distance));
        let half_vertical = v.scale(fx_mul(half_height, focus_distance));

        let lower_left_corner = look_from.sub(half_horizontal).sub(half_vertical).sub(
            w.scale(focus_distance),
        );

        Ok(
            Camera {
                lower_left_corner,
                horizontal: half_horizontal.scale(131072),
                vertical: half_vertical.scale(131072),
                origin: look_from,
                lens_radius: fx_div(aperture, 131072),
                u,
                v,
            },
        )
    }

    /// The ray for the normalized image-plane coordinates `(s, t)`, with a
    /// fresh lens sample for depth-of-field blur: some point of the unit
    /// disk, scaled by the lens radius, offsets the ray origin. With a zero
    /// lens radius (aperture zero) the offset vanishes and the camera is a
    /// deterministic pinhole.
    pub fn get_ray(&self, s: i64, t: i64, rng: &mut rand::rngs::StdRng) -> (r: Ray)
        ensures
            exists|rd: V3i|
                dot3(rd, rd) < SCALE && rd.z == 0 && r == ray_for(*self, s as int, t as int, rd),
            self.lens_radius == 0 ==> r == ray_for(
                *self,
                s as int,
                t as int,
                V3i { x: 0, y: 0, z: 0 },
            ),
    {
        let disk = random_in_unit_disk(rng);
        let rd = disk.scale(self.lens_radius);
        let offset = self.u.scale(rd.x).add(self.v.scale(rd.y));
        let a = self.origin.add(offset);
        let r = Ray {
            a,
            b: self.lower_left_corner.add(self.horizontal.scale(s)).add(
                self.vertical.scale(t),
            ).sub(a),
        };
        proof {
            assert(dot3(disk@, disk@) < SCALE && disk@.z == 0 && r == ray_for(
                *self,
                s as int,
                t as int,
                disk@,
            ));
            if self.lens_radius == 0 {
                assert(fmul(disk@.x, 0) == 0 && fmul(disk@.y, 0) == 0 && fmul(disk@.z, 0) == 0);
                assert(fmul(0, 0) == 0);
                assert(v3_scale(disk@, 0) == v3_scale(V3i { x: 0, y: 0, z: 0 }, 0));
            }
        }
        r
    }
}

} // verus!

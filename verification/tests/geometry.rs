use pathtrace::fx::SCALE;
use pathtrace::material::{Dielectric, Lambertian, Material, Metal};
use pathtrace::objects::{GeometryError, HittableList, Sphere};
use pathtrace::ray::Ray;
use pathtrace::vec3::Vec3;

fn gray() -> Material {
    Material::Lambertian(Lambertian { albedo: Vec3::new(32768, 32768, 32768) })
}

#[test]
fn sphere_round_trip_from_two_radii() {
    // a unit sphere at the origin, a ray from two radii away aimed at the
    // center: the hit is at a positive parameter, the hit point lies at
    // exactly one radius from the center, and the normal has unit length
    let s = Sphere { center: Vec3::new(0, 0, 0), radius: SCALE, material: gray() };
    let ray = Ray { a: Vec3::new(0, 0, 2 * SCALE), b: Vec3::new(0, 0, -SCALE) };
    let hit = s.hit(&ray, 65, i64::MAX).expect("must hit");
    assert_eq!(hit.t, SCALE);
    assert!(hit.t > 0);
    assert_eq!(hit.p, Vec3::new(0, 0, SCALE));
    assert_eq!(hit.p.sub(s.center).length(), SCALE);
    assert_eq!(hit.normal, Vec3::new(0, 0, SCALE));
    assert_eq!(hit.normal.length(), SCALE);
}

#[test]
fn sphere_round_trip_other_radius() {
    // radius 2, ray from distance 4
    let s = Sphere { center: Vec3::new(0, 0, 0), radius: 2 * SCALE, material: gray() };
    let ray = Ray { a: Vec3::new(0, 0, 4 * SCALE), b: Vec3::new(0, 0, -SCALE) };
    let hit = s.hit(&ray, 65, i64::MAX).expect("must hit");
    assert_eq!(hit.t, 2 * SCALE);
    assert_eq!(hit.p.sub(s.center).length(), 2 * SCALE);
    assert_eq!(hit.normal.length(), SCALE);
}

#[test]
fn negative_radius_flips_normal() {
    let s = Sphere { center: Vec3::new(0, 0, 0), radius: -SCALE, material: gray() };
    let ray = Ray { a: Vec3::new(0, 0, 2 * SCALE), b: Vec3::new(0, 0, -SCALE) };
    let hit = s.hit(&ray, 65, i64::MAX).expect("must hit");
    assert_eq!(hit.t, SCALE);
    // the normal points inward: toward the center, not away from it
    assert_eq!(hit.normal, Vec3::new(0, 0, -SCALE));
}

#[test]
fn sphere_miss_and_interval() {
    let s = Sphere { center: Vec3::new(0, 0, 0), radius: SCALE, material: gray() };
    // pointing away
    let away = Ray { a: Vec3::new(0, 0, 2 * SCALE), b: Vec3::new(0, 0, SCALE) };
    assert!(s.hit(&away, 65, i64::MAX).is_none());
    // aimed at the sphere but the interval ends before it
    let toward = Ray { a: Vec3::new(0, 0, 2 * SCALE), b: Vec3::new(0, 0, -SCALE) };
    assert!(s.hit(&toward, 65, SCALE / 2).is_none());
    // both roots behind the origin
    let behind = Ray { a: Vec3::new(0, 0, -2 * SCALE), b: Vec3::new(0, 0, -SCALE) };
    assert!(s.hit(&behind, 65, i64::MAX).is_none());
}

#[test]
fn list_returns_nearest_hit() {
    let near = Sphere {
        center: Vec3::new(0, 0, -2 * SCALE),
        radius: 32768,
        material: Material::Metal(Metal { albedo: Vec3::new(SCALE, 0, 0), fuzz: 0 }),
    };
    let far = Sphere {
        center: Vec3::new(0, 0, -4 * SCALE),
        radius: 32768,
        material: Material::Metal(Metal { albedo: Vec3::new(0, SCALE, 0), fuzz: 0 }),
    };
    let ray = Ray { a: Vec3::new(0, 0, 0), b: Vec3::new(0, 0, -SCALE) };
    for list in [vec![near, far], vec![far, near]] {
        let world = HittableList { list };
        let hit = world.hit(&ray, 65, i64::MAX).expect("must hit");
        // distance 2 - 0.5 = 1.5, whatever the order of the primitives
        assert_eq!(hit.t, 98304);
        assert_eq!(hit.material, near.material);
    }
}

#[test]
fn equal_distance_keeps_first() {
    let a = Sphere {
        center: Vec3::new(0, 0, -2 * SCALE),
        radius: 32768,
        material: Material::Metal(Metal { albedo: Vec3::new(SCALE, 0, 0), fuzz: 0 }),
    };
    let mut b = a;
    b.material = Material::Metal(Metal { albedo: Vec3::new(0, 0, SCALE), fuzz: 0 });
    let world = HittableList { list: vec![a, b] };
    let ray = Ray { a: Vec3::new(0, 0, 0), b: Vec3::new(0, 0, -SCALE) };
    let hit = world.hit(&ray, 65, i64::MAX).expect("must hit");
    assert_eq!(hit.material, a.material);
}

#[test]
fn empty_list_never_hits() {
    let world = HittableList { list: vec![] };
    let ray = Ray { a: Vec3::new(0, 0, 0), b: Vec3::new(0, 0, -SCALE) };
    assert!(world.hit(&ray, 65, i64::MAX).is_none());
}

#[test]
fn scene_construction_validates() {
    let good = Sphere { center: Vec3::new(0, 0, 0), radius: SCALE, material: gray() };
    assert!(HittableList::new(vec![good]).is_ok());
    let flat = Sphere { center: Vec3::new(0, 0, 0), radius: 0, material: gray() };
    assert_eq!(
        HittableList::new(vec![good, flat]).err(),
        Some(GeometryError::DegenerateSphere)
    );
    let thin_glass = Sphere {
        center: Vec3::new(0, 0, 0),
        radius: SCALE,
        material: Material::Dielectric(Dielectric { ref_idx: SCALE / 2 }),
    };
    assert_eq!(
        HittableList::new(vec![thin_glass]).err(),
        Some(GeometryError::InvalidRefractiveIndex)
    );
}

#[test]
fn ray_point_evaluation() {
    let r = Ray { a: Vec3::new(SCALE, 0, 0), b: Vec3::new(0, 2 * SCALE, 0) };
    assert_eq!(r.point_at_parameter(32768), Vec3::new(SCALE, SCALE, 0));
    assert_eq!(*r.origin(), r.a);
    assert_eq!(*r.direction(), r.b);
}

use pathtrace::fx::SCALE;
use pathtrace::material::{schlick, Dielectric, Lambertian, Material, Metal};
use pathtrace::objects::HitRecord;
use pathtrace::ray::Ray;
use pathtrace::vec3::Vec3;
use rand::SeedableRng;

fn seeded_rng(seed: u64) -> rand::rngs::StdRng {
    rand::rngs::StdRng::seed_from_u64(seed)
}

fn record_at_origin(normal: Vec3, material: Material) -> HitRecord {
    HitRecord { t: SCALE, p: Vec3::new(0, 0, 0), normal, material }
}

#[test]
fn schlick_normal_incidence_is_r0() {
    // index 1.5: r0 = ((1 - 1.5) / (1 + 1.5))^2 = 0.04, rounded down on the grid
    assert_eq!(schlick(SCALE, 98304), 2621);
    // index 2.0: r0 = (1/3)^2; (-21845)^2 / 65536 rounds to 7281
    assert_eq!(schlick(SCALE, 2 * SCALE), 7281);
}

#[test]
fn lambertian_always_scatters() {
    let mut rng = seeded_rng(1);
    let m = Material::Lambertian(Lambertian { albedo: Vec3::new(32768, 16384, 8192) });
    let rec = record_at_origin(Vec3::new(0, 0, SCALE), m);
    let ray = Ray { a: Vec3::new(0, 0, SCALE), b: Vec3::new(0, 0, -SCALE) };
    for _ in 0..50 {
        let (attenuation, scattered, does_scatter) = m.scatter(&ray, &rec, &mut rng);
        assert!(does_scatter);
        assert_eq!(attenuation, Vec3::new(32768, 16384, 8192));
        assert_eq!(scattered.a, rec.p);
    }
}

#[test]
fn dielectric_always_scatters() {
    let mut rng = seeded_rng(2);
    let m = Material::Dielectric(Dielectric { ref_idx: 98304 });
    let rec = record_at_origin(Vec3::new(0, 0, SCALE), m);
    // entering, exiting and grazing directions
    let dirs = [
        Vec3::new(0, 0, -SCALE),
        Vec3::new(0, 0, SCALE),
        Vec3::new(SCALE, 0, -100),
        Vec3::new(SCALE, 0, 100),
    ];
    for b in dirs {
        for _ in 0..50 {
            let ray = Ray { a: Vec3::new(0, 0, SCALE), b };
            let (attenuation, _, does_scatter) = m.scatter(&ray, &rec, &mut rng);
            assert!(does_scatter);
            // glass absorbs nothing
            assert_eq!(attenuation, Vec3::unit(SCALE));
        }
    }
}

#[test]
fn metal_mirror_reflects_head_on() {
    let mut rng = seeded_rng(3);
    let m = Material::Metal(Metal { albedo: Vec3::new(SCALE, SCALE, SCALE), fuzz: 0 });
    let rec = record_at_origin(Vec3::new(0, 0, SCALE), m);
    let ray = Ray { a: Vec3::new(0, 0, SCALE), b: Vec3::new(0, 0, -SCALE) };
    let (_, scattered, does_scatter) = m.scatter(&ray, &rec, &mut rng);
    assert!(does_scatter);
    assert_eq!(scattered.b, Vec3::new(0, 0, SCALE));
}

#[test]
fn metal_fuzz_can_push_below_surface() {
    // grazing incidence: the reflected ray is tangent to the surface, so a
    // full fuzz perturbation sends it below with probability about a half;
    // some fixed seed among the first few must force that.
    let m = Material::Metal(Metal { albedo: Vec3::new(SCALE, SCALE, SCALE), fuzz: SCALE });
    let rec = record_at_origin(Vec3::new(0, 0, SCALE), m);
    let ray = Ray { a: Vec3::new(0, 0, 0), b: Vec3::new(SCALE, 0, 0) };
    let mut saw_absorbed = false;
    let mut saw_scattered = false;
    for seed in 0..64 {
        let mut rng = seeded_rng(seed);
        let (_, scattered, does_scatter) = m.scatter(&ray, &rec, &mut rng);
        // the flag is exactly the sign test on the scattered direction
        assert_eq!(does_scatter, Vec3::dot(&scattered.b, &rec.normal) > 0);
        if does_scatter {
            saw_scattered = true;
        } else {
            saw_absorbed = true;
        }
    }
    assert!(saw_absorbed);
    assert!(saw_scattered);
}

#[test]
fn metal_fuzz_clamps_to_one() {
    // fuzz far above one behaves as fuzz one: the perturbation stays inside
    // the unit ball, so the scattered direction stays within one unit of
    // the reflection
    let m = Material::Metal(Metal { albedo: Vec3::new(SCALE, SCALE, SCALE), fuzz: 100 * SCALE });
    let rec = record_at_origin(Vec3::new(0, 0, SCALE), m);
    let ray = Ray { a: Vec3::new(0, 0, 0), b: Vec3::new(0, 0, -SCALE) };
    let mut rng = seeded_rng(11);
    for _ in 0..50 {
        let (_, scattered, _) = m.scatter(&ray, &rec, &mut rng);
        let offset = scattered.b.sub(Vec3::new(0, 0, SCALE));
        assert!(offset.squared_length() < SCALE);
    }
}

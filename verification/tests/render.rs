use pathtrace::camera::{random_in_unit_disk, Camera, ConfigError};
use pathtrace::fx::SCALE;
use pathtrace::material::{Lambertian, Material, Metal};
use pathtrace::objects::{HittableList, Sphere};
use pathtrace::ray::Ray;
use pathtrace::rng::{rand01, random_in_unit_sphere};
use pathtrace::scene::{chunk_spans, color, render, render_chunk};
use pathtrace::vec3::Vec3;
use rand::SeedableRng;

fn seeded_rng(seed: u64) -> rand::rngs::StdRng {
    rand::rngs::StdRng::seed_from_u64(seed)
}

fn one_sphere_world() -> HittableList {
    HittableList {
        list: vec![Sphere {
            center: Vec3::new(0, 0, -SCALE),
            radius: 32768,
            material: Material::Lambertian(Lambertian {
                albedo: Vec3::new(32768, 32768, 32768),
            }),
        }],
    }
}

#[test]
fn camera_rejects_bad_configuration() {
    let from = Vec3::new(0, 0, 0);
    let at = Vec3::new(0, 0, -SCALE);
    let up = Vec3::new(0, SCALE, 0);
    let fov = 90 * SCALE;
    let err = |r: Result<Camera, ConfigError>| r.err().expect("must be rejected");
    assert_eq!(err(Camera::new(from, at, up, 0, 2 * SCALE, 0, SCALE)), ConfigError::InvalidFov);
    assert_eq!(
        err(Camera::new(from, at, up, 180 * SCALE, 2 * SCALE, 0, SCALE)),
        ConfigError::InvalidFov
    );
    assert_eq!(err(Camera::new(from, at, up, fov, 0, 0, SCALE)), ConfigError::InvalidAspect);
    assert_eq!(
        err(Camera::new(from, at, up, fov, 2 * SCALE, -1, SCALE)),
        ConfigError::InvalidAperture
    );
    assert_eq!(
        err(Camera::new(from, at, up, fov, 2 * SCALE, 0, 0)),
        ConfigError::InvalidFocusDistance
    );
    assert_eq!(
        err(Camera::new(from, from, up, fov, 2 * SCALE, 0, SCALE)),
        ConfigError::DegenerateView
    );
    assert_eq!(
        err(Camera::new(from, at, Vec3::new(0, 0, SCALE), fov, 2 * SCALE, 0, SCALE)),
        ConfigError::DegenerateBasis
    );
}

#[test]
fn camera_accepts_good_configuration() {
    let from = Vec3::new(0, 0, 0);
    let at = Vec3::new(0, 0, -SCALE);
    let up = Vec3::new(0, SCALE, 0);
    let c = Camera::new(from, at, up, 90 * SCALE, 2 * SCALE, SCALE / 4, SCALE).expect("valid");
    assert_eq!(c.origin, from);
    // half the aperture
    assert_eq!(c.lens_radius, SCALE / 8);
    // right-handed basis for a straight-ahead view
    assert_eq!(c.u, Vec3::new(SCALE, 0, 0));
    assert_eq!(c.v, Vec3::new(0, SCALE, 0));
}

#[test]
fn pinhole_rays_are_deterministic() {
    let from = Vec3::new(0, 0, 0);
    let at = Vec3::new(0, 0, -SCALE);
    let up = Vec3::new(0, SCALE, 0);
    let c = Camera::new(from, at, up, 90 * SCALE, 2 * SCALE, 0, SCALE).expect("valid");
    let mut rng_a = seeded_rng(5);
    let mut rng_b = seeded_rng(99);
    let ra = c.get_ray(32768, 32768, &mut rng_a);
    let rb = c.get_ray(32768, 32768, &mut rng_b);
    // aperture zero: the lens offset vanishes whatever the generator draws
    assert_eq!(ra, rb);
    assert_eq!(ra.a, from);
}

#[test]
fn samplers_stay_inside_their_domains() {
    let mut rng = seeded_rng(17);
    for _ in 0..500 {
        let d = random_in_unit_disk(&mut rng);
        assert!(d.squared_length() < SCALE);
        assert_eq!(d.z(), 0);
        let s = random_in_unit_sphere(&mut rng);
        assert!(s.squared_length() < SCALE);
        let r = rand01(&mut rng);
        assert!((0..SCALE).contains(&r));
    }
    // the draws are not all one value
    let mut distinct = std::collections::HashSet::new();
    for _ in 0..100 {
        distinct.insert(rand01(&mut rng));
    }
    assert!(distinct.len() > 1);
}

#[test]
fn miss_returns_sky_gradient() {
    let world = one_sphere_world();
    let mut rng = seeded_rng(7);
    // straight up: pure sky blue
    let up = Ray { a: Vec3::new(0, 0, 0), b: Vec3::new(0, SCALE, 0) };
    assert_eq!(color(&up, &world, 0, &mut rng), Vec3::new(32768, 45875, SCALE));
    // straight down: pure white
    let down = Ray { a: Vec3::new(0, 0, 0), b: Vec3::new(0, -SCALE, 0) };
    assert_eq!(color(&down, &world, 0, &mut rng), Vec3::new(SCALE, SCALE, SCALE));
    // an empty scene misses everywhere
    let empty = HittableList { list: vec![] };
    assert_eq!(color(&up, &empty, 0, &mut rng), Vec3::new(32768, 45875, SCALE));
}

#[test]
fn nested_mirrors_hit_the_depth_cap() {
    // a hollow mirror sphere around the ray: every bounce reflects back
    // through the center, forever; the integrator must return black from
    // its depth cap, not overflow the stack
    let world = HittableList {
        list: vec![Sphere {
            center: Vec3::new(0, 0, 0),
            radius: -SCALE,
            material: Material::Metal(Metal {
                albedo: Vec3::new(SCALE, SCALE, SCALE),
                fuzz: 0,
            }),
        }],
    };
    let mut rng = seeded_rng(8);
    let ray = Ray { a: Vec3::new(0, 0, 0), b: Vec3::new(SCALE, 0, 0) };
    assert_eq!(color(&ray, &world, 0, &mut rng), Vec3::new(0, 0, 0));
}

#[test]
fn chunk_layout_partitions_every_pixel() {
    assert_eq!(chunk_spans(12, 4), vec![(0, 3), (3, 3), (6, 3), (9, 3)]);
    assert_eq!(chunk_spans(10, 3), vec![(0, 3), (3, 3), (6, 3), (9, 1)]);
    assert_eq!(chunk_spans(5, 5), vec![(0, 1), (1, 1), (2, 1), (3, 1), (4, 1)]);
    for (total, workers) in [(24usize, 4usize), (100, 10), (7, 3), (9, 2), (1, 1)] {
        let spans = chunk_spans(total, workers);
        let mut seen = vec![0u32; total];
        for (start, len) in &spans {
            for p in *start..start + len {
                seen[p] += 1;
            }
        }
        // no gaps, no duplicates
        assert!(seen.iter().all(|&c| c == 1));
        if total % workers == 0 {
            assert_eq!(spans.len(), workers);
        }
    }
}

#[test]
fn render_fills_the_whole_buffer() {
    let world = one_sphere_world();
    let from = Vec3::new(0, 0, 0);
    let at = Vec3::new(0, 0, -SCALE);
    let up = Vec3::new(0, SCALE, 0);
    let camera = Camera::new(from, at, up, 90 * SCALE, 2 * SCALE, 0, SCALE).expect("valid");
    let img = render(8, 4, 3, 1, world, camera);
    assert_eq!(img.len(), 32);
    // gamma correction keeps every channel nonnegative
    for p in &img {
        assert!(p.x() >= 0 && p.y() >= 0 && p.z() >= 0);
    }
}

#[test]
fn seeded_chunks_are_reproducible() {
    let world = one_sphere_world();
    let from = Vec3::new(0, 0, 0);
    let at = Vec3::new(0, 0, -SCALE);
    let up = Vec3::new(0, SCALE, 0);
    let camera = Camera::new(from, at, up, 90 * SCALE, 2 * SCALE, 0, SCALE).expect("valid");
    let mut rng_a = seeded_rng(42);
    let mut rng_b = seeded_rng(42);
    let pix_a = render_chunk(&world, &camera, 8, 4, 4, 0, 32, &mut rng_a);
    let pix_b = render_chunk(&world, &camera, 8, 4, 4, 0, 32, &mut rng_b);
    assert_eq!(pix_a, pix_b);
    // concatenating two seeded half-chunks gives the same pixels as one run
    let mut rng_c = seeded_rng(42);
    let first = render_chunk(&world, &camera, 8, 4, 4, 0, 16, &mut rng_c);
    assert_eq!(first[..], pix_a[..16]);
}

#[test]
fn lambertian_sphere_darkens_image_center() {
    // a single diffuse sphere dead ahead, lit only by the sky: the center
    // pixel (sphere) must come out darker than the sky above and below it
    let world = one_sphere_world();
    let from = Vec3::new(0, 0, 0);
    let at = Vec3::new(0, 0, -SCALE);
    let up = Vec3::new(0, SCALE, 0);
    let camera = Camera::new(from, at, up, 90 * SCALE, 2 * SCALE, 0, SCALE).expect("valid");
    let (width, height) = (20usize, 10usize);
    let img = render(width, height, 2, 1, world, camera);
    assert_eq!(img.len(), width * height);
    let brightness = |p: &Vec3| p.x() + p.y() + p.z();
    let center = brightness(&img[(height / 2) * width + width / 2]);
    let top = brightness(&img[width / 2]);
    let bottom = brightness(&img[(height - 1) * width + width / 2]);
    assert!(center < top);
    assert!(center < bottom);
}

//! The path integrator and the tile renderer: the recursive radiance
//! computation with its hard depth cap, and the partition of the image
//! into per-worker chunks of pixels.

use vstd::prelude::*;
use vstd::arithmetic::div_mod::{
    lemma_div_by_self,
    lemma_div_is_ordered,
    lemma_fundamental_div_mod,
    lemma_fundamental_div_mod_converse,
};
use crate::fx::{SCALE, sat64, fadd, fsub, fmul, fdiv, lemma_tdiv_cancel, lemma_sqrt_unique, lemma_fsqrt_nonneg};
use crate::fx::{fx_add, fx_sub, fx_mul, fx_div, fx_from_usize};
use crate::vec3::{Vec3, V3i, v3_add, v3_scale, v3_mul, v3_div_s, v3_sqrt, dot3, len3, unit3};
use crate::ray::Ray;
use crate::objects::{Sphere, HitRecord, HittableList, hit_list_spec, lemma_hit_material};
use crate::material::{attenuation_of, scatter_dir_ok, scatter_continues};
use crate::camera::{Camera, ray_for};
use crate::rng::{rand01, entropy_rng};

verus! {

/// The lower bound of the intersection interval, about one thousandth:
/// it keeps a scattered ray from hitting its own origin again through
/// rounding ("shadow acne").
pub const T_MIN: i64 = 65;

/// The depth cap of the integrator: recursion stops unconditionally here.
pub const MAX_DEPTH: u32 = 50;

/// The sky gradient a missing ray returns: a blend from white at the
/// horizon's lower half to sky blue straight up, by
/// `t = (unit_direction.y + 1) / 2`.
pub open spec fn sky_color(r: Ray) -> V3i {
    let unit_dir = unit3(r.b@);
    let t = fmul(32768, fadd(unit_dir.y, SCALE as int));
    v3_add(
        V3i { x: fsub(SCALE as int, t), y: fsub(SCALE as int, t), z: fsub(SCALE as int, t) },
        v3_scale(V3i { x: 32768, y: 45875, z: 65536 }, t),
    )
}

/// An admissible radiance for a ray at a depth. A miss is exactly the sky
/// gradient. A hit either continues — some admissible scattered ray from
/// the hit point, whose own admissible radiance filtered by the material's
/// attenuation is the result — or ends black, because the depth cap was
/// reached or the scattered ray would not leave the surface.
pub open spec fn radiance_ok(list: Seq<Sphere>, r: Ray, depth: int, c: V3i) -> bool
    decreases MAX_DEPTH - depth, 1int,
{
    match hit_list_spec(list, r, T_MIN as int, i64::MAX as int) {
        None => c == sky_color(r),
        Some(rec) => exists|scat: Ray, sub: V3i|
            #[trigger] radiance_step_ok(r, depth, rec, scat, sub, c) && (depth < MAX_DEPTH as int
                && scatter_continues(rec.material, rec, scat.b@) ==> radiance_ok(
                list,
                scat,
                depth + 1,
                sub,
            )),
    }
}

/// One integrator step at a hit, for a chosen scattered ray and, when the
/// path continues, a chosen radiance of that ray: the scattered ray is
/// admissible for the struck material and starts at the hit point; below
/// the depth cap a continuing path yields the chosen radiance filtered by
/// the material's attenuation, and otherwise the result is black.
pub open spec fn radiance_step_ok(
    r: Ray,
    depth: int,
    rec: HitRecord,
    scat: Ray,
    sub: V3i,
    c: V3i,
) -> bool {
    &&& scat.a == rec.p
    &&& scatter_dir_ok(rec.material, r, rec, scat.b@)
    &&& c == if depth < MAX_DEPTH as int && scatter_continues(rec.material, rec, scat.b@) {
        v3_mul(attenuation_of(rec.material), sub)
    } else {
        (V3i { x: 0, y: 0, z: 0 })
    }
}

/// The radiance along a ray: an admissible radiance at the given depth. A
/// miss returns exactly the sky gradient. A hit scatters at the struck
/// material: the result is the attenuation times the radiance of the
/// scattered ray, and black once the depth cap is reached or the material
/// absorbs the path. The cap makes the recursion depth at most `MAX_DEPTH`
/// unconditionally.
pub fn color(ray: &Ray, world: &HittableList, depth: u32, rng: &mut rand::rngs::StdRng) -> (c:
    Vec3)
    requires
        world.wf(),
    ensures
        radiance_ok(world.list@, *ray, depth as int, c@),
        hit_list_spec(world.list@, *ray, T_MIN as int, i64::MAX as int) is None ==> c@
            == sky_color(*ray),
        hit_list_spec(world.list@, *ray, T_MIN as int, i64::MAX as int) matches Some(rec) ==> (
        depth >= MAX_DEPTH ==> c@ == (V3i { x: 0, y: 0, z: 0 })),
    decreases MAX_DEPTH - depth,
{
    match world.hit(ray, T_MIN, i64::MAX) {
        Some(record) => {
            proof {
                lemma_hit_material(
                    world.list@,
                    *ray,
                    T_MIN as int,
                    i64::MAX as int,
                    world.list@.len() as int,
                );
            }
            let (attenuation, scattered, scatters) = record.material.scatter(ray, &record, rng);
            if depth < MAX_DEPTH && scatters {
                let sub = color(&scattered, world, depth + 1, rng);
                let out = attenuation.mul(sub);
                proof {
                    assert(radiance_ok(world.list@, scattered, depth as int + 1, sub@) && out@
                        == v3_mul(attenuation_of(record.material), sub@));
                    assert(radiance_step_ok(*ray, depth as int, record, scattered, sub@, out@));
                    assert(radiance_ok(world.list@, *ray, depth as int, out@));
                }
                out
            } else {
                let out = Vec3::unit(0);
                proof {
                    assert(radiance_step_ok(*ray, depth as int, record, scattered, out@, out@));
                    assert(radiance_ok(world.list@, *ray, depth as int, out@));
                }
                out
            }
        },
        None => {
            let unit_direction = Vec3::unit_or_zero(ray.b);
            let t = fx_mul(32768, fx_add(unit_direction.y, SCALE));
            Vec3::unit(fx_sub(SCALE, t)).add(Vec3::new(32768, 45875, 65536).scale(t))
        },
    }
}

/// The endpoints of the sky gradient are exact: a ray pointing straight up
/// is pure sky blue (`t` is one), a ray pointing straight down is pure
/// white (`t` is zero).
pub proof fn lemma_sky_vertical(r_up: Ray, r_down: Ray)
    requires
        r_up.b@ == (V3i { x: 0, y: SCALE as int, z: 0 }),
        r_down.b@ == (V3i { x: 0, y: -(SCALE as int), z: 0 }),
    ensures
        sky_color(r_up) == (V3i { x: 32768, y: 45875, z: 65536 }),
        sky_color(r_down) == (V3i { x: SCALE as int, y: SCALE as int, z: SCALE as int }),
{
    let s = SCALE as int;
    lemma_tdiv_cancel(0, s);
    lemma_tdiv_cancel(s, s);
    lemma_tdiv_cancel(-s, s);
    lemma_tdiv_cancel(32768, s);
    lemma_tdiv_cancel(45875, s);
    assert(fmul(s, s) == s);
    assert((-s) * (-s) == s * s) by (nonlinear_arith);
    assert(fmul(-s, -s) == s);
    assert(dot3(r_up.b@, r_up.b@) == s);
    assert(dot3(r_down.b@, r_down.b@) == s);
    lemma_sqrt_unique(s * s, s);
    assert(len3(r_up.b@) == s);
    assert(len3(r_down.b@) == s);
    assert(unit3(r_up.b@) == (V3i { x: 0, y: s, z: 0 }));
    assert(unit3(r_down.b@) == (V3i { x: 0, y: -s, z: 0 }));
    assert(32768 * 131072 == s * s);
    assert(fmul(32768, fadd(s, s)) == s);
    assert(fmul(32768, fadd(-s, s)) == 0);
    assert(v3_scale(V3i { x: 32768, y: 45875, z: 65536 }, s) == (V3i {
        x: 32768,
        y: 45875,
        z: 65536,
    }));
    assert(fmul(32768, 0) == 0);
    assert(fmul(45875, 0) == 0);
    assert(fmul(s, 0) == 0);
}

/// The chunks the image is split into: each worker owns one contiguous
/// span `(start, length)` of the flat pixel buffer; all spans but possibly
/// the last have length `total / workers`, and together they cover the
/// buffer without gap or overlap.
pub fn chunk_spans(total: usize, workers: usize) -> (spans: Vec<(usize, usize)>)
    requires
        1 <= workers <= total,
    ensures
        spans@.len() >= 1,
        (spans@.len() - 1) * (total as int / workers as int) < total,
        total <= spans@.len() * (total as int / workers as int),
        forall|i: int|
            0 <= i < spans@.len() ==> (#[trigger] spans@[i]).0 == i * (
            total as int / workers as int),
        forall|i: int|
            0 <= i < spans@.len() ==> (#[trigger] spans@[i]).1 == if i * (
            total as int / workers as int) + (total as int / workers as int) <= total {
                total as int / workers as int
            } else {
                total - i * (total as int / workers as int)
            },
        forall|i: int|
            0 <= i < spans@.len() ==> (#[trigger] spans@[i]).0 + spans@[i].1 <= total,
{
    let chunk = total / workers;
    proof {
        lemma_div_is_ordered(workers as int, total as int, workers as int);
        lemma_div_by_self(workers as int);
    }
    let mut spans: Vec<(usize, usize)> = Vec::new();
    let mut start: usize = 0;
    proof {
        assert(0 * chunk == 0) by (nonlinear_arith);
    }
    while start < total
        invariant
            1 <= chunk,
            chunk == total as int / workers as int,
            start <= total,
            spans@.len() == 0 || (spans@.len() - 1) * chunk < total,
            if spans@.len() * chunk <= total {
                start == spans@.len() * chunk
            } else {
                start == total
            },
            forall|i: int| 0 <= i < spans@.len() ==> (#[trigger] spans@[i]).0 == i * chunk,
            forall|i: int|
                0 <= i < spans@.len() ==> (#[trigger] spans@[i]).1 == if i * chunk + chunk
                    <= total {
                    chunk as int
                } else {
                    total - i * chunk
                },
            forall|i: int| 0 <= i < spans@.len() ==> (#[trigger] spans@[i]).0 + spans@[i].1 <= total,
        decreases total - start,
    {
        proof {
            assert((spans@.len() + 1) * chunk == spans@.len() * chunk + chunk) by (nonlinear_arith);
        }
        let remaining = total - start;
        if remaining >= chunk {
            spans.push((start, chunk));
            start = start + chunk;
        } else {
            spans.push((start, remaining));
            start = total;
        }
    }
    proof {
        assert(spans@.len() >= 1);
        assert((spans@.len() - 1) * chunk == spans@.len() * chunk - chunk) by (nonlinear_arith);
    }
    spans
}

/// Every pixel index below `total` lies in exactly one chunk — the one
/// numbered `p / chunk` — when the worker count divides the pixel count
/// evenly, so every pixel is written exactly once, with no gaps and no
/// duplicates.
pub proof fn lemma_chunk_partition(total: int, workers: int, p: int)
    requires
        1 <= workers <= total,
        total % workers == 0,
        0 <= p < total,
    ensures
        total / workers >= 1,
        workers * (total / workers) == total,
        0 <= p / (total / workers) < workers,
        (p / (total / workers)) * (total / workers) <= p < (p / (total / workers)) * (total
            / workers) + (total / workers),
        forall|i: int|
            0 <= i < workers && i != p / (total / workers) ==> !(#[trigger] (i * (total / workers))
                <= p < i * (total / workers) + (total / workers)),
{
    let chunk = total / workers;
    lemma_div_is_ordered(workers, total, workers);
    lemma_div_by_self(workers);
    lemma_fundamental_div_mod(total, workers);
    assert(workers * chunk == total);
    lemma_fundamental_div_mod(p, chunk);
    let q = p / chunk;
    let r = p % chunk;
    assert(p == chunk * q + r);
    assert(q * chunk <= p < q * chunk + chunk) by (nonlinear_arith)
        requires
            p == chunk * q + r,
            0 <= r < chunk,
    ;
    assert(q >= 0) by (nonlinear_arith)
        requires
            p < q * chunk + chunk,
            0 <= p,
            chunk >= 1,
    ;
    assert(q < workers) by (nonlinear_arith)
        requires
            q * chunk <= p,
            p < workers * chunk,
            chunk >= 1,
    ;
    assert forall|i: int|
        0 <= i < workers && i != q implies !(#[trigger] (i * chunk) <= p < i * chunk + chunk) by {
        if i * chunk <= p < i * chunk + chunk {
            lemma_fundamental_div_mod_converse(p, chunk, i, p - i * chunk);
        }
    }
}

/// The first `k` chunks of size `chunk` of a buffer, concatenated in chunk
/// order.
pub open spec fn concat_chunks<A>(s: Seq<A>, chunk: int, k: int) -> Seq<A>
    decreases k,
{
    if k <= 0 {
        Seq::empty()
    } else {
        concat_chunks(s, chunk, k - 1) + s.subrange((k - 1) * chunk, k * chunk)
    }
}

/// Concatenating a buffer's chunks in chunk order reconstructs the buffer:
/// the first `k` chunks concatenated are exactly its first `k * chunk`
/// entries, so when the chunks cover the whole buffer the concatenation is
/// the buffer itself.
pub proof fn lemma_chunks_concat<A>(s: Seq<A>, chunk: int, k: int)
    requires
        0 <= k,
        chunk >= 1,
        k * chunk <= s.len(),
    ensures
        concat_chunks(s, chunk, k) == s.subrange(0, k * chunk),
    decreases k,
{
    if k <= 0 {
        assert(0 * chunk == 0) by (nonlinear_arith);
        assert(s.subrange(0, 0) =~= Seq::<A>::empty());
    } else {
        assert((k - 1) * chunk == k * chunk - chunk) by (nonlinear_arith);
        lemma_chunks_concat(s, chunk, k - 1);
        assert(concat_chunks(s, chunk, k) =~= s.subrange(0, k * chunk));
    }
}

/// The normalized, jittered image-plane coordinate of a pixel index:
/// `(index + jitter) / count`, all over fixed-point scalars.
pub open spec fn jittered_coord(index: int, jitter: int, count: int) -> int {
    fdiv(fadd(sat64(index * (SCALE as int)), jitter), sat64(count * (SCALE as int)))
}

/// One sample of the pixel at column `x`, row-flipped index `y`: some
/// jitter pair in `[0, 1)` and some lens sample give the camera ray for the
/// jittered normalized coordinates, and the sample is an admissible
/// radiance of that ray from the top of the path.
pub open spec fn sample_ok(
    list: Seq<Sphere>,
    cam: Camera,
    width: int,
    height: int,
    x: int,
    y: int,
    s: V3i,
) -> bool {
    exists|xi: int, eta: int, rd: V3i|
        #![trigger ray_for(cam, jittered_coord(x, xi, width), jittered_coord(y, eta, height), rd)]
        0 <= xi < SCALE && 0 <= eta < SCALE && dot3(rd, rd) < SCALE && rd.z == 0 && radiance_ok(
            list,
            ray_for(cam, jittered_coord(x, xi, width), jittered_coord(y, eta, height), rd),
            0,
            s,
        )
}

/// The sum of the first `n` sample radiances, in accumulation order.
pub open spec fn sample_sum(samples: Seq<V3i>, n: int) -> V3i
    decreases n,
{
    if n <= 0 {
        V3i { x: 0, y: 0, z: 0 }
    } else {
        v3_add(sample_sum(samples, n - 1), samples[n - 1])
    }
}

/// Appending a sample leaves the sum of an untouched prefix unchanged.
proof fn lemma_sample_sum_push(samples: Seq<V3i>, v: V3i, n: int)
    requires
        0 <= n <= samples.len(),
    ensures
        sample_sum(samples.push(v), n) == sample_sum(samples, n),
    decreases n,
{
    if n > 0 {
        lemma_sample_sum_push(samples, v, n - 1);
        assert(samples.push(v)[n - 1] == samples[n - 1]);
    }
}

/// An admissible pixel for buffer `position`: `rays` admissible samples of
/// the pixel at column `position % width` and flipped row
/// `height - 1 - position / width`, averaged and gamma-corrected by a
/// component-wise square root.
pub open spec fn pixel_ok(
    list: Seq<Sphere>,
    cam: Camera,
    width: int,
    height: int,
    rays: int,
    position: int,
    p: Vec3,
) -> bool {
    exists|samples: Seq<V3i>|
        #![trigger samples.len()]
        samples.len() == rays && (forall|j: int|
            0 <= j < rays ==> sample_ok(
                list,
                cam,
                width,
                height,
                position % width,
                height - 1 - position / width,
                #[trigger] samples[j],
            )) && p@ == v3_sqrt(v3_div_s(sample_sum(samples, rays), sat64(rays * (SCALE as int))))
}

/// Render the pixels of one chunk: each pixel of the span is the average of
/// `rays` jittered samples through the integrator, gamma-corrected by a
/// component-wise square root, and so never negative. Pixel `position` of
/// the buffer is column `position % width` of row `position / width`, and
/// the row index is flipped so the buffer comes out in top-to-bottom
/// scanline order.
#[verifier::loop_isolation(false)]
#[verifier::rlimit(60)]
pub fn render_chunk(
    world: &HittableList,
    camera: &Camera,
    width: usize,
    height: usize,
    rays: usize,
    start: usize,
    len: usize,
    rng: &mut rand::rngs::StdRng,
) -> (pix: Vec<Vec3>)
    requires
        world.wf(),
        width >= 1,
        height >= 1,
        rays >= 1,
        start + len <= width * height,
        width * height <= usize::MAX,
    ensures
        pix@.len() == len,
        forall|k: int|
            0 <= k < len ==> pixel_ok(
                world.list@,
                *camera,
                width as int,
                height as int,
                rays as int,
                start + k,
                #[trigger] pix@[k],
            ),
        forall|k: int|
            0 <= k < len ==> (#[trigger] pix@[k])@.x >= 0 && pix@[k]@.y >= 0 && pix@[k]@.z >= 0,
{
    let mut pix: Vec<Vec3> = Vec::new();
    let mut k: usize = 0;
    while k < len
        invariant
            k <= len,
            pix@.len() == k,
            forall|k2: int|
                0 <= k2 < k ==> pixel_ok(
                    world.list@,
                    *camera,
                    width as int,
                    height as int,
                    rays as int,
                    start + k2,
                    #[trigger] pix@[k2],
                ),
            forall|k2: int|
                0 <= k2 < k ==> (#[trigger] pix@[k2])@.x >= 0 && pix@[k2]@.y >= 0 && pix@[k2]@.z
                    >= 0,
        decreases len - k,
    {
        let position = start + k;
        proof {
            lemma_fundamental_div_mod(position as int, width as int);
            let q = (position as int) / (width as int);
            let rem = (position as int) % (width as int);
            assert(q < height) by (nonlinear_arith)
                requires
                    position < width * height,
                    width >= 1,
                    position == width * q + rem,
                    rem >= 0,
            ;
        }
        let x = position % width;
        let y = height - 1 - position / width;
        let mut col = Vec3::unit(0);
        let ghost mut samples: Seq<V3i> = Seq::empty();
        let mut s: usize = 0;
        while s < rays
            invariant
                s <= rays,
                samples.len() == s as int,
                forall|j: int|
                    0 <= j < s ==> sample_ok(
                        world.list@,
                        *camera,
                        width as int,
                        height as int,
                        x as int,
                        y as int,
                        #[trigger] samples[j],
                    ),
                col@ == sample_sum(samples, s as int),
            decreases rays - s,
        {
            let xi = rand01(rng);
            let u = fx_div(fx_add(fx_from_usize(x), xi), fx_from_usize(width));
            let eta = rand01(rng);
            let v = fx_div(fx_add(fx_from_usize(y), eta), fx_from_usize(height));
            let r = camera.get_ray(u, v, rng);
            let sample = color(&r, world, 0, rng);
            col = col.add(sample);
            proof {
                let rd = choose|rd: V3i|
                    dot3(rd, rd) < SCALE && rd.z == 0 && r == ray_for(
                        *camera,
                        u as int,
                        v as int,
                        rd,
                    );
                assert(u as int == jittered_coord(x as int, xi as int, width as int));
                assert(v as int == jittered_coord(y as int, eta as int, height as int));
                assert(radiance_ok(
                    world.list@,
                    ray_for(
                        *camera,
                        jittered_coord(x as int, xi as int, width as int),
                        jittered_coord(y as int, eta as int, height as int),
                        rd,
                    ),
                    0,
                    sample@,
                ));
                assert(sample_ok(
                    world.list@,
                    *camera,
                    width as int,
                    height as int,
                    x as int,
                    y as int,
                    sample@,
                ));
                lemma_sample_sum_push(samples, sample@, s as int);
                samples = samples.push(sample@);
                assert(samples[s as int] == sample@);
            }
            s = s + 1;
        }
        col = col.div_s(fx_from_usize(rays)).sqrt();
        proof {
            assert(samples.len() == rays as int && col@ == v3_sqrt(
                v3_div_s(sample_sum(samples, rays as int), sat64(rays as int * (SCALE as int))),
            ));
            assert(pixel_ok(
                world.list@,
                *camera,
                width as int,
                height as int,
                rays as int,
                position as int,
                col,
            ));
            lemma_fsqrt_nonneg(v3_div_s(
                sample_sum(samples, rays as int),
                sat64(rays as int * (SCALE as int)),
            ).x);
            lemma_fsqrt_nonneg(v3_div_s(
                sample_sum(samples, rays as int),
                sat64(rays as int * (SCALE as int)),
            ).y);
            lemma_fsqrt_nonneg(v3_div_s(
                sample_sum(samples, rays as int),
                sat64(rays as int * (SCALE as int)),
            ).z);
        }
        pix.push(col);
        k = k + 1;
    }
    pix
}

/// Render the whole image: split the buffer into per-worker chunks, render
/// each chunk, and concatenate the results in chunk order into one flat
/// buffer of `width * height` pixels, top scanline first: every pixel of
/// the buffer is the gamma-corrected average of `rays` admissible samples
/// at that pixel's jittered coordinates, with no channel negative. Workers
/// draw from independent generators, so an embedding may run the chunks on
/// parallel threads and concatenate; this sequential form is the reference
/// behaviour it must match.
#[verifier::loop_isolation(false)]
pub fn render(
    width: usize,
    height: usize,
    threads: usize,
    rays: usize,
    world: HittableList,
    camera: Camera,
) -> (img: Vec<Vec3>)
    requires
        world.wf(),
        width >= 1,
        height >= 1,
        rays >= 1,
        1 <= threads <= width * height,
        width * height <= usize::MAX,
    ensures
        img@.len() == width * height,
        forall|p: int|
            0 <= p < width * height ==> pixel_ok(
                world.list@,
                camera,
                width as int,
                height as int,
                rays as int,
                p,
                #[trigger] img@[p],
            ),
        forall|p: int|
            0 <= p < width * height ==> (#[trigger] img@[p])@.x >= 0 && img@[p]@.y >= 0
                && img@[p]@.z >= 0,
{
    let total = width * height;
    let spans = chunk_spans(total, threads);
    let mut rng = entropy_rng();
    let mut img: Vec<Vec3> = Vec::new();
    let mut i: usize = 0;
    while i < spans.len()
        invariant
            i <= spans@.len(),
            img@.len() as int == if i < spans@.len() {
                (spans@[i as int]).0 as int
            } else {
                total as int
            },
            forall|p: int|
                0 <= p < img@.len() ==> pixel_ok(
                    world.list@,
                    camera,
                    width as int,
                    height as int,
                    rays as int,
                    p,
                    #[trigger] img@[p],
                ),
            forall|p: int|
                0 <= p < img@.len() ==> (#[trigger] img@[p])@.x >= 0 && img@[p]@.y >= 0
                    && img@[p]@.z >= 0,
        decreases spans@.len() - i,
    {
        let (start, len) = spans[i];
        let mut part = render_chunk(&world, &camera, width, height, rays, start, len, &mut rng);
        img.append(&mut part);
        proof {
            let chunk = total as int / threads as int;
            assert((i + 1) * chunk == i * chunk + chunk) by (nonlinear_arith);
        }
        i = i + 1;
    }
    img
}

} // verus!

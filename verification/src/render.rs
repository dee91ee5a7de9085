//! The sampling driver: for every pixel it accumulates jittered samples
//! through the path integrator, averages and gamma-encodes them, and
//! assembles the plain-text pixel map top-to-bottom. Pixels are
//! independent, so a host program may equally run `sample_pixel` for
//! disjoint pixels on parallel workers and assemble the same bytes.

use crate::camera::get_ray_spec;
use crate::camera::Camera;
use crate::fixed::fx_div;
use crate::fixed::Fx;
use crate::fixed::SCALE;
use crate::hittable::scan_hit;
use crate::hittable::scene_wf;
use crate::hittable::HittableList;
use crate::hittable::Sphere;
use crate::materials::Dielectric;
use crate::materials::Lambertian;
use crate::materials::Material;
use crate::materials::Metal;
use crate::ppm::ascii_string;
use crate::ppm::chars_of;
use crate::ppm::lemma_digits_ascii;
use crate::ppm::lemma_join_push;
use crate::ppm::pixel_bytes;
use crate::ppm::pixel_line_bytes;
use crate::ppm::ppm_bytes;
use crate::ppm::ppm_header;
use crate::ppm::push_digits;
use crate::ray::black3;
use crate::ray::sky_spec;
use crate::ray::Ray;
use crate::ray::T_MIN_EPS_RAW;
use crate::rng::rand_fx;
use crate::rng::rand_fx_in_range;
use crate::vec3::len_sq_spec;
use crate::vec3::v3;
use crate::vec3::vec_add;
use crate::vec3::Color;
use crate::vec3::Vec3;
use vstd::prelude::*;

verus! {

/// The sum of `n` copies of a color, accumulated from black.
pub open spec fn sum_repeat(c: Color, n: nat) -> Color
    decreases n,
{
    if n == 0 {
        v3(0, 0, 0)
    } else {
        vec_add(sum_repeat(c, (n - 1) as nat), c)
    }
}

/// Accumulating a single sample yields exactly that sample: with one
/// sample per pixel nothing is averaged away.
pub proof fn lemma_sum_repeat_one(c: Color)
    ensures
        sum_repeat(c, 1) == c,
{
    assert(sum_repeat(c, 0) == v3(0, 0, 0));
}

/// The normalized image-plane coordinate of index `i` among `n`.
pub open spec fn pixel_coord(i: int, n: int) -> int {
    fx_div(i * SCALE as int, n * SCALE as int)
}

/// The deterministic camera ray of pixel `(i, j)` when jitter is disabled.
pub open spec fn pixel_ray(cam: Camera, i: int, j: int, w: int, h: int) -> Ray {
    get_ray_spec(cam, pixel_coord(i, w), pixel_coord(j, h))
}

/// What a single deterministic sample of pixel `(i, j)` yields over the
/// empty scene: black once the depth budget is spent or the camera ray
/// degenerates, the sky gradient otherwise.
pub open spec fn background_one(cam: Camera, i: int, j: int, w: int, h: int, depth: int) -> Color {
    let r = pixel_ray(cam, i, j, w, h);
    if depth <= 0 {
        black3()
    } else if 1 <= len_sq_spec(r.direction) < i64::MAX as int {
        sky_spec(r)
    } else {
        black3()
    }
}

/// Whether the deterministic ray of pixel `(i, j)` escapes the scene: the
/// scan of the whole object list reports no hit in the integrator's range.
pub open spec fn pixel_misses(world: Seq<Sphere>, cam: Camera, i: int, j: int, w: int, h: int) -> bool {
    scan_hit(world, pixel_ray(cam, i, j, w, h), T_MIN_EPS_RAW as int, i64::MAX as int) is None
}

/// Accumulates `samples_per_pixel` integrator samples for pixel `(i, j)`.
/// With jitter disabled, a pixel whose ray misses every object is pinned
/// exactly: every sample is the same deterministic background value.
pub fn sample_pixel(
    world: &HittableList,
    camera: &Camera,
    i: i32,
    j: i32,
    width: i32,
    height: i32,
    samples_per_pixel: i32,
    max_depth: i32,
    jitter: bool,
    rng: &mut rand::rngs::StdRng,
) -> (c: Color)
    requires
        scene_wf(world@),
        width >= 1,
        height >= 1,
        samples_per_pixel >= 1,
    ensures
        !jitter && (world@.len() == 0 || pixel_misses(
            world@,
            *camera,
            i as int,
            j as int,
            width as int,
            height as int,
        )) ==> c == sum_repeat(
            background_one(*camera, i as int, j as int, width as int, height as int, max_depth as int),
            samples_per_pixel as nat,
        ),
{
    let mut pixel_color = Vec3::from_ints(0, 0, 0);
    let mut s: i32 = 0;
    while s < samples_per_pixel
        invariant
            0 <= s <= samples_per_pixel,
            scene_wf(world@),
            width >= 1,
            height >= 1,
            !jitter && (world@.len() == 0 || pixel_misses(
                world@,
                *camera,
                i as int,
                j as int,
                width as int,
                height as int,
            )) ==> pixel_color == sum_repeat(
                background_one(
                    *camera,
                    i as int,
                    j as int,
                    width as int,
                    height as int,
                    max_depth as int,
                ),
                s as nat,
            ),
        decreases samples_per_pixel - s,
    {
        let ju = if jitter {
            rand_fx(rng)
        } else {
            Fx::zero()
        };
        let jv = if jitter {
            rand_fx(rng)
        } else {
            Fx::zero()
        };
        let u = Fx::from_int(i).add(ju).div(Fx::from_int(width));
        let v = Fx::from_int(j).add(jv).div(Fx::from_int(height));
        let ray = camera.get_ray(u, v);
        let sq = ray.direction.length_squared();
        let sample = if max_depth <= 0 {
            Vec3::from_ints(0, 0, 0)
        } else if sq.gt(Fx::zero()) && sq.lt(Fx::from_raw(i64::MAX)) {
            ray.calc_color(world, max_depth, rng)
        } else {
            Vec3::from_ints(0, 0, 0)
        };
        pixel_color = pixel_color.add(sample);
        s = s + 1;
    }
    pixel_color
}

/// The large diffuse gray ground sphere of the showcase scene.
pub open spec fn ground_sphere() -> Sphere {
    Sphere {
        center: v3(0, -65536000, 0),
        radius: Fx { raw: 65536000 },
        material: Material::Lambertian((Lambertian { albedo: v3(32768, 32768, 32768) })),
    }
}

/// The glass landmark sphere at the scene's center.
pub open spec fn glass_landmark() -> Sphere {
    Sphere {
        center: v3(0, SCALE as int, 0),
        radius: Fx { raw: SCALE },
        material: Material::Dielectric((Dielectric { refraction_index: Fx { raw: 98304 } })),
    }
}

/// The brown diffuse landmark sphere.
pub open spec fn brown_landmark() -> Sphere {
    Sphere {
        center: v3(-4 * SCALE as int, SCALE as int, 0),
        radius: Fx { raw: SCALE },
        material: Material::Lambertian((Lambertian { albedo: v3(26214, 13107, 6554) })),
    }
}

/// The polished metal landmark sphere.
pub open spec fn metal_landmark() -> Sphere {
    Sphere {
        center: v3(4 * SCALE as int, SCALE as int, 0),
        radius: Fx { raw: SCALE },
        material: Material::Metal((Metal { albedo: v3(45875, 39322, 32768), fuzz: Fx { raw: 0 } })),
    }
}

/// The showcase scene: a large ground sphere, a grid of small balls with
/// randomly drawn positions and materials (skipping those that would crowd
/// the metal landmark), and three fixed landmark spheres. Every material
/// placed is well-formed and attenuates within the display range, so the
/// scene can always be traced without amplifying radiance; the ground
/// comes first and the landmarks last, whatever the generator drew.
pub fn random_scene(rng: &mut rand::rngs::StdRng) -> (w: HittableList)
    ensures
        scene_wf(w@),
        crate::hittable::scene_bounded(w@),
        w@.len() >= 4,
        w@[0] == ground_sphere(),
        w@[w@.len() - 3] == glass_landmark(),
        w@[w@.len() - 2] == brown_landmark(),
        w@[w@.len() - 1] == metal_landmark(),
{
    let mut world = HittableList::default();
    let half = Fx::from_raw(32768);
    let ground = Sphere {
        center: Vec3::from_ints(0, -1000, 0),
        radius: Fx::from_int(1000),
        material: Material::Lambertian((Lambertian { albedo: Vec3::new(half, half, half) })),
    };
    proof {
        crate::hittable::lemma_scene_wf_push(world@, ground);
        crate::hittable::lemma_scene_bounded_push(world@, ground);
    }
    world.add(ground);
    let mut a: i32 = -11;
    while a < 11
        invariant
            scene_wf(world@),
            crate::hittable::scene_bounded(world@),
            world@.len() >= 1,
            world@[0] == ground_sphere(),
            -11 <= a <= 11,
            half@ == 32768,
        decreases 11 - a,
    {
        let mut b: i32 = -11;
        while b < 11
            invariant
                scene_wf(world@),
                crate::hittable::scene_bounded(world@),
                world@.len() >= 1,
                world@[0] == ground_sphere(),
                -11 <= a < 11,
                -11 <= b <= 11,
                half@ == 32768,
            decreases 11 - b,
        {
            let choose_mat = rand_fx(rng);
            let small = Fx::from_raw(13107);
            let near = Fx::from_raw(58982);
            let center = Vec3::new(
                Fx::from_int(a).add(near.mul(rand_fx(rng))),
                small,
                Fx::from_int(b).add(near.mul(rand_fx(rng))),
            );
            if center.sub(Vec3::new(Fx::from_int(4), small, Fx::zero())).length().gt(near) {
                let material = if choose_mat.lt(Fx::from_raw(52429)) {
                    let shade = Vec3::random(rng);
                    let tint = Vec3::random(rng);
                    proof {
                        crate::fixed::lemma_fx_mul_contract(shade.x@, tint.x@, SCALE as int);
                        crate::fixed::lemma_fx_mul_contract(shade.y@, tint.y@, SCALE as int);
                        crate::fixed::lemma_fx_mul_contract(shade.z@, tint.z@, SCALE as int);
                    }
                    Material::Lambertian((Lambertian { albedo: shade.mul(tint) }))
                } else if choose_mat.lt(Fx::from_raw(62259)) {
                    Material::Metal(
                        (Metal {
                            albedo: Vec3::random_in_range(half, Fx::one(), rng),
                            fuzz: rand_fx_in_range(Fx::zero(), half, rng),
                        }),
                    )
                } else {
                    Material::Dielectric((Dielectric { refraction_index: Fx::from_raw(98304) }))
                };
                let ball = Sphere { center, radius: small, material };
                proof {
                    crate::hittable::lemma_scene_wf_push(world@, ball);
                    crate::hittable::lemma_scene_bounded_push(world@, ball);
                }
                world.add(ball);
            }
            b = b + 1;
        }
        a = a + 1;
    }
    let glass = Sphere {
        center: Vec3::from_ints(0, 1, 0),
        radius: Fx::one(),
        material: Material::Dielectric((Dielectric { refraction_index: Fx::from_raw(98304) })),
    };
    proof {
        crate::hittable::lemma_scene_wf_push(world@, glass);
        crate::hittable::lemma_scene_bounded_push(world@, glass);
    }
    world.add(glass);
    let brown = Sphere {
        center: Vec3::from_ints(-4, 1, 0),
        radius: Fx::one(),
        material: Material::Lambertian(
            (Lambertian {
                albedo: Vec3::new(Fx::from_raw(26214), Fx::from_raw(13107), Fx::from_raw(6554)),
            }),
        ),
    };
    proof {
        crate::hittable::lemma_scene_wf_push(world@, brown);
        crate::hittable::lemma_scene_bounded_push(world@, brown);
    }
    world.add(brown);
    let steel = Sphere {
        center: Vec3::from_ints(4, 1, 0),
        radius: Fx::one(),
        material: Material::Metal(
            (Metal {
                albedo: Vec3::new(Fx::from_raw(45875), Fx::from_raw(39322), Fx::from_raw(32768)),
                fuzz: Fx::zero(),
            }),
        ),
    };
    proof {
        crate::hittable::lemma_scene_wf_push(world@, steel);
        crate::hittable::lemma_scene_bounded_push(world@, steel);
    }
    world.add(steel);
    world
}

/// The display line of pixel index `k` (row-major from the top of the
/// image) in a render of the empty scene with jitter disabled: rows come
/// out top to bottom while the image-plane coordinate runs bottom to top,
/// so pixel `k` is column `k % w` of row `h - 1 - k / w`.
pub open spec fn background_line(
    cam: Camera,
    w: int,
    h: int,
    samples: int,
    depth: int,
    k: int,
) -> Seq<u8> {
    let i = k % w;
    let j = h - 1 - k / w;
    pixel_bytes(sum_repeat(background_one(cam, i, j, w, h, depth), samples as nat), samples)
}

/// Renders the scene into the bytes of a plain-text pixel map: the header
/// carries the dimensions, and exactly `width * height` newline-ended
/// pixel lines follow, rows emitted top to bottom. Over the empty scene
/// with jitter disabled the whole image is pinned: every line is the
/// deterministic background line of its pixel.
#[verifier::rlimit(60)]
pub fn render(
    world: &HittableList,
    camera: &Camera,
    width: i32,
    height: i32,
    samples_per_pixel: i32,
    max_depth: i32,
    jitter: bool,
    rng: &mut rand::rngs::StdRng,
) -> (img: String)
    requires
        scene_wf(world@),
        width >= 1,
        height >= 1,
        samples_per_pixel >= 1,
    ensures
        exists|lines: Seq<Seq<u8>>|
            lines.len() == (width as int) * (height as int) && img@ == chars_of(
                ppm_bytes(width as nat, height as nat, lines),
            ),
        world@.len() == 0 && !jitter ==> img@ == chars_of(
            ppm_bytes(
                width as nat,
                height as nat,
                Seq::new(
                    ((width as int) * (height as int)) as nat,
                    |k: int|
                        background_line(
                            *camera,
                            width as int,
                            height as int,
                            samples_per_pixel as int,
                            max_depth as int,
                            k,
                        ),
                ),
            ),
        ),
{
    let mut out: Vec<u8> = Vec::new();
    out.push(80);
    out.push(51);
    out.push(10);
    push_digits(width as u32, &mut out);
    out.push(32);
    push_digits(height as u32, &mut out);
    out.push(10);
    out.push(50);
    out.push(53);
    out.push(53);
    out.push(10);
    let ghost mut lines: Seq<Seq<u8>> = Seq::empty();
    proof {
        lemma_digits_ascii(width as nat);
        lemma_digits_ascii(height as nat);
        assert(out@ =~= ppm_header(width as nat, height as nat));
        assert(out@ =~= ppm_bytes(width as nat, height as nat, lines));
    }
    let mut j: i32 = height - 1;
    while j >= 0
        invariant
            -1 <= j <= height - 1,
            scene_wf(world@),
            width >= 1,
            height >= 1,
            samples_per_pixel >= 1,
            lines.len() == (height - 1 - j) * (width as int),
            out@ == ppm_bytes(width as nat, height as nat, lines),
            forall|k: int| 0 <= k < out@.len() ==> out@[k] < 128,
            world@.len() == 0 && !jitter ==> forall|k: int|
                0 <= k < lines.len() ==> lines[k] == background_line(
                    *camera,
                    width as int,
                    height as int,
                    samples_per_pixel as int,
                    max_depth as int,
                    k,
                ),
        decreases j + 1,
    {
        let mut i: i32 = 0;
        while i < width
            invariant
                0 <= i <= width,
                0 <= j <= height - 1,
                scene_wf(world@),
                width >= 1,
                height >= 1,
                samples_per_pixel >= 1,
                lines.len() == (height - 1 - j) * (width as int) + i,
                out@ == ppm_bytes(width as nat, height as nat, lines),
                forall|k: int| 0 <= k < out@.len() ==> out@[k] < 128,
                world@.len() == 0 && !jitter ==> forall|k: int|
                    0 <= k < lines.len() ==> lines[k] == background_line(
                        *camera,
                        width as int,
                        height as int,
                        samples_per_pixel as int,
                        max_depth as int,
                        k,
                    ),
            decreases width - i,
        {
            let c = sample_pixel(
                world,
                camera,
                i,
                j,
                width,
                height,
                samples_per_pixel,
                max_depth,
                jitter,
                rng,
            );
            let mut line = pixel_line_bytes(c, samples_per_pixel);
            let ghost lbytes = line@;
            out.append(&mut line);
            out.push(10);
            proof {
                if world@.len() == 0 && !jitter {
                    let w = width as int;
                    let k0 = lines.len() as int;
                    vstd::arithmetic::div_mod::lemma_fundamental_div_mod_converse(
                        k0,
                        w,
                        (height - 1 - j) as int,
                        i as int,
                    );
                    assert(lbytes == background_line(
                        *camera,
                        w,
                        height as int,
                        samples_per_pixel as int,
                        max_depth as int,
                        k0,
                    ));
                }
                lemma_join_push(lines, lbytes);
                lines = lines.push(lbytes);
                assert(out@ =~= ppm_bytes(width as nat, height as nat, lines));
            }
            i = i + 1;
        }
        proof {
            assert((height - 1 - j) * (width as int) + width == (height - 1 - (j - 1)) * (
            width as int)) by (nonlinear_arith);
        }
        j = j - 1;
    }
    proof {
        assert(lines.len() == (width as int) * (height as int)) by (nonlinear_arith)
            requires
                lines.len() == (height - 1 - j) * (width as int),
                j == -1,
        ;
        if world@.len() == 0 && !jitter {
            let expected = Seq::new(
                ((width as int) * (height as int)) as nat,
                |k: int|
                    background_line(
                        *camera,
                        width as int,
                        height as int,
                        samples_per_pixel as int,
                        max_depth as int,
                        k,
                    ),
            );
            assert(lines =~= expected);
        }
    }
    ascii_string(out)
}

} // verus!

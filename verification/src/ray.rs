//! Rays: an origin with a direction, a parametric point accessor, and a
//! closed-form first-root probe against a sphere.

use crate::fixed::fx_add;
use crate::fixed::fx_div;
use crate::fixed::fx_mul;
use crate::fixed::fx_neg;
use crate::fixed::fx_sqrt;
use crate::fixed::fx_sub;
use crate::fixed::lemma_fx_mul_contract;
use crate::fixed::lemma_tdiv_exact;
use crate::fixed::lemma_tdiv_mag;
use crate::fixed::mag;
use crate::fixed::Fx;
use crate::fixed::SCALE;
use crate::hittable::lemma_scan_hit_member;
use crate::hittable::scan_hit;
use crate::hittable::scene_bounded;
use crate::hittable::scene_wf;
use crate::hittable::sphere_hit_record;
use crate::hittable::HitRecord;
use crate::hittable::HittableList;
use crate::hittable::Sphere;
use crate::materials::scatter_outcome;
use crate::vec3::dot_spec;
use crate::vec3::len_sq_spec;
use crate::vec3::lemma_len_pos;
use crate::vec3::lemma_unit_bounded;
use crate::vec3::unit_spec;
use crate::vec3::vec_cmul;
use crate::vec3::v3;
use crate::vec3::vec_add;
use crate::vec3::vec_scale;
use crate::vec3::vec_sub;
use crate::vec3::Color;
use crate::vec3::Point3;
use crate::vec3::Vec3;
use vstd::prelude::*;

verus! {

/// Black: the color of an absorbed or depth-exhausted path.
pub open spec fn black3() -> Color {
    v3(0, 0, 0)
}

/// The background gradient for a missed ray: white at the bottom of the
/// direction's vertical range blending to sky blue at the top.
pub open spec fn sky_spec(r: Ray) -> Color {
    let u = unit_spec(r.direction);
    let t = fx_mul(32768, fx_add(u.y@, SCALE as int));
    vec_add(
        vec_scale(v3(SCALE as int, SCALE as int, SCALE as int), fx_sub(SCALE as int, t)),
        vec_scale(v3(32768, 45875, SCALE as int), t),
    )
}

/// The positive lower intersection bound used by the integrator, a little
/// above zero so a scattered ray cannot immediately re-hit the surface it
/// left through rounding ("shadow acne").
pub const T_MIN_EPS_RAW: i64 = 66;

/// Every component of the color has magnitude within the bound.
pub open spec fn color_within(c: Color, lo: int, hi: int) -> bool {
    lo <= c.x@ <= hi && lo <= c.y@ <= hi && lo <= c.z@ <= hi
}

/// The sky gradient cannot stray far from the display range: for a usable
/// direction, every channel lies within one whole unit below zero and
/// three above (the overshoot comes only from the normalization's
/// rounding).
pub proof fn lemma_sky_bounded(r: Ray)
    requires
        1 <= len_sq_spec(r.direction),
        len_sq_spec(r.direction) < i64::MAX as int,
    ensures
        color_within(sky_spec(r), -(SCALE as int), 3 * SCALE as int),
{
    lemma_unit_bounded(r.direction);
    let u = unit_spec(r.direction);
    let a = fx_add(u.y@, SCALE as int);
    assert(mag(a) <= 3 * SCALE as int);
    let t = fx_mul(32768, a);
    lemma_tdiv_mag(32768 * a, SCALE as int);
    assert(mag(32768 * a) == 32768 * mag(a)) by (nonlinear_arith);
    assert(32768 * mag(a) <= 65536 * (3 * 32768)) by (nonlinear_arith)
        requires
            mag(a) <= 3 * 65536,
    ;
    vstd::arithmetic::div_mod::lemma_div_is_ordered(
        32768 * mag(a),
        65536int * (3 * 32768),
        SCALE as int,
    );
    vstd::arithmetic::div_mod::lemma_div_multiples_vanish(3int * 32768, SCALE as int);
    assert(mag(t) <= 3 * 32768);
    assert(a >= -(SCALE as int) ==> t >= -32768) by {
        if -(SCALE as int) <= a < 0 {
            assert(32768 * mag(a) <= 65536 * 32768) by (nonlinear_arith)
                requires
                    mag(a) <= 65536,
            ;
            vstd::arithmetic::div_mod::lemma_div_is_ordered(
                32768 * mag(a),
                65536int * 32768,
                SCALE as int,
            );
            vstd::arithmetic::div_mod::lemma_div_multiples_vanish(32768, SCALE as int);
        }
    }
    assert(-32768 <= t <= 3 * 32768);
    let s1 = fx_sub(SCALE as int, t);
    assert(-32768 <= s1 <= 3 * 32768);
    lemma_tdiv_exact(s1, SCALE as int);
    assert(fx_mul(SCALE as int, s1) == s1) by {
        assert((SCALE as int) * s1 == s1 * (SCALE as int)) by (nonlinear_arith);
    }
    // each blue channel scales `t` by a factor in [0, 1]: the product keeps
    // t's sign and never exceeds t's magnitude
    lemma_fx_mul_contract(32768, t, mag(t));
    lemma_fx_mul_contract(45875, t, mag(t));
    lemma_fx_mul_contract(SCALE as int, t, mag(t));
}

/// Attenuating a bounded color componentwise by display-range channels
/// keeps it within the same bounds: no channel's magnitude grows.
proof fn lemma_attenuation_within(att: Color, c2: Color, c: Color)
    requires
        0 <= att.x@ <= SCALE as int,
        0 <= att.y@ <= SCALE as int,
        0 <= att.z@ <= SCALE as int,
        color_within(c2, -(SCALE as int), 3 * SCALE as int),
        c == vec_cmul(att, c2),
    ensures
        color_within(c, -(SCALE as int), 3 * SCALE as int),
{
    lemma_fx_mul_contract(att.x@, c2.x@, mag(c2.x@));
    lemma_fx_mul_contract(att.y@, c2.y@, mag(c2.y@));
    lemma_fx_mul_contract(att.z@, c2.z@, mag(c2.z@));
}

#[derive(Clone, Copy, PartialEq, Eq, Structural, Debug)]
pub struct Ray {
    pub origin: Point3,
    pub direction: Vec3,
}

/// The colors the integrator can hand back for a ray, following the
/// contracts of spec-level intersection and scattering: black once the
/// depth budget is spent; the sky gradient on a miss; and on a hit, some
/// outcome the hit material's scatter contract allows - black exactly when
/// that outcome absorbs the ray or its outgoing direction is unusable, and
/// otherwise the outcome's attenuation times, componentwise, a color
/// possible for the scattered ray one bounce deeper.
pub open spec fn possible_color(r: Ray, objs: Seq<Sphere>, depth: int, c: Color) -> bool
    decreases depth,
{
    if depth <= 0 {
        c == black3()
    } else {
        match scan_hit(objs, r, T_MIN_EPS_RAW as int, i64::MAX as int) {
            None => c == sky_spec(r),
            Some(h) => {
                let rec = sphere_hit_record(h.0, r, h.1);
                exists|ok: bool, att: Color, dir: Vec3|
                    #![trigger scatter_outcome(rec.material, r, rec, ok, att, dir)]
                    scatter_outcome(rec.material, r, rec, ok, att, dir) && (if ok && 1
                        <= len_sq_spec(dir) < i64::MAX as int {
                        exists|c2: Color|
                            #![trigger vec_cmul(att, c2)]
                            possible_color(
                                Ray { origin: rec.point, direction: dir },
                                objs,
                                depth - 1,
                                c2,
                            ) && c == vec_cmul(att, c2)
                    } else {
                        c == black3()
                    })
            },
        }
    }
}

/// The point the ray reaches at parameter `t` (a raw scalar value).
pub open spec fn at_spec(r: Ray, t: int) -> Point3 {
    vec_add(r.origin, vec_scale(r.direction, t))
}

/// The smaller quadratic root of the ray/sphere intersection, or minus one
/// when the ray misses the sphere or is degenerate.
pub open spec fn hit_sphere_spec(center: Point3, radius: int, ray: Ray) -> int {
    let oc = vec_sub(ray.origin, center);
    let a = len_sq_spec(ray.direction);
    let half_b = dot_spec(oc, ray.direction);
    let c = fx_sub(len_sq_spec(oc), fx_mul(radius, radius));
    let disc = fx_sub(fx_mul(half_b, half_b), fx_mul(a, c));
    if disc < 0 || a == 0 {
        -(SCALE as int)
    } else {
        fx_div(fx_sub(fx_neg(half_b), fx_sqrt(disc)), a)
    }
}

impl Ray {
    /// The ray from `origin` along `direction`.
    pub fn new(origin: Point3, direction: Vec3) -> (r: Ray)
        ensures
            r == (Ray { origin, direction }),
    {
        Ray { origin, direction }
    }

    /// The point the ray reaches at parameter `t`.
    pub fn at(self, t: Fx) -> (p: Point3)
        ensures
            p == at_spec(self, t@),
    {
        self.origin.add(self.direction.scale(t))
    }

    /// The nearest intersection parameter with the given sphere, or minus
    /// one on a miss.
    pub fn hit(&self, center: &Point3, radius: Fx) -> (t: Fx)
        ensures
            t@ == hit_sphere_spec(*center, radius@, *self),
    {
        hit_sphere(center, radius, self)
    }

    /// Resolves this camera ray to a color: alternating intersection and
    /// scattering until the depth budget runs out (black), the path is
    /// absorbed (black), or the ray escapes to the background gradient.
    /// Intersections start a little above zero to avoid shadow acne; a
    /// scattered ray whose direction degenerates to (near) zero length, or
    /// whose squared length saturates the scale, is treated as absorbed
    /// rather than traced on. The result is always a color the
    /// `possible_color` predicate allows, and over a scene of bounded
    /// albedos no bounce amplifies it past the normalization rounding.
    pub fn calc_color(
        self,
        world: &HittableList,
        depth: i32,
        rng: &mut rand::rngs::StdRng,
    ) -> (c: Color)
        requires
            scene_wf(world@),
            1 <= len_sq_spec(self.direction) < i64::MAX as int,
        ensures
            possible_color(self, world@, depth as int, c),
            depth <= 0 ==> c == black3(),
            depth > 0 && scan_hit(world@, self, T_MIN_EPS_RAW as int, i64::MAX as int) is None
                ==> c == sky_spec(self),
            depth > 0 && world@.len() == 0 ==> c == sky_spec(self),
            scene_bounded(world@) ==> color_within(c, -(SCALE as int), 3 * SCALE as int),
        decreases depth,
    {
        if depth <= 0 {
            return Vec3::from_ints(0, 0, 0);
        }
        let mut record = HitRecord::default();
        let t_min = Fx::from_raw(T_MIN_EPS_RAW);
        let t_max = Fx::from_raw(i64::MAX);
        if world.hit(&self, t_min, t_max, &mut record) {
            proof {
                lemma_scan_hit_member(world@, self, T_MIN_EPS_RAW as int, i64::MAX as int);
            }
            let mut attenuation = Vec3::from_ints(0, 0, 0);
            let mut scattered = Ray::new(Vec3::from_ints(0, 0, 0), Vec3::from_ints(0, 0, 0));
            let material = record.material;
            let survived = material.scatter(&self, &record, &mut attenuation, &mut scattered, rng);
            if survived {
                let sq = scattered.direction.length_squared();
                if sq.gt(Fx::zero()) && sq.lt(Fx::from_raw(i64::MAX)) {
                    let bounced = scattered.calc_color(world, depth - 1, rng);
                    let c = attenuation.mul(bounced);
                    proof {
                        assert(scattered == (Ray {
                            origin: record.point,
                            direction: scattered.direction,
                        }));
                        if scene_bounded(world@) {
                            assert(crate::materials::material_bounded(record.material));
                            lemma_attenuation_within(attenuation, bounced, c);
                        }
                        assert(scatter_outcome(
                            record.material,
                            self,
                            record,
                            true,
                            attenuation,
                            scattered.direction,
                        ));
                        assert(c == vec_cmul(attenuation, bounced));
                        assert(possible_color(self, world@, depth as int, c));
                    }
                    return c;
                }
                let c = Vec3::from_ints(0, 0, 0);
                proof {
                    assert(scatter_outcome(
                        record.material,
                        self,
                        record,
                        true,
                        attenuation,
                        scattered.direction,
                    ));
                    assert(possible_color(self, world@, depth as int, c));
                }
                return c;
            }
            let c = Vec3::from_ints(0, 0, 0);
            proof {
                assert(scatter_outcome(
                    record.material,
                    self,
                    record,
                    false,
                    attenuation,
                    scattered.direction,
                ));
                assert(possible_color(self, world@, depth as int, c));
            }
            return c;
        }
        proof {
            lemma_sky_bounded(self);
            lemma_len_pos(self.direction);
        }
        let unit = self.direction.unit();
        let t = Fx::from_raw(32768).mul(unit.y.add(Fx::one()));
        let white = Vec3::from_ints(1, 1, 1);
        let sky_blue = Vec3::new(Fx::from_raw(32768), Fx::from_raw(45875), Fx::one());
        white.scale(Fx::one().sub(t)).add(sky_blue.scale(t))
    }
}

impl Default for Ray {
    /// The ray from the origin along the zero direction.
    fn default() -> (r: Self)
        ensures
            r.origin == v3(0, 0, 0),
            r.direction == v3(0, 0, 0),
    {
        Ray { origin: Vec3::from_ints(0, 0, 0), direction: Vec3::from_ints(0, 0, 0) }
    }
}

/// Solves the intersection quadratic and returns its smaller root, ignoring
/// any range: a negative discriminant or a degenerate direction reports a
/// miss as minus one.
fn hit_sphere(center: &Point3, radius: Fx, ray: &Ray) -> (t: Fx)
    ensures
        t@ == hit_sphere_spec(*center, radius@, *ray),
{
    let oc = ray.origin.sub(*center);
    let a = ray.direction.length_squared();
    let half_b = oc.dot(ray.direction);
    let c = oc.length_squared().sub(radius.mul(radius));
    let discriminant = half_b.mul(half_b).sub(a.mul(c));
    if discriminant.lt(Fx::zero()) || a.raw == 0 {
        Fx::from_raw(-SCALE)
    } else {
        half_b.neg().sub(discriminant.sqrt()).div(a)
    }
}

} // verus!

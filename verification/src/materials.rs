//! The closed set of surface materials and their scattering rules. Each
//! scatter states exactly when a ray survives, and pins the outgoing ray as
//! far as the random draws allow: what holds here holds for every outcome
//! of the generator.

use crate::fixed::fx_add;
use crate::fixed::fx_div;
use crate::fixed::fx_mul;
use crate::fixed::fx_sqrt;
use crate::fixed::fx_sub;
use crate::fixed::lemma_tdiv_mag;
use crate::fixed::Fx;
use crate::fixed::SCALE;
use crate::hittable::HitRecord;
use crate::ray::Ray;
use crate::rng::rand_fx;
use crate::vec3::dot_spec;
use crate::vec3::in_unit_ball;
use crate::vec3::is_unit_draw;
use crate::vec3::len_sq_spec;
use crate::vec3::near_zero_spec;
use crate::vec3::vec_add;
use crate::vec3::vec_scale;
use crate::vec3::reflect_spec;
use crate::vec3::refract_spec;
use crate::vec3::rgb_raw;
use crate::vec3::unit_spec;
use crate::vec3::v3;
use crate::vec3::vec_neg;
use crate::vec3::Color;
use crate::vec3::Vec3;
use std::sync::Arc;
use vstd::arithmetic::div_mod::lemma_div_pos_is_pos;
use vstd::prelude::*;

verus! {

/// A diffuse surface: scatters into the hemisphere around the normal and
/// always attenuates by its albedo.
#[derive(Clone, Copy, PartialEq, Eq, Structural, Debug)]
pub struct Lambertian {
    pub albedo: Color,
}

/// A specular surface: reflects about the normal, roughened by `fuzz`, and
/// absorbs rays that end up under the surface.
#[derive(Clone, Copy, PartialEq, Eq, Structural, Debug)]
pub struct Metal {
    pub albedo: Color,
    pub fuzz: Fx,
}

/// A clear refractive surface described by its refraction index.
#[derive(Clone, Copy, PartialEq, Eq, Structural, Debug)]
pub struct Dielectric {
    pub refraction_index: Fx,
}

/// The closed set of materials a surface can carry.
#[derive(Clone, Copy, PartialEq, Eq, Structural, Debug)]
pub enum Material {
    Lambertian(Lambertian),
    Metal(Metal),
    Dielectric(Dielectric),
}

/// A material the scattering rules are meaningful for: a dielectric needs a
/// positive refraction index.
pub open spec fn material_wf(m: Material) -> bool {
    match m {
        Material::Dielectric(d) => d.refraction_index@ > 0,
        _ => true,
    }
}

/// The refraction ratio a dielectric uses: inverted on a front-face hit
/// (entering the medium), plain on a back-face hit (leaving it).
pub open spec fn dielectric_ratio(d: Dielectric, front_face: bool) -> int {
    if front_face {
        fx_div(SCALE as int, d.refraction_index@)
    } else {
        d.refraction_index@
    }
}

/// Cosine between the reversed unit direction and the normal, capped at one.
pub open spec fn cos_theta_spec(ud: Vec3, n: Vec3) -> int {
    if dot_spec(vec_neg(ud), n) <= SCALE as int {
        dot_spec(vec_neg(ud), n)
    } else {
        SCALE as int
    }
}

/// Sine recovered from the cosine, with a negative radicand flattened to
/// zero before the square root.
pub open spec fn sin_theta_spec(ud: Vec3, n: Vec3) -> int {
    let m = fx_sub(SCALE as int, fx_mul(cos_theta_spec(ud, n), cos_theta_spec(ud, n)));
    fx_sqrt(
        if m >= 0 {
            m
        } else {
            0
        },
    )
}

/// Total internal reflection: the refraction ratio times the sine exceeds
/// one, so no refracted direction exists.
pub open spec fn cannot_refract_spec(d: Dielectric, front_face: bool, ud: Vec3, n: Vec3) -> bool {
    fx_mul(dielectric_ratio(d, front_face), sin_theta_spec(ud, n)) > SCALE as int
}

/// Schlick's polynomial approximation of the Fresnel reflectance.
pub open spec fn reflectance_spec(cosine: int, ref_idx: int) -> int {
    let r0a = fx_div(fx_sub(SCALE as int, ref_idx), fx_add(SCALE as int, ref_idx));
    let r0 = fx_mul(r0a, r0a);
    let b = fx_sub(SCALE as int, cosine);
    let b2 = fx_mul(b, b);
    let b4 = fx_mul(b2, b2);
    let b5 = fx_mul(b4, b);
    fx_add(r0, fx_mul(fx_sub(SCALE as int, r0), b5))
}

/// The direction a metal reflects into before fuzzing: the unit-scaled
/// mirror reflection, kept unscaled when it degenerates to zero length.
pub open spec fn metal_reflect_dir(ray_in: Ray, n: Vec3) -> Vec3 {
    let refl = reflect_spec(ray_in.direction, n);
    if len_sq_spec(refl) >= 1 {
        unit_spec(refl)
    } else {
        refl
    }
}

/// Everything a material's scatter promises of one outcome `(ok, att,
/// dir)`: whether the ray can survive, what attenuates it, and how the
/// outgoing direction is built from the drawn randomness. A diffuse
/// surface always survives with its albedo, sending the ray along the
/// normal plus a unit draw (falling back to the bare normal when that sum
/// nearly cancels). A metal attenuates by its albedo, perturbs the unit
/// reflection by `fuzz` times a ball draw, and survives exactly when the
/// result leaves the surface. A dielectric always survives with a white
/// attenuation, reflecting or refracting the unit incoming direction;
/// total internal reflection forces the reflection, and a zero Fresnel
/// reflectance forces the refraction.
pub open spec fn scatter_outcome(
    m: Material,
    ray_in: Ray,
    rec: HitRecord,
    ok: bool,
    att: Color,
    dir: Vec3,
) -> bool {
    match m {
        Material::Lambertian(l) => ok && att == l.albedo && (exists|u: Vec3|
            #![auto]
            is_unit_draw(u) && (if near_zero_spec(vec_add(rec.normal, u)) {
                dir == rec.normal
            } else {
                dir == vec_add(rec.normal, u)
            })),
        Material::Metal(mt) => att == mt.albedo && ok == (dot_spec(dir, rec.normal) > 0) && (
        exists|u: Vec3|
            #![auto]
            in_unit_ball(u) && dir == vec_add(
                metal_reflect_dir(ray_in, rec.normal),
                vec_scale(u, mt.fuzz@),
            )) && (mt.fuzz@ == 0 ==> dir == metal_reflect_dir(ray_in, rec.normal)),
        Material::Dielectric(d) => ok && att == v3(SCALE as int, SCALE as int, SCALE as int) && (
        dir == reflect_spec(unit_spec(ray_in.direction), rec.normal) || dir == refract_spec(
            unit_spec(ray_in.direction),
            rec.normal,
            dielectric_ratio(d, rec.front_face),
        )) && (cannot_refract_spec(d, rec.front_face, unit_spec(ray_in.direction), rec.normal)
            ==> dir == reflect_spec(unit_spec(ray_in.direction), rec.normal)) && (
        !cannot_refract_spec(d, rec.front_face, unit_spec(ray_in.direction), rec.normal)
            && reflectance_spec(
            cos_theta_spec(unit_spec(ray_in.direction), rec.normal),
            dielectric_ratio(d, rec.front_face),
        ) <= 0 ==> dir == refract_spec(
            unit_spec(ray_in.direction),
            rec.normal,
            dielectric_ratio(d, rec.front_face),
        )),
    }
}

/// Every albedo channel of the material lies in the display range
/// `[0, 1]`; a dielectric attenuates with pure white, which always does.
pub open spec fn material_bounded(m: Material) -> bool {
    match m {
        Material::Lambertian(l) => {
            &&& 0 <= l.albedo.x@ <= SCALE as int
            &&& 0 <= l.albedo.y@ <= SCALE as int
            &&& 0 <= l.albedo.z@ <= SCALE as int
        },
        Material::Metal(mt) => {
            &&& 0 <= mt.albedo.x@ <= SCALE as int
            &&& 0 <= mt.albedo.y@ <= SCALE as int
            &&& 0 <= mt.albedo.z@ <= SCALE as int
        },
        Material::Dielectric(_) => true,
    }
}

/// A fixed-point quotient of nonnegatives is nonnegative.
proof fn lemma_fx_div_nonneg(a: int, b: int)
    requires
        a >= 0,
        b > 0,
    ensures
        fx_div(a, b) >= 0,
{
    lemma_tdiv_mag(a * (SCALE as int), b);
    lemma_div_pos_is_pos(a * (SCALE as int), b);
}

impl Lambertian {
    /// The diffuse material with the given display-channel albedo.
    pub fn new(r: i32, g: i32, b: i32) -> (m: Lambertian)
        requires
            0 <= r,
            0 <= g,
            0 <= b,
        ensures
            m.albedo.x@ == rgb_raw(r as int),
            m.albedo.y@ == rgb_raw(g as int),
            m.albedo.z@ == rgb_raw(b as int),
    {
        Self { albedo: Color::rgb(r, g, b) }
    }

    /// This material behind a shared reference.
    pub fn as_ref(self) -> (r: Arc<Lambertian>)
        ensures
            r == self,
    {
        Arc::new(self)
    }

    /// Diffuse scattering: always survives, attenuates by the albedo, and
    /// leaves from the hit point. The outgoing direction is the normal plus
    /// a random unit draw, with the normal itself as the fallback when the
    /// draw cancels the normal, so a nonzero normal never yields a
    /// near-zero outgoing direction.
    pub fn scatter(
        &self,
        _ray_in: &Ray,
        record: &HitRecord,
        attenuation: &mut Color,
        scattered: &mut Ray,
        rng: &mut rand::rngs::StdRng,
    ) -> (r: bool)
        ensures
            r,
            *final(attenuation) == self.albedo,
            final(scattered).origin == record.point,
            final(scattered).direction == record.normal || !near_zero_spec(
                final(scattered).direction,
            ),
            !near_zero_spec(record.normal) ==> !near_zero_spec(final(scattered).direction),
            exists|u: Vec3|
                #![auto]
                is_unit_draw(u) && (if near_zero_spec(vec_add(record.normal, u)) {
                    final(scattered).direction == record.normal
                } else {
                    final(scattered).direction == vec_add(record.normal, u)
                }),
    {
        let offset = Vec3::random_unit_vec(rng);
        let mut scatter_direction = record.normal.add(offset);
        if scatter_direction.near_zero() {
            scatter_direction = record.normal;
        }
        *scattered = Ray { origin: record.point, direction: scatter_direction };
        *attenuation = self.albedo;
        true
    }
}

impl Metal {
    /// The specular material with the given display-channel albedo; a fuzz
    /// above one is pressed down to one.
    pub fn new(r: i32, g: i32, b: i32, fuzz: Fx) -> (m: Metal)
        requires
            0 <= r,
            0 <= g,
            0 <= b,
        ensures
            m.albedo.x@ == rgb_raw(r as int),
            m.albedo.y@ == rgb_raw(g as int),
            m.albedo.z@ == rgb_raw(b as int),
            m.fuzz@ == if fuzz@ < SCALE as int {
                fuzz@
            } else {
                SCALE as int
            },
    {
        Self {
            albedo: Color::rgb(r, g, b),
            fuzz: if fuzz.lt(Fx::one()) {
                fuzz
            } else {
                Fx::one()
            },
        }
    }

    /// This material behind a shared reference.
    pub fn as_ref(self) -> (r: Arc<Metal>)
        ensures
            r == self,
    {
        Arc::new(self)
    }

    /// Specular scattering: reflects the incoming direction, perturbs it by
    /// `fuzz` times a ball draw, and survives exactly when the outgoing
    /// direction leaves the surface - its inner product with the normal is
    /// positive.
    pub fn scatter(
        &self,
        ray_in: &Ray,
        record: &HitRecord,
        attenuation: &mut Color,
        scattered: &mut Ray,
        rng: &mut rand::rngs::StdRng,
    ) -> (r: bool)
        ensures
            r == (dot_spec(final(scattered).direction, record.normal) > 0),
            *final(attenuation) == self.albedo,
            final(scattered).origin == record.point,
            self.fuzz@ == 0 ==> final(scattered).direction == metal_reflect_dir(
                *ray_in,
                record.normal,
            ),
            exists|u: Vec3|
                #![auto]
                in_unit_ball(u) && final(scattered).direction == vec_add(
                    metal_reflect_dir(*ray_in, record.normal),
                    vec_scale(u, self.fuzz@),
                ),
    {
        let refl = ray_in.direction.reflect(record.normal);
        let reflected = if refl.length_squared().gt(Fx::zero()) {
            proof {
                crate::vec3::lemma_len_pos(refl);
            }
            refl.unit()
        } else {
            refl
        };
        let fuzz_offset = Vec3::random_in_unit_sphere(rng);
        let direction = reflected.add(fuzz_offset.scale(self.fuzz));
        *scattered = Ray { origin: record.point, direction };
        *attenuation = self.albedo;
        scattered.direction.dot(record.normal).gt(Fx::zero())
    }
}

impl Dielectric {
    /// The refractive material with the given refraction index.
    pub fn new(refraction_index: Fx) -> (m: Dielectric)
        ensures
            m.refraction_index == refraction_index,
    {
        Self { refraction_index }
    }

    /// This material behind a shared reference.
    pub fn as_ref(self) -> (r: Arc<Dielectric>)
        ensures
            r == self,
    {
        Arc::new(self)
    }

    /// Schlick's reflectance approximation.
    fn reflectance(cosine: Fx, refraction_index: Fx) -> (r: Fx)
        requires
            fx_add(SCALE as int, refraction_index@) != 0,
        ensures
            r@ == reflectance_spec(cosine@, refraction_index@),
    {
        let one = Fx::one();
        let r0a = one.sub(refraction_index).div(one.add(refraction_index));
        let r0 = r0a.mul(r0a);
        let b = one.sub(cosine);
        let b2 = b.mul(b);
        let b4 = b2.mul(b2);
        let b5 = b4.mul(b);
        r0.add(one.sub(r0).mul(b5))
    }

    /// Refractive scattering: always survives with a pure white
    /// attenuation, leaving from the hit point. The outgoing direction is
    /// either the reflection or the refraction of the unit incoming
    /// direction; under total internal reflection it is always the
    /// reflection, otherwise a Fresnel-weighted draw picks between the two.
    pub fn scatter(
        &self,
        ray_in: &Ray,
        record: &HitRecord,
        attenuation: &mut Color,
        scattered: &mut Ray,
        rng: &mut rand::rngs::StdRng,
    ) -> (r: bool)
        requires
            self.refraction_index@ > 0,
            len_sq_spec(ray_in.direction) >= 1,
        ensures
            r,
            *final(attenuation) == v3(SCALE as int, SCALE as int, SCALE as int),
            final(scattered).origin == record.point,
            final(scattered).direction == reflect_spec(
                unit_spec(ray_in.direction),
                record.normal,
            ) || final(scattered).direction == refract_spec(
                unit_spec(ray_in.direction),
                record.normal,
                dielectric_ratio(*self, record.front_face),
            ),
            cannot_refract_spec(*self, record.front_face, unit_spec(ray_in.direction), record.normal)
                ==> final(scattered).direction == reflect_spec(
                unit_spec(ray_in.direction),
                record.normal,
            ),
            !cannot_refract_spec(
                *self,
                record.front_face,
                unit_spec(ray_in.direction),
                record.normal,
            ) && reflectance_spec(
                cos_theta_spec(unit_spec(ray_in.direction), record.normal),
                dielectric_ratio(*self, record.front_face),
            ) <= 0 ==> final(scattered).direction == refract_spec(
                unit_spec(ray_in.direction),
                record.normal,
                dielectric_ratio(*self, record.front_face),
            ),
    {
        *attenuation = Vec3::from_ints(1, 1, 1);
        let refraction_ratio = if record.front_face {
            proof {
                lemma_fx_div_nonneg(SCALE as int, self.refraction_index@);
            }
            Fx::one().div(self.refraction_index)
        } else {
            self.refraction_index
        };
        proof {
            crate::vec3::lemma_len_pos(ray_in.direction);
        }
        let unit_direction = ray_in.direction.unit();

        let cos_theta = unit_direction.neg().dot(record.normal).min(Fx::one());
        let radicand = Fx::one().sub(cos_theta.mul(cos_theta)).max(Fx::zero());
        let sin_theta = radicand.sqrt();

        let cannot_refract = refraction_ratio.mul(sin_theta).gt(Fx::one());

        let direction = if cannot_refract || Dielectric::reflectance(
            cos_theta,
            refraction_ratio,
        ).gt(rand_fx(rng)) {
            unit_direction.reflect(record.normal)
        } else {
            unit_direction.refract(record.normal, refraction_ratio)
        };

        *scattered = Ray { origin: record.point, direction };
        true
    }
}

impl Material {
    /// Scattering for whichever material the surface carries: the incoming
    /// ray and hit record go in, and the per-variant contract above comes
    /// out.
    pub fn scatter(
        &self,
        ray_in: &Ray,
        record: &HitRecord,
        attenuation: &mut Color,
        scattered: &mut Ray,
        rng: &mut rand::rngs::StdRng,
    ) -> (r: bool)
        requires
            material_wf(*self),
            len_sq_spec(ray_in.direction) >= 1,
        ensures
            final(scattered).origin == record.point,
            scatter_outcome(
                *self,
                *ray_in,
                *record,
                r,
                *final(attenuation),
                final(scattered).direction,
            ),
            self matches Material::Lambertian(l) ==> r && (!near_zero_spec(record.normal)
                ==> !near_zero_spec(final(scattered).direction)),
    {
        match self {
            Material::Lambertian(l) => l.scatter(ray_in, record, attenuation, scattered, rng),
            Material::Metal(m) => m.scatter(ray_in, record, attenuation, scattered, rng),
            Material::Dielectric(d) => d.scatter(ray_in, record, attenuation, scattered, rng),
        }
    }
}

} // verus!

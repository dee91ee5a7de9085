//! Intersectable geometry: hit records, the sphere primitive, and the scene
//! aggregate that keeps the closest hit of a linear scan.

use crate::fixed::fx_add;
use crate::fixed::fx_div;
use crate::fixed::fx_mul;
use crate::fixed::fx_neg;
use crate::fixed::fx_sqrt;
use crate::fixed::fx_sub;
use crate::fixed::lemma_isqrt_exact;
use crate::fixed::lemma_tdiv_exact;
use crate::fixed::tdiv;
use crate::fixed::Fx;
use crate::fixed::SCALE;
use crate::materials::Lambertian;
use crate::materials::Material;
use crate::ray::at_spec;
use crate::ray::Ray;
use crate::vec3::dot_spec;
use crate::vec3::len_sq_spec;
use crate::vec3::v3;
use crate::vec3::vec_div_s;
use crate::vec3::vec_neg;
use crate::vec3::vec_sub;
use crate::vec3::Point3;
use crate::vec3::Vec3;
use vstd::arithmetic::div_mod::lemma_div_multiples_vanish;
use vstd::arithmetic::div_mod::lemma_fundamental_div_mod;
use vstd::prelude::*;

verus! {

/// The result of a successful intersection test: where the ray struck,
/// which side it struck from, and what material sits there. The stored
/// normal always faces against the incoming ray; `front_face` records
/// whether that is the geometric outward side.
#[derive(Clone, Copy, PartialEq, Eq, Structural, Debug)]
pub struct HitRecord {
    pub point: Point3,
    pub normal: Vec3,
    pub t: Fx,
    pub front_face: bool,
    pub material: Material,
}

impl Default for HitRecord {
    /// A blank record at the origin with a black diffuse material.
    fn default() -> (r: Self)
        ensures
            r.point == v3(0, 0, 0),
            r.normal == v3(0, 0, 0),
            r.t@ == 0,
            r.front_face == true,
            r.material == Material::Lambertian((Lambertian { albedo: v3(0, 0, 0) })),
    {
        HitRecord {
            point: Vec3::from_ints(0, 0, 0),
            normal: Vec3::from_ints(0, 0, 0),
            t: Fx::zero(),
            front_face: true,
            material: Material::Lambertian(Lambertian::new(0, 0, 0)),
        }
    }
}

impl HitRecord {
    /// Stores which side the ray struck and flips the outward normal, if
    /// needed, to face against the ray.
    pub fn set_face_normal(&mut self, ray: &Ray, outward_normal: Vec3)
        ensures
            final(self).front_face == (dot_spec(ray.direction, outward_normal) < 0),
            final(self).normal == if dot_spec(ray.direction, outward_normal) < 0 {
                outward_normal
            } else {
                vec_neg(outward_normal)
            },
            final(self).point == old(self).point,
            final(self).t == old(self).t,
            final(self).material == old(self).material,
    {
        self.front_face = ray.direction.dot(outward_normal).lt(Fx::zero());
        self.normal = if self.front_face {
            outward_normal
        } else {
            outward_normal.neg()
        };
    }
}

/// A sphere; a negative radius is a valid inward-facing shell, and the
/// normal formula handles its sign automatically.
#[derive(Clone, Copy, PartialEq, Eq, Structural, Debug)]
pub struct Sphere {
    pub center: Point3,
    pub radius: Fx,
    pub material: Material,
}

/// Squared length of the ray direction: the quadratic's leading term.
pub open spec fn sphere_a(r: Ray) -> int {
    len_sq_spec(r.direction)
}

/// Half the quadratic's linear term.
pub open spec fn sphere_half_b(s: Sphere, r: Ray) -> int {
    dot_spec(vec_sub(r.origin, s.center), r.direction)
}

/// The quadratic's constant term.
pub open spec fn sphere_c(s: Sphere, r: Ray) -> int {
    fx_sub(len_sq_spec(vec_sub(r.origin, s.center)), fx_mul(s.radius@, s.radius@))
}

/// The quadratic's discriminant (using half the linear term).
pub open spec fn sphere_disc(s: Sphere, r: Ray) -> int {
    fx_sub(fx_mul(sphere_half_b(s, r), sphere_half_b(s, r)), fx_mul(sphere_a(r), sphere_c(s, r)))
}

/// The intersection parameter a sphere reports for a ray within
/// `[t_min, t_max]`: a negative discriminant (or degenerate direction) is a
/// miss; otherwise the smaller root wins if it lies in range, then the
/// larger one; out-of-range roots are a miss.
pub open spec fn sphere_hit_t(s: Sphere, r: Ray, t_min: int, t_max: int) -> Option<int> {
    if sphere_disc(s, r) < 0 || sphere_a(r) == 0 {
        None
    } else {
        let sqrtd = fx_sqrt(sphere_disc(s, r));
        let root1 = crate::fixed::fx_div(fx_sub(fx_neg(sphere_half_b(s, r)), sqrtd), sphere_a(r));
        if t_min <= root1 && root1 <= t_max {
            Some(root1)
        } else {
            let root2 = crate::fixed::fx_div(
                fx_add(fx_neg(sphere_half_b(s, r)), sqrtd),
                sphere_a(r),
            );
            if t_min <= root2 && root2 <= t_max {
                Some(root2)
            } else {
                None
            }
        }
    }
}

/// The geometric outward normal at parameter `t`: the offset from the
/// center over the radius (whose sign makes hollow shells face inward); a
/// zero-radius sphere keeps the unscaled offset so that nothing divides by
/// zero.
pub open spec fn sphere_outward_normal(s: Sphere, r: Ray, t: int) -> Vec3 {
    let p = at_spec(r, t);
    if s.radius@ != 0 {
        vec_div_s(vec_sub(p, s.center), s.radius@)
    } else {
        vec_sub(p, s.center)
    }
}

/// The full record a sphere fills in for a hit at parameter `t`.
pub open spec fn sphere_hit_record(s: Sphere, r: Ray, t: int) -> HitRecord {
    let outward = sphere_outward_normal(s, r, t);
    let ff = dot_spec(r.direction, outward) < 0;
    HitRecord {
        point: at_spec(r, t),
        normal: if ff {
            outward
        } else {
            vec_neg(outward)
        },
        t: Fx { raw: t as i64 },
        front_face: ff,
        material: s.material,
    }
}

impl Sphere {
    /// The sphere with the given center and radius, carrying a black
    /// diffuse material until one is assigned.
    pub fn new(center: Point3, radius: Fx) -> (s: Sphere)
        ensures
            s.center == center,
            s.radius == radius,
            s.material == Material::Lambertian((Lambertian { albedo: v3(0, 0, 0) })),
    {
        Sphere { center, radius, material: Material::Lambertian(Lambertian::new(0, 0, 0)) }
    }

    /// Intersects the ray against this sphere within `[t_min, t_max]`,
    /// filling `record` exactly when there is a hit and leaving it alone
    /// otherwise.
    pub fn hit(&self, ray: &Ray, t_min: Fx, t_max: Fx, record: &mut HitRecord) -> (b: bool)
        ensures
            match sphere_hit_t(*self, *ray, t_min@, t_max@) {
                Some(t) => b && *final(record) == sphere_hit_record(*self, *ray, t),
                None => !b && *final(record) == *old(record),
            },
    {
        let oc = ray.origin.sub(self.center);
        let a = ray.direction.length_squared();
        let half_b = oc.dot(ray.direction);
        let c = oc.length_squared().sub(self.radius.mul(self.radius));

        let discriminant = half_b.mul(half_b).sub(a.mul(c));
        if discriminant.lt(Fx::zero()) || a.raw == 0 {
            return false;
        }
        let sqrtd = discriminant.sqrt();
        let mut root = half_b.neg().sub(sqrtd).div(a);
        if root.lt(t_min) || t_max.lt(root) {
            root = half_b.neg().add(sqrtd).div(a);
            if root.lt(t_min) || t_max.lt(root) {
                return false;
            }
        }
        record.t = root;
        record.point = ray.at(record.t);
        let outward = if self.radius.raw != 0 {
            record.point.sub(self.center).div(self.radius)
        } else {
            record.point.sub(self.center)
        };
        record.set_face_normal(ray, outward);
        record.material = self.material;
        true
    }
}

/// What the scene scan reports for a suffix of the object list: the first
/// object's hit shrinks the upper bound for the rest, and a later hit
/// within the shrunk bound overrides an earlier one.
pub open spec fn scan_hit(objs: Seq<Sphere>, r: Ray, t_min: int, t_max: int) -> Option<
    (Sphere, int),
>
    decreases objs.len(),
{
    if objs.len() == 0 {
        None
    } else {
        match sphere_hit_t(objs[0], r, t_min, t_max) {
            Some(t) => match scan_hit(objs.skip(1), r, t_min, t) {
                Some(h) => Some(h),
                None => Some((objs[0], t)),
            },
            None => scan_hit(objs.skip(1), r, t_min, t_max),
        }
    }
}

/// The scan never reports a hit outside `[t_min, t_max]`: shrinking the
/// upper bound object by object only narrows the interval.
pub proof fn lemma_scan_hit_in_range(objs: Seq<Sphere>, r: Ray, t_min: int, t_max: int)
    ensures
        match scan_hit(objs, r, t_min, t_max) {
            Some(h) => t_min <= h.1 <= t_max,
            None => true,
        },
    decreases objs.len(),
{
    if objs.len() == 0 {
    } else {
        let rest = objs.skip(1);
        match sphere_hit_t(objs[0], r, t_min, t_max) {
            Some(t) => {
                lemma_scan_hit_in_range(rest, r, t_min, t);
            },
            None => {
                lemma_scan_hit_in_range(rest, r, t_min, t_max);
            },
        }
    }
}

/// A reported scan winner is an element of the object list.
pub proof fn lemma_scan_hit_member(objs: Seq<Sphere>, r: Ray, t_min: int, t_max: int)
    ensures
        match scan_hit(objs, r, t_min, t_max) {
            Some(h) => exists|i: int| 0 <= i < objs.len() && objs[i] == h.0,
            None => true,
        },
    decreases objs.len(),
{
    if objs.len() == 0 {
    } else {
        let rest = objs.skip(1);
        match sphere_hit_t(objs[0], r, t_min, t_max) {
            Some(t) => {
                lemma_scan_hit_member(rest, r, t_min, t);
                match scan_hit(rest, r, t_min, t) {
                    Some(h) => {
                        let j = choose|j: int| 0 <= j < rest.len() && rest[j] == h.0;
                        assert(objs[j + 1] == h.0);
                    },
                    None => {
                        assert(objs[0] == objs[0]);
                    },
                }
            },
            None => {
                lemma_scan_hit_member(rest, r, t_min, t_max);
                match scan_hit(rest, r, t_min, t_max) {
                    Some(h) => {
                        let j = choose|j: int| 0 <= j < rest.len() && rest[j] == h.0;
                        assert(objs[j + 1] == h.0);
                    },
                    None => {},
                }
            },
        }
    }
}

/// A ray fired from the origin straight at a sphere's center reports the
/// distance to the near surface, `d - r`, as its nearest root, strikes the
/// front face, and gets a unit normal back along the axis of fire. Stated
/// for center distance `d` and radius `r` on the coarse grid (multiples of
/// 256 raw units, up to 65536 whole units), where every step of the
/// fixed-point computation is exact.
pub proof fn lemma_head_on_hit(d: int, r: int, m: Material)
    requires
        0 < r < d,
        r % 256 == 0,
        d % 256 == 0,
        d <= 0x100000000,
    ensures
        ({
            let s = Sphere { center: v3(0, 0, -d), radius: Fx { raw: r as i64 }, material: m };
            let ray = Ray { origin: v3(0, 0, 0), direction: v3(0, 0, -(SCALE as int)) };
            &&& sphere_hit_t(s, ray, 0, i64::MAX as int) == Some(d - r)
            &&& sphere_hit_record(s, ray, d - r).front_face
            &&& sphere_hit_record(s, ray, d - r).normal == v3(0, 0, SCALE as int)
            &&& len_sq_spec(sphere_hit_record(s, ray, d - r).normal) == SCALE as int
            &&& sphere_hit_record(s, ray, d - r).t@ == d - r
        }),
{
    let sc = SCALE as int;
    let s = Sphere { center: v3(0, 0, -d), radius: Fx { raw: r as i64 }, material: m };
    let ray = Ray { origin: v3(0, 0, 0), direction: v3(0, 0, -sc) };
    let k = d / 256;
    let q = r / 256;
    lemma_fundamental_div_mod(d, 256);
    lemma_fundamental_div_mod(r, 256);
    assert(d == 256 * k);
    assert(r == 256 * q);
    assert(0 < q < k);
    lemma_tdiv_exact(sc, sc);
    lemma_tdiv_exact(-d, sc);
    lemma_tdiv_exact(d - r, sc);
    lemma_tdiv_exact(0, sc);
    assert(fx_mul(0, 0) == 0);
    assert(fx_mul(0, -sc) == 0);
    assert(fx_mul(-sc, -sc) == sc);
    assert(sphere_a(ray) == sc);
    assert(vec_sub(ray.origin, s.center) == v3(0, 0, d));
    assert(fx_mul(d, -sc) == -d);
    assert(sphere_half_b(s, ray) == -d);
    assert(d * d == 65536 * (k * k)) by (nonlinear_arith)
        requires
            d == 256 * k,
    ;
    assert(r * r == 65536 * (q * q)) by (nonlinear_arith)
        requires
            r == 256 * q,
    ;
    assert(k * k >= 0 && q * q >= 0) by (nonlinear_arith);
    lemma_div_multiples_vanish(k * k, 65536);
    lemma_div_multiples_vanish(q * q, 65536);
    assert(tdiv(d * d, sc) == k * k);
    assert(tdiv(r * r, sc) == q * q);
    assert(k <= 0x1000000);
    assert(k * k <= 0x1000000000000) by (nonlinear_arith)
        requires
            0 <= k <= 0x1000000,
    ;
    assert(q * q <= k * k) by (nonlinear_arith)
        requires
            0 <= q < k,
    ;
    assert(fx_mul(d, d) == k * k);
    assert(fx_mul(r, r) == q * q);
    assert(len_sq_spec(v3(0, 0, d)) == k * k);
    assert(sphere_c(s, ray) == k * k - q * q);
    assert((-d) * (-d) == d * d) by (nonlinear_arith);
    assert(fx_mul(-d, -d) == k * k);
    lemma_tdiv_exact(k * k - q * q, sc);
    assert((k * k - q * q) * sc == sc * (k * k - q * q)) by (nonlinear_arith);
    assert(fx_mul(sc, k * k - q * q) == k * k - q * q);
    assert(sphere_disc(s, ray) == q * q);
    lemma_isqrt_exact(r as nat);
    assert((q * q) * sc == r * r) by (nonlinear_arith)
        requires
            r == 256 * q,
            sc == 65536,
    ;
    assert(fx_sqrt(q * q) == r);
    assert(fx_neg(-d) == d);
    assert(fx_sub(d, r) == d - r);
    assert(fx_div(d - r, sc) == d - r);
    assert(sphere_hit_t(s, ray, 0, i64::MAX as int) == Some(d - r));
    assert((-sc) * (d - r) == (-(d - r)) * sc) by (nonlinear_arith);
    lemma_tdiv_exact(-(d - r), sc);
    assert(fx_mul(-sc, d - r) == -(d - r));
    assert(at_spec(ray, d - r) == v3(0, 0, -(d - r)));
    assert(fx_sub(-(d - r), -d) == r);
    assert(vec_sub(v3(0, 0, -(d - r)), s.center) == v3(0, 0, r));
    lemma_div_multiples_vanish(sc, r);
    assert(r * sc >= 0) by (nonlinear_arith)
        requires
            r > 0,
            sc == 65536,
    ;
    assert(tdiv(r * sc, r) == sc);
    assert(fx_div(r, r) == sc);
    assert(fx_div(0, r) == 0);
    assert(sphere_outward_normal(s, ray, d - r) == v3(0, 0, sc));
    assert(fx_mul(-sc, sc) == -sc);
    assert(dot_spec(ray.direction, v3(0, 0, sc)) == -sc);
}

/// Degrees to radians, through the fixed-point approximation of pi.
pub fn degrees_to_radians(degrees: Fx) -> (r: Fx)
    ensures
        r@ == crate::fixed::fx_div(fx_mul(degrees@, 205887), 180 * crate::fixed::SCALE as int),
{
    degrees.mul(Fx::from_raw(205887)).div(Fx::from_int(180))
}

/// Every material in the scene is meaningful to scatter from.
pub open spec fn scene_wf(objs: Seq<Sphere>) -> bool {
    forall|i: int| 0 <= i < objs.len() ==> crate::materials::material_wf(#[trigger] objs[i].material)
}

/// Every material in the scene attenuates within the display range: no
/// albedo channel exceeds one, so no bounce amplifies radiance.
pub open spec fn scene_bounded(objs: Seq<Sphere>) -> bool {
    forall|i: int|
        0 <= i < objs.len() ==> crate::materials::material_bounded(#[trigger] objs[i].material)
}

/// Appending a sphere with a bounded material keeps the scene bounded.
pub proof fn lemma_scene_bounded_push(objs: Seq<Sphere>, s: Sphere)
    requires
        scene_bounded(objs),
        crate::materials::material_bounded(s.material),
    ensures
        scene_bounded(objs.push(s)),
{
    assert forall|i: int|
        0 <= i < objs.push(s).len() implies crate::materials::material_bounded(
        #[trigger] objs.push(s)[i].material,
    ) by {
        if i < objs.len() {
            assert(objs.push(s)[i] == objs[i]);
        } else {
            assert(objs.push(s)[i] == s);
        }
    }
}

/// Appending a well-formed material's sphere keeps the scene well-formed.
pub proof fn lemma_scene_wf_push(objs: Seq<Sphere>, s: Sphere)
    requires
        scene_wf(objs),
        crate::materials::material_wf(s.material),
    ensures
        scene_wf(objs.push(s)),
{
    assert forall|i: int|
        0 <= i < objs.push(s).len() implies crate::materials::material_wf(
        #[trigger] objs.push(s)[i].material,
    ) by {
        if i < objs.len() {
            assert(objs.push(s)[i] == objs[i]);
        } else {
            assert(objs.push(s)[i] == s);
        }
    }
}

/// The scene: an ordered list of spheres scanned linearly.
#[derive(Clone)]
pub struct HittableList {
    objects: Vec<Sphere>,
}

impl View for HittableList {
    type V = Seq<Sphere>;

    closed spec fn view(&self) -> Seq<Sphere> {
        self.objects@
    }
}

impl Default for HittableList {
    /// The empty scene.
    fn default() -> (r: Self)
        ensures
            r@ == Seq::<Sphere>::empty(),
    {
        HittableList { objects: Vec::new() }
    }
}

impl HittableList {
    /// Appends an object; insertion order is kept, and a later object wins
    /// an exact distance tie in the scan.
    pub fn add(&mut self, object: Sphere)
        ensures
            final(self)@ == old(self)@.push(object),
    {
        self.objects.push(object);
    }

    /// How many objects the scene holds.
    pub fn len(&self) -> (n: usize)
        ensures
            n == self@.len(),
    {
        self.objects.len()
    }

    /// Removes every object.
    pub fn clear(&mut self)
        ensures
            final(self)@ == Seq::<Sphere>::empty(),
    {
        self.objects.clear();
    }

    /// Intersects the ray against every object, keeping the closest hit by
    /// shrinking the upper bound to the best parameter found so far; the
    /// result is exactly what the scan of the whole list reports.
    pub fn hit(&self, ray: &Ray, t_min: Fx, t_max: Fx, record: &mut HitRecord) -> (b: bool)
        ensures
            match scan_hit(self@, *ray, t_min@, t_max@) {
                Some(h) => b && *final(record) == sphere_hit_record(h.0, *ray, h.1),
                None => !b && *final(record) == *old(record),
            },
    {
        let mut temp_rec = HitRecord::default();
        let mut hit_anything = false;
        let mut closest_so_far = t_max;
        let ghost mut best: (Sphere, int) = arbitrary();
        let n = self.objects.len();
        let mut i: usize = 0;
        proof {
            assert(self@.skip(0) =~= self@);
        }
        while i < n
            invariant
                i <= n,
                n == self@.len(),
                !hit_anything ==> *record == *old(record) && closest_so_far == t_max,
                hit_anything ==> *record == sphere_hit_record(best.0, *ray, best.1)
                    && closest_so_far@ == best.1,
                scan_hit(self@, *ray, t_min@, t_max@) == (if hit_anything {
                    match scan_hit(self@.skip(i as int), *ray, t_min@, closest_so_far@) {
                        Some(h) => Some(h),
                        None => Some(best),
                    }
                } else {
                    scan_hit(self@.skip(i as int), *ray, t_min@, t_max@)
                }),
            decreases n - i,
        {
            proof {
                assert(self@.skip(i as int).skip(1) =~= self@.skip(i as int + 1));
                assert(self@.skip(i as int)[0] == self@[i as int]);
            }
            let object = self.objects[i];
            if object.hit(ray, t_min, closest_so_far, &mut temp_rec) {
                hit_anything = true;
                closest_so_far = temp_rec.t;
                *record = temp_rec;
                proof {
                    best = (object, temp_rec.t@);
                }
            }
            i = i + 1;
        }
        proof {
            assert(self@.skip(n as int) =~= Seq::<Sphere>::empty());
        }
        hit_anything
    }
}

} // verus!

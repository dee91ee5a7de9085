//! The camera: immutable viewport geometry computed once, mapping
//! normalized image-plane coordinates to world-space rays.

use crate::fixed::fx_mul;
use crate::fixed::Fx;
use crate::fixed::SCALE;
use crate::ray::Ray;
use crate::vec3::cross_spec;
use crate::vec3::len_sq_spec;
use crate::vec3::lemma_len_pos;
use crate::vec3::unit_spec;
use crate::vec3::v3;
use crate::vec3::vec_add;
use crate::vec3::vec_div_s;
use crate::vec3::vec_scale;
use crate::vec3::vec_sub;
use crate::vec3::Point3;
use crate::vec3::Vec3;
use vstd::prelude::*;

verus! {

#[derive(Clone, Copy, PartialEq, Eq, Structural, Debug)]
pub struct Camera {
    pub origin: Point3,
    pub lower_left_corner: Point3,
    pub horizontal: Vec3,
    pub vertical: Vec3,
}

/// The default camera: a 16:9 viewport of height two, one focal unit in
/// front of an origin at zero.
pub open spec fn camera_default_spec() -> Camera {
    let aspect = crate::fixed::fx_div(16 * SCALE as int, 9 * SCALE as int);
    let viewport_height = 2 * SCALE as int;
    let viewport_width = fx_mul(aspect, viewport_height);
    let origin = v3(0, 0, 0);
    let horizontal = v3(viewport_width, 0, 0);
    let vertical = v3(0, viewport_height, 0);
    let lower_left_corner = vec_sub(
        vec_sub(vec_sub(origin, vec_div_s(horizontal, 2 * SCALE as int)), vec_div_s(vertical, 2 * SCALE as int)),
        v3(0, 0, SCALE as int),
    );
    Camera { origin, lower_left_corner, horizontal, vertical }
}

/// The camera looking from `from` toward `at` with up vector `vup`,
/// half-viewport-height `half_h` (the tangent of half the vertical field of
/// view), aspect ratio `aspect` and focus distance `focus`; a degenerate
/// view direction or up vector falls back to the default camera.
pub open spec fn camera_look_spec(
    from: Point3,
    at: Point3,
    vup: Vec3,
    half_h: int,
    aspect: int,
    focus: int,
) -> Camera {
    let dir = vec_sub(from, at);
    if len_sq_spec(dir) >= 1 {
        let w = unit_spec(dir);
        let cu = cross_spec(vup, w);
        if len_sq_spec(cu) >= 1 {
            let u = unit_spec(cu);
            let v = cross_spec(w, u);
            let viewport_height = fx_mul(2 * SCALE as int, half_h);
            let viewport_width = fx_mul(aspect, viewport_height);
            let horizontal = vec_scale(vec_scale(u, viewport_width), focus);
            let vertical = vec_scale(vec_scale(v, viewport_height), focus);
            let lower_left_corner = vec_sub(
                vec_sub(
                    vec_sub(from, vec_div_s(horizontal, 2 * SCALE as int)),
                    vec_div_s(vertical, 2 * SCALE as int),
                ),
                vec_scale(w, focus),
            );
            Camera { origin: from, lower_left_corner, horizontal, vertical }
        } else {
            camera_default_spec()
        }
    } else {
        camera_default_spec()
    }
}

/// The ray the camera casts through normalized image-plane coordinates
/// `(s, t)`.
pub open spec fn get_ray_spec(c: Camera, s: int, t: int) -> Ray {
    Ray {
        origin: c.origin,
        direction: vec_sub(
            vec_add(
                vec_add(c.lower_left_corner, vec_scale(c.horizontal, s)),
                vec_scale(c.vertical, t),
            ),
            c.origin,
        ),
    }
}

impl Camera {
    /// The default camera.
    pub fn new() -> (c: Camera)
        ensures
            c == camera_default_spec(),
    {
        let aspect_ratio = Fx::from_int(16).div(Fx::from_int(9));
        let viewport_height = Fx::from_int(2);
        let viewport_width = aspect_ratio.mul(viewport_height);
        let focal_length = Fx::one();

        let origin = Vec3::from_ints(0, 0, 0);
        let horizontal = Vec3::new(viewport_width, Fx::zero(), Fx::zero());
        let vertical = Vec3::new(Fx::zero(), viewport_height, Fx::zero());
        let two = Fx::from_int(2);
        let lower_left_corner = origin.sub(horizontal.div(two)).sub(vertical.div(two)).sub(
            Vec3::new(Fx::zero(), Fx::zero(), focal_length),
        );

        Camera { origin, lower_left_corner, horizontal, vertical }
    }

    /// The camera looking from `look_from` toward `look_at`; `half_height`
    /// is the tangent of half the vertical field of view, computed by the
    /// caller. Falls back to the default camera when the view direction or
    /// the up vector degenerates.
    pub fn look_from_at(
        look_from: Point3,
        look_at: Point3,
        vup: Vec3,
        half_height: Fx,
        aspect: Fx,
        focus_dist: Fx,
    ) -> (c: Camera)
        ensures
            c == camera_look_spec(look_from, look_at, vup, half_height@, aspect@, focus_dist@),
    {
        let dir = look_from.sub(look_at);
        if dir.length_squared().gt(Fx::zero()) {
            proof {
                lemma_len_pos(dir);
            }
            let w = dir.unit();
            let cu = vup.cross(w);
            if cu.length_squared().gt(Fx::zero()) {
                proof {
                    lemma_len_pos(cu);
                }
                let u = cu.unit();
                let v = w.cross(u);
                let two = Fx::from_int(2);
                let viewport_height = two.mul(half_height);
                let viewport_width = aspect.mul(viewport_height);
                let horizontal = u.scale(viewport_width).scale(focus_dist);
                let vertical = v.scale(viewport_height).scale(focus_dist);
                let lower_left_corner = look_from.sub(horizontal.div(two)).sub(
                    vertical.div(two),
                ).sub(w.scale(focus_dist));
                Camera { origin: look_from, lower_left_corner, horizontal, vertical }
            } else {
                Camera::new()
            }
        } else {
            Camera::new()
        }
    }

    /// The ray through normalized image-plane coordinates `(s, t)`.
    pub fn get_ray(&self, s: Fx, t: Fx) -> (r: Ray)
        ensures
            r == get_ray_spec(*self, s@, t@),
    {
        Ray {
            origin: self.origin,
            direction: self.lower_left_corner.add(self.horizontal.scale(s)).add(
                self.vertical.scale(t),
            ).sub(self.origin),
        }
    }
}

} // verus!

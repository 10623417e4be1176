//! Cameras: mapping normalized screen coordinates to primary rays.

use vstd::prelude::*;

use crate::fixed::fadd;
use crate::fixed::fdiv;
use crate::fixed::fmul;
use crate::fixed::Fixed;
use crate::rt::Ray;
use crate::sample::disk_sample;
use crate::vec3::vadd;
use crate::vec3::vcross;
use crate::vec3::vdivs;
use crate::vec3::vlen;
use crate::vec3::vnorm;
use crate::vec3::vscale;
use crate::vec3::vsub;
use crate::vec3::vzero;
use crate::vec3::Vec3;

verus! {

/// The virtual screen rectangle: its lower-left corner and its two
/// edge vectors.
#[derive(Clone, Copy, PartialEq, Eq, Structural, Debug)]
pub struct Screen {
    pub origin: Vec3,
    pub horizontal: Vec3,
    pub vertical: Vec3,
}

/// An orthonormal view basis.
#[derive(Clone, Copy, PartialEq, Eq, Structural, Debug)]
pub struct Basis {
    pub u: Vec3,
    pub v: Vec3,
    pub w: Vec3,
}

/// An immutable camera: eye position, lens radius for depth of field,
/// an orthonormal basis, and the screen rectangle at focus distance.
#[derive(Clone, Copy, PartialEq, Eq, Structural, Debug)]
pub struct FixedCamera {
    pub eye: Vec3,
    pub lens_radius: Fixed,
    pub uvw: Basis,
    pub screen: Screen,
}

/// The camera derived from eye, look-at target, up vector, aspect
/// ratio, the tangent of half the vertical field of view, aperture and
/// focus distance.
pub open spec fn camera_v(
    eye: Vec3,
    look_at: Vec3,
    up: Vec3,
    aspect_ratio: int,
    vfov_half_tan: int,
    aperture: int,
    focus_dist: int,
) -> FixedCamera {
    let viewport_height = fadd(vfov_half_tan, vfov_half_tan);
    let viewport_width = fmul(viewport_height, aspect_ratio);
    let w = vnorm(vsub(eye, look_at));
    let u = vnorm(vcross(up, w));
    let v = vcross(w, u);
    let horizontal = vscale(u, fmul(focus_dist, viewport_width));
    let vertical = vscale(v, fmul(focus_dist, viewport_height));
    let origin = vsub(
        vsub(vsub(eye, vdivs(horizontal, 131072)), vdivs(vertical, 131072)),
        vscale(w, focus_dist),
    );
    FixedCamera {
        eye,
        lens_radius: crate::vec3::fx(fdiv(aperture, 131072)),
        uvw: Basis { u, v, w },
        screen: Screen { origin, horizontal, vertical },
    }
}

/// The lens offset produced by a disk sample.
pub open spec fn offset_v(cam: FixedCamera, d: Vec3) -> Vec3 {
    let rd = vscale(d, cam.lens_radius@);
    vadd(vscale(cam.uvw.u, rd.x@), vscale(cam.uvw.v, rd.y@))
}

/// The ray from the (offset) eye through the screen point at
/// normalized coordinates `(dx, dy)`.
pub open spec fn screen_ray_v(cam: FixedCamera, dx: int, dy: int, offset: Vec3) -> Ray {
    Ray {
        origin: vadd(cam.eye, offset),
        direction: vsub(
            vsub(
                vadd(
                    vadd(cam.screen.origin, vscale(cam.screen.horizontal, dx)),
                    vscale(cam.screen.vertical, dy),
                ),
                cam.eye,
            ),
            offset,
        ),
    }
}

/// The capability of turning normalized screen coordinates into a
/// primary ray. `ray_ok` is the implementor's exact account of every
/// ray it can produce.
pub trait Camera {
    spec fn ray_ok(&self, dx: Fixed, dy: Fixed, r: Ray) -> bool;

    fn get_screen_ray(&self, dx: Fixed, dy: Fixed) -> (r: Ray)
        ensures
            self.ray_ok(dx, dy, r),
    ;
}

impl FixedCamera {
    /// Build a camera. The eye must not sit on the look-at target, and
    /// the up vector must not be parallel to the view direction, or no
    /// basis can be oriented; both are caller obligations.
    pub fn new(
        eye: Vec3,
        look_at: Vec3,
        up: Vec3,
        aspect_ratio: Fixed,
        vfov_half_tan: Fixed,
        aperture: Fixed,
        focus_dist: Fixed,
    ) -> (r: FixedCamera)
        requires
            vlen(vsub(eye, look_at)) >= 1,
            vlen(vcross(up, vnorm(vsub(eye, look_at)))) >= 1,
        ensures
            r == camera_v(eye, look_at, up, aspect_ratio@, vfov_half_tan@, aperture@, focus_dist@),
    {
        let viewport_height = vfov_half_tan.add(vfov_half_tan);
        let viewport_width = viewport_height.mul(aspect_ratio);
        let w = eye.sub(look_at).normalize();
        let u = up.cross(w).normalize();
        let v = w.cross(u);
        let horizontal = u.scale(focus_dist.mul(viewport_width));
        let vertical = v.scale(focus_dist.mul(viewport_height));
        let two = Fixed { raw: 131072 };
        let origin = eye.sub(horizontal.div(two)).sub(vertical.div(two)).sub(
            w.scale(focus_dist),
        );
        FixedCamera {
            eye,
            lens_radius: aperture.div(two),
            uvw: Basis { u, v, w },
            screen: Screen { origin, horizontal, vertical },
        }
    }
}

impl Camera for FixedCamera {
    /// Every produced ray comes from some lens-disk sample; with a
    /// closed aperture the ray is the exact deterministic screen ray.
    open spec fn ray_ok(&self, dx: Fixed, dy: Fixed, r: Ray) -> bool {
        &&& exists|d: Vec3|
            disk_sample(d) && r == screen_ray_v(*self, dx@, dy@, offset_v(*self, d))
        &&& (self.lens_radius@ == 0 ==> r == screen_ray_v(*self, dx@, dy@, vzero()))
    }

    fn get_screen_ray(&self, dx: Fixed, dy: Fixed) -> (r: Ray) {
        let d = Vec3::random_in_xy_unit_disk();
        let rd = d.scale(self.lens_radius);
        let u = self.uvw.u;
        let v = self.uvw.v;
        let offset = u.scale(rd.x).add(v.scale(rd.y));
        let r = Ray {
            origin: self.eye.add(offset),
            direction: self.screen.origin.add(self.screen.horizontal.scale(dx)).add(
                self.screen.vertical.scale(dy),
            ).sub(self.eye).sub(offset),
        };
        proof {
            assert(disk_sample(d) && r == screen_ray_v(*self, dx@, dy@, offset_v(*self, d)));
            if self.lens_radius@ == 0 {
                crate::fixed::lemma_fmul_zero(d.x@);
                crate::fixed::lemma_fmul_zero(d.y@);
                crate::fixed::lemma_fmul_zero(d.z@);
                crate::fixed::lemma_fmul_zero(u.x@);
                crate::fixed::lemma_fmul_zero(u.y@);
                crate::fixed::lemma_fmul_zero(u.z@);
                crate::fixed::lemma_fmul_zero(v.x@);
                crate::fixed::lemma_fmul_zero(v.y@);
                crate::fixed::lemma_fmul_zero(v.z@);
                assert(offset_v(*self, d) == vzero());
                assert(r == screen_ray_v(*self, dx@, dy@, vzero()));
            }
        }
        r
    }
}

} // verus!

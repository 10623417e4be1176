//! Materials: per-contact probabilistic scattering.
//!
//! A material's `scatter` is a single-step transition: given an
//! incoming ray and a surface contact it either produces an outgoing
//! ray with an attenuation color, or nothing (the path is absorbed).
//! Where a random draw takes part, the contract states what holds of
//! every possible outcome.

use vstd::prelude::*;

use crate::fixed::fadd;
use crate::fixed::fdiv;
use crate::fixed::fmul;
use crate::fixed::fsub;
use crate::fixed::lemma_fsqrt_pos;
use crate::fixed::Fixed;
use crate::rt::white_v;
use crate::rt::Color;
use crate::rt::Ray;
use crate::sample::random_uniform;
use crate::sample::hemisphere_sample;
use crate::sample::sphere_sample;
use crate::shape::RayContact;
use crate::vec3::vadd;
use crate::vec3::vdot;
use crate::vec3::vlen_sq;
use crate::vec3::vneg;
use crate::vec3::vnorm;
use crate::vec3::vreflect;
use crate::vec3::vrefract;
use crate::vec3::vscale;
use crate::vec3::vsub;
use crate::vec3::Vec3;

verus! {

/// A scattered ray and the color by which the radiance it gathers is
/// attenuated.
#[derive(Clone, Copy, PartialEq, Eq, Structural, Debug)]
pub struct RayScatter {
    pub ray: Ray,
    pub attenuation: Color,
}

/// The scattering capability. `scatter_req` is what the material asks
/// of the incoming ray (a normalizable direction, valid parameters);
/// `scatter_ok` is the implementor's exact account of every outcome
/// `scatter` can produce.
pub trait Material {
    spec fn scatter_req(&self, ray: Ray, contact: RayContact) -> bool;

    spec fn scatter_ok(&self, ray: Ray, contact: RayContact, r: Option<RayScatter>) -> bool;

    fn scatter(&self, ray: Ray, contact: &RayContact) -> (r: Option<RayScatter>)
        requires
            self.scatter_req(ray, *contact),
        ensures
            self.scatter_ok(ray, *contact, r),
    ;
}

/// Lambertian surface: always scatters into the hemisphere around the
/// contact normal and attenuates by its color.
#[derive(Clone, Copy, PartialEq, Eq, Structural, Debug)]
pub struct Diffuse {
    pub color: Color,
}

impl Material for Diffuse {
    open spec fn scatter_req(&self, ray: Ray, contact: RayContact) -> bool {
        true
    }

    /// Always scatters; the new ray starts exactly at the contact
    /// point, the attenuation is the material color, and the direction
    /// points from the contact toward a point sampled in the
    /// hemisphere around the normal.
    open spec fn scatter_ok(&self, ray: Ray, contact: RayContact, r: Option<RayScatter>) -> bool {
        match r {
            Some(s) => {
                &&& s.ray.origin == contact.point
                &&& s.attenuation == self.color
                &&& exists|h: Vec3|
                    hemisphere_sample(h, contact.normal) && s.ray.direction == vsub(
                        vadd(contact.point, h),
                        contact.point,
                    )
            },
            None => false,
        }
    }

    fn scatter(&self, ray: Ray, contact: &RayContact) -> (r: Option<RayScatter>) {
        let h = Vec3::random_in_hemisphere(contact.normal);
        let target = contact.point.add(h);
        let s = RayScatter {
            ray: Ray { origin: contact.point, direction: target.sub(contact.point) },
            attenuation: self.color,
        };
        proof {
            assert(hemisphere_sample(h, contact.normal) && s.ray.direction == vsub(
                vadd(contact.point, h),
                contact.point,
            ));
        }
        Some(s)
    }
}

impl From<Color> for Diffuse {
    fn from(color: Color) -> (r: Diffuse) {
        Diffuse { color }
    }
}

impl vstd::std_specs::convert::FromSpecImpl<Color> for Diffuse {
    open spec fn obeys_from_spec() -> bool {
        true
    }

    open spec fn from_spec(color: Color) -> Diffuse {
        Diffuse { color }
    }
}

/// Reflective surface: mirrors the normalized incoming direction about
/// the normal and perturbs it by `fuzz` times a point in the unit
/// sphere. A perturbed direction that points into the surface absorbs
/// the ray.
#[derive(Clone, Copy, PartialEq, Eq, Structural, Debug)]
pub struct Metal {
    pub color: Color,
    pub fuzz: Fixed,
}

impl Material for Metal {
    open spec fn scatter_req(&self, ray: Ray, contact: RayContact) -> bool {
        vlen_sq(ray.direction) >= 1
    }

    /// A scattered ray starts exactly at the contact point, carries the
    /// material color, and its direction leaves the surface; the ray is
    /// absorbed exactly when the fuzz-perturbed reflection fails to.
    open spec fn scatter_ok(&self, ray: Ray, contact: RayContact, r: Option<RayScatter>) -> bool {
        match r {
            Some(s) => {
                &&& s.ray.origin == contact.point
                &&& s.attenuation == self.color
                &&& vdot(s.ray.direction, contact.normal) > 0
                &&& exists|p: Vec3|
                    sphere_sample(p) && s.ray.direction == vadd(
                        vreflect(vnorm(ray.direction), contact.normal),
                        vscale(p, self.fuzz@),
                    )
            },
            None => exists|p: Vec3|
                sphere_sample(p) && vdot(
                    vadd(vreflect(vnorm(ray.direction), contact.normal), vscale(p, self.fuzz@)),
                    contact.normal,
                ) <= 0,
        }
    }

    fn scatter(&self, ray: Ray, contact: &RayContact) -> (r: Option<RayScatter>) {
        proof {
            lemma_fsqrt_pos(vlen_sq(ray.direction));
        }
        let reflected = ray.direction.normalize().reflect(contact.normal);
        let p = Vec3::random_unit_sphere();
        let direction = reflected.add(p.scale(self.fuzz));
        let d = direction.dot(contact.normal);
        if d.raw <= 0 {
            proof {
                assert(sphere_sample(p) && vdot(
                    vadd(vreflect(vnorm(ray.direction), contact.normal), vscale(p, self.fuzz@)),
                    contact.normal,
                ) <= 0);
            }
            None
        } else {
            let s = RayScatter {
                ray: Ray { origin: contact.point, direction },
                attenuation: self.color,
            };
            proof {
                assert(sphere_sample(p) && s.ray.direction == vadd(
                    vreflect(vnorm(ray.direction), contact.normal),
                    vscale(p, self.fuzz@),
                ));
            }
            Some(s)
        }
    }
}

/// The Schlick approximation of Fresnel reflectance.
pub open spec fn schlick_v(cos: int, ratio: int) -> int {
    let r0 = fdiv(fsub(65536, ratio), fadd(65536, ratio));
    let r0sq = fmul(r0, r0);
    let b = fsub(65536, cos);
    let b2 = fmul(b, b);
    let b4 = fmul(b2, b2);
    fadd(r0sq, fmul(fsub(65536, r0sq), fmul(b4, b)))
}

/// Schlick's closed-form reflectance approximation.
fn reflectance(cosine: Fixed, ratio: Fixed) -> (r: Fixed)
    requires
        ratio@ >= 0,
    ensures
        r@ == schlick_v(cosine@, ratio@),
{
    let one = Fixed { raw: 65536 };
    let r0 = one.sub(ratio).div(one.add(ratio));
    let r0sq = r0.mul(r0);
    let b = one.sub(cosine);
    let b2 = b.mul(b);
    let b4 = b2.mul(b2);
    r0sq.add(one.sub(r0sq).mul(b4.mul(b)))
}

/// Transparent surface of the given refraction index: never absorbs.
/// The ray reflects under total internal reflection or a Schlick draw,
/// and refracts by Snell's law otherwise.
#[derive(Clone, Copy, PartialEq, Eq, Structural, Debug)]
pub struct Dielectric {
    pub refraction_index: Fixed,
}

impl Dielectric {
    /// The index ratio at a contact: inverted when entering from
    /// outside.
    pub open spec fn ratio_v(self, contact: RayContact) -> int {
        if contact.front_face {
            fdiv(65536, self.refraction_index@)
        } else {
            self.refraction_index@
        }
    }

    /// The cosine between the reversed (normalized) incoming direction
    /// and the normal, clamped at one, as the evaluation computes it.
    pub open spec fn cos_v(self, ray: Ray, contact: RayContact) -> int {
        let c0 = vdot(vneg(vnorm(ray.direction)), contact.normal);
        if c0 > 65536 {
            65536int
        } else {
            c0
        }
    }

    /// The derived sine at the contact.
    pub open spec fn sin_v(self, ray: Ray, contact: RayContact) -> int {
        let c = self.cos_v(ray, contact);
        crate::fixed::fsqrt(crate::fixed::clip(crate::fixed::iabs(fsub(65536, fmul(c, c)))))
    }

    /// Whether Snell's law admits no refracted ray at this contact:
    /// the ratio times the sine exceeds one.
    pub open spec fn total_internal_v(self, ray: Ray, contact: RayContact) -> bool {
        fmul(self.ratio_v(contact), self.sin_v(ray, contact)) > 65536
    }
}

impl Material for Dielectric {
    open spec fn scatter_req(&self, ray: Ray, contact: RayContact) -> bool {
        vlen_sq(ray.direction) >= 1 && self.refraction_index@ > 0
    }

    /// Always scatters: the new ray starts exactly at the contact
    /// point, the attenuation is exactly white (energy-conserving),
    /// and the direction is the reflection or the refraction of the
    /// normalized incoming direction.
    open spec fn scatter_ok(&self, ray: Ray, contact: RayContact, r: Option<RayScatter>) -> bool {
        match r {
            Some(s) => {
                &&& s.ray.origin == contact.point
                &&& s.attenuation == white_v()
                &&& (s.ray.direction == vreflect(vnorm(ray.direction), contact.normal)
                    || s.ray.direction == vrefract(
                    vnorm(ray.direction),
                    contact.normal,
                    self.ratio_v(contact),
                ))
                &&& (self.total_internal_v(ray, contact) ==> s.ray.direction == vreflect(
                    vnorm(ray.direction),
                    contact.normal,
                ))
            },
            None => false,
        }
    }

    fn scatter(&self, ray: Ray, contact: &RayContact) -> (r: Option<RayScatter>) {
        let one = Fixed { raw: 65536 };
        let ratio = if contact.front_face {
            one.div(self.refraction_index)
        } else {
            self.refraction_index
        };
        proof {
            lemma_fsqrt_pos(vlen_sq(ray.direction));
        }
        let dir = ray.direction.normalize();
        let cos0 = dir.neg().dot(contact.normal);
        let cos_theta = if cos0.raw > 65536 {
            one
        } else {
            cos0
        };
        let sin_theta = one.sub(cos_theta.mul(cos_theta)).abs().sqrt();
        let cannot_refract = ratio.mul(sin_theta).raw > 65536;
        let refracted = if cannot_refract || reflectance(cos_theta, ratio).raw
            > random_uniform().raw {
            dir.reflect(contact.normal)
        } else {
            dir.refract(contact.normal, ratio)
        };
        Some(
            RayScatter {
                ray: Ray { origin: contact.point, direction: refracted },
                attenuation: crate::rt::white(),
            },
        )
    }
}

/// The closed set of material kinds a shape can carry, dispatched by
/// pattern matching.
#[derive(Clone, Copy, PartialEq, Eq, Structural, Debug)]
pub enum SurfaceMaterial {
    Diffuse(Diffuse),
    Metal(Metal),
    Dielectric(Dielectric),
}

impl SurfaceMaterial {
    /// Parameter validity: a fuzz factor in [0, 1] and a positive
    /// refraction index.
    pub open spec fn wf(self) -> bool {
        match self {
            SurfaceMaterial::Diffuse(_) => true,
            SurfaceMaterial::Metal(m) => 0 <= m.fuzz@ <= 65536,
            SurfaceMaterial::Dielectric(d) => d.refraction_index@ > 0,
        }
    }
}

impl Material for SurfaceMaterial {
    open spec fn scatter_req(&self, ray: Ray, contact: RayContact) -> bool {
        self.wf() && vlen_sq(ray.direction) >= 1
    }

    open spec fn scatter_ok(&self, ray: Ray, contact: RayContact, r: Option<RayScatter>) -> bool {
        match self {
            SurfaceMaterial::Diffuse(m) => m.scatter_ok(ray, contact, r),
            SurfaceMaterial::Metal(m) => m.scatter_ok(ray, contact, r),
            SurfaceMaterial::Dielectric(m) => m.scatter_ok(ray, contact, r),
        }
    }

    fn scatter(&self, ray: Ray, contact: &RayContact) -> (r: Option<RayScatter>) {
        match self {
            SurfaceMaterial::Diffuse(m) => m.scatter(ray, contact),
            SurfaceMaterial::Metal(m) => m.scatter(ray, contact),
            SurfaceMaterial::Dielectric(m) => m.scatter(ray, contact),
        }
    }
}

} // verus!

//! Rays, colors, and the scene aggregate.

use vstd::prelude::*;

use crate::fixed::Fixed;
use crate::shape::Bounds;
use crate::shape::RayContact;
use crate::shape::Shape;
use crate::shape::Sphere;
use crate::vec3::vadd;
use crate::vec3::vnorm;
use crate::vec3::vscale;
use crate::vec3::Vec3;

verus! {

/// A vector read as a linear RGB color.
pub type Color = Vec3;

/// Pure white, the scalar 1 in every channel.
pub open spec fn white_v() -> Color {
    Vec3 { x: Fixed { raw: 65536 }, y: Fixed { raw: 65536 }, z: Fixed { raw: 65536 } }
}

/// Black: no radiance.
pub open spec fn black_v() -> Color {
    Vec3 { x: Fixed { raw: 0 }, y: Fixed { raw: 0 }, z: Fixed { raw: 0 } }
}

/// The sky's zenith color, (0.5, 0.7, 1.0) on the fixed-point grid.
pub open spec fn sky_v() -> Color {
    Vec3 { x: Fixed { raw: 32768 }, y: Fixed { raw: 45875 }, z: Fixed { raw: 65536 } }
}

/// Pure white.
pub fn white() -> (r: Color)
    ensures
        r == white_v(),
{
    Vec3 { x: Fixed { raw: 65536 }, y: Fixed { raw: 65536 }, z: Fixed { raw: 65536 } }
}

/// Black.
pub fn black() -> (r: Color)
    ensures
        r == black_v(),
{
    Vec3 { x: Fixed { raw: 0 }, y: Fixed { raw: 0 }, z: Fixed { raw: 0 } }
}

/// The sky's zenith color.
pub fn sky_blue() -> (r: Color)
    ensures
        r == sky_v(),
{
    Vec3 { x: Fixed { raw: 32768 }, y: Fixed { raw: 45875 }, z: Fixed { raw: 65536 } }
}

/// An origin and a direction (not required to be normalized).
#[derive(Clone, Copy, PartialEq, Eq, Structural, Debug)]
pub struct Ray {
    pub origin: Vec3,
    pub direction: Vec3,
}

/// The point reached after traveling `t` units of direction from the
/// origin.
pub open spec fn ray_at(ray: Ray, t: int) -> Vec3 {
    vadd(ray.origin, vscale(ray.direction, t))
}

impl Ray {
    /// Constructor.
    pub fn new(origin: Vec3, direction: Vec3) -> (r: Ray)
        ensures
            r == (Ray { origin, direction }),
    {
        Ray { origin, direction }
    }

    /// The position after the ray travels `t` units of `direction`
    /// from `origin`.
    pub fn at(&self, t: Fixed) -> (r: Vec3)
        ensures
            r == ray_at(*self, t@),
    {
        self.origin.add(self.direction.scale(t))
    }

    /// The same ray with its direction normalized.
    pub fn normalize(&self) -> (r: Ray)
        requires
            crate::vec3::vlen(self.direction) >= 1,
        ensures
            r.origin == self.origin,
            r.direction == vnorm(self.direction),
    {
        Ray { origin: self.origin, direction: self.direction.normalize() }
    }
}

/// Of a running best contact and a candidate, the nearer; the earlier
/// one wins a tie.
pub open spec fn nearer(best: Option<RayContact>, c: Option<RayContact>) -> Option<RayContact> {
    match (best, c) {
        (None, other) => other,
        (Some(b), None) => Some(b),
        (Some(b), Some(n)) => if n.t@ < b.t@ {
            Some(n)
        } else {
            Some(b)
        },
    }
}

/// The nearest among the first `n` of a sequence of per-shape results,
/// folded in order.
pub open spec fn nearest_of(hits: Seq<Option<RayContact>>, n: int) -> Option<RayContact>
    recommends
        0 <= n <= hits.len(),
    decreases n,
{
    if n <= 0 {
        None
    } else {
        nearer(nearest_of(hits, n - 1), hits[n - 1])
    }
}

/// Each shape's own resolution of the ray.
pub open spec fn world_hits(shapes: Seq<Sphere>, ray: Ray, t_min: int, t_max: int) -> Seq<
    Option<RayContact>,
> {
    Seq::new(shapes.len(), |i: int| shapes[i].sphere_hit_v(ray, t_min, t_max))
}

/// The scene aggregate: an insertion-ordered collection of shapes that
/// itself satisfies the Shape contract by resolving the nearest
/// contact.
pub struct World {
    pub shapes: Vec<Sphere>,
}

impl World {
    /// All member shapes are well-formed.
    pub open spec fn wf(self) -> bool {
        forall|i: int| 0 <= i < self.shapes@.len() ==> (#[trigger] self.shapes@[i]).wf()
    }

    /// An empty scene.
    pub fn new() -> (r: World)
        ensures
            r.shapes@.len() == 0,
            r.wf(),
    {
        World { shapes: Vec::new() }
    }

    /// Take ownership of one more shape; every earlier shape stays.
    pub fn insert(&mut self, shape: Sphere)
        requires
            old(self).wf(),
            shape.wf(),
        ensures
            final(self).shapes@ == old(self).shapes@.push(shape),
            final(self).wf(),
    {
        self.shapes.push(shape);
    }
}

impl Shape for World {
    open spec fn hit_spec(&self, ray: Ray, t_min: int, t_max: int) -> Option<RayContact> {
        nearest_of(world_hits(self.shapes@, ray, t_min, t_max), self.shapes@.len() as int)
    }

    /// Forward to every member with the same bounds and keep the
    /// contact of minimum `t`, the first encountered on a tie.
    fn hit(&self, ray: Ray, bounds: Bounds) -> (r: Option<RayContact>) {
        let ghost hits = world_hits(self.shapes@, ray, bounds.min@, bounds.max@);
        let mut best: Option<RayContact> = None;
        let mut i: usize = 0;
        while i < self.shapes.len()
            invariant
                i <= self.shapes@.len(),
                hits == world_hits(self.shapes@, ray, bounds.min@, bounds.max@),
                best == nearest_of(hits, i as int),
            decreases self.shapes@.len() - i,
        {
            let candidate = self.shapes[i].hit(ray, bounds);
            proof {
                assert(candidate == hits[i as int]);
            }
            match candidate {
                Some(c) => {
                    match best {
                        None => {
                            best = Some(c);
                        },
                        Some(b) => {
                            if c.t.raw < b.t.raw {
                                best = Some(c);
                            }
                        },
                    }
                },
                None => {},
            }
            i = i + 1;
        }
        best
    }
}

/// The fold over the first `n` results keeps the globally nearest one:
/// when it yields nothing, every result was nothing; when it yields a
/// contact, that contact is one of the results and none is nearer.
pub proof fn lemma_nearest_of(hits: Seq<Option<RayContact>>, n: int)
    requires
        0 <= n <= hits.len(),
    ensures
        match nearest_of(hits, n) {
            None => forall|i: int| 0 <= i < n ==> (#[trigger] hits[i]) is None,
            Some(c) => {
                &&& exists|i: int| 0 <= i < n && (#[trigger] hits[i]) == Some(c)
                &&& forall|i: int|
                    0 <= i < n ==> match #[trigger] hits[i] {
                        Some(ci) => c.t@ <= ci.t@,
                        None => true,
                    }
            },
        },
    decreases n,
{
    if n > 0 {
        lemma_nearest_of(hits, n - 1);
    }
}

/// The scene aggregate resolves the globally nearest contact: when the
/// fold over the first `n` shapes yields nothing, no member was hit;
/// when it yields a contact, that contact came from some member and no
/// member's contact is nearer.
pub proof fn lemma_world_hit_nearest(shapes: Seq<Sphere>, ray: Ray, t_min: int, t_max: int, n: int)
    requires
        0 <= n <= shapes.len(),
    ensures
        match nearest_of(world_hits(shapes, ray, t_min, t_max), n) {
            None => forall|i: int|
                0 <= i < n ==> (#[trigger] shapes[i].sphere_hit_v(ray, t_min, t_max)) is None,
            Some(c) => {
                &&& exists|i: int|
                    0 <= i < n && (#[trigger] shapes[i].sphere_hit_v(ray, t_min, t_max)) == Some(c)
                &&& forall|i: int|
                    0 <= i < n ==> match #[trigger] shapes[i].sphere_hit_v(ray, t_min, t_max) {
                        Some(ci) => c.t@ <= ci.t@,
                        None => true,
                    }
            },
        },
{
    let hits = world_hits(shapes, ray, t_min, t_max);
    lemma_nearest_of(hits, n);
    match nearest_of(hits, n) {
        None => {
            assert forall|i: int|
                0 <= i < n implies (#[trigger] shapes[i].sphere_hit_v(ray, t_min, t_max)) is None by {
                assert(hits[i] is None);
            }
        },
        Some(c) => {
            let j = choose|i: int| 0 <= i < n && (#[trigger] hits[i]) == Some(c);
            assert(shapes[j].sphere_hit_v(ray, t_min, t_max) == Some(c));
            assert forall|i: int|
                0 <= i < n implies match #[trigger] shapes[i].sphere_hit_v(ray, t_min, t_max) {
                    Some(ci) => c.t@ <= ci.t@,
                    None => true,
                } by {
                assert(hits[i] == shapes[i].sphere_hit_v(ray, t_min, t_max));
            }
        },
    }
}

} // verus!

//! Materials and spheres.

use vstd::prelude::*;
use num_traits::{Float, Num};
use crate::geometry::{is_difference, is_dot, GVec};
use crate::scalar::{
    adds, greater, is_one, is_root, is_zero, less, multiplies, one, sqrt, subtracts, total, zero,
    Scalar,
};

verus! {

/// Surface appearance: the diffuse colour, the weights of the diffuse,
/// specular, reflected and refracted contributions, the refractive index and
/// the exponent of the specular highlight.
#[derive(Clone, Copy, Debug)]
pub struct Material<T> {
    pub diffuse_color: GVec<T, 3>,
    pub albedo: GVec<T, 4>,
    pub refractive_index: T,
    pub specular_exp: T,
}

/// A sphere and the material it is made of.
pub struct Sphere<'a, T> {
    pub center: GVec<T, 3>,
    pub radius: T,
    pub material: &'a Material<T>,
}

/// `out` is the default material: black, purely diffuse, with the
/// refractive index one and the specular exponent zero.
pub open spec fn is_default_material<T: Num + Scalar>(out: Material<T>) -> bool {
    exists|z: T, o: T|
        #![trigger is_zero(z), is_one(o)]
        {
            &&& is_zero(z)
            &&& is_one(o)
            &&& out.diffuse_color@ == seq![z, z, z]
            &&& out.albedo@ == seq![o, z, z, z]
            &&& out.refractive_index == o
            &&& out.specular_exp == z
        }
}

/// `out` is the root of a ray that passes a sphere within its radius: with
/// `tca` the distance along the ray to the point nearest to the centre,
/// `rr` the squared radius and `d2` the squared distance of that point from
/// the centre, the roots are `tca` less and plus the root of `rr - d2`. The
/// first is `out` unless it is below zero, then the second is unless it is
/// below zero too, and then there is none.
pub open spec fn is_nearest_root<T: Float + Num + Scalar>(
    tca: T,
    rr: T,
    d2: T,
    out: Option<T>,
) -> bool {
    exists|gap: T, thc: T, t0: T, t1: T, z: T, first_behind: bool, root: T, behind: bool|
        #![trigger is_root(gap, thc), subtracts(tca, thc, t0), adds(tca, thc, t1), less(t0, z, first_behind), less(root, z, behind)]
        {
            &&& subtracts(rr, d2, gap)
            &&& is_root(gap, thc)
            &&& subtracts(tca, thc, t0)
            &&& adds(tca, thc, t1)
            &&& is_zero(z)
            &&& less(t0, z, first_behind)
            &&& root == if first_behind { t1 } else { t0 }
            &&& less(root, z, behind)
            &&& out == if behind { None } else { Some(root) }
        }
}

/// `out` is a result of intersecting the ray from `orig` along `dir` with
/// the sphere of the given centre and radius. With `l` the vector from the
/// origin to the centre, `tca` is `l . dir` and `d2` is `l . l - tca * tca`;
/// there is no hit where `d2` is above the squared radius, and otherwise
/// the hit is at the nearest root that is not behind the origin.
pub open spec fn is_intersection<T: Float + Num + Scalar>(
    center: Seq<T>,
    radius: T,
    orig: Seq<T>,
    dir: Seq<T>,
    out: Option<T>,
) -> bool {
    exists|l: Seq<T>, tca: T, ll: T, tt: T, d2: T, rr: T, miss: bool|
        #![trigger is_dot(l, dir, tca), subtracts(ll, tt, d2), greater(d2, rr, miss)]
        {
            &&& is_difference(center, orig, l)
            &&& is_dot(l, dir, tca)
            &&& is_dot(l, l, ll)
            &&& multiplies(tca, tca, tt)
            &&& subtracts(ll, tt, d2)
            &&& multiplies(radius, radius, rr)
            &&& greater(d2, rr, miss)
            &&& if miss {
                out is None
            } else {
                is_nearest_root(tca, rr, d2, out)
            }
        }
}

impl<T: Num + Scalar> Material<T> {
    /// The default material.
    pub fn default() -> (out: Self)
        ensures
            is_default_material(out),
    {
        let z: T = zero();
        let o: T = one();
        let out = Material {
            diffuse_color: GVec::<T, 3>::new(z, z, z),
            albedo: GVec::from([o, z, z, z]),
            refractive_index: o,
            specular_exp: z,
        };
        out
    }
}

impl<'a, T> Sphere<'a, T> {
    /// The sphere with the given centre, radius and material.
    pub fn new(center: GVec<T, 3>, radius: T, material: &'a Material<T>) -> (out: Self)
        ensures
            out.center == center,
            out.radius == radius,
            out.material == material,
    {
        Sphere { center, radius, material }
    }
}

impl<'a, T: Float + Num + Scalar> Sphere<'a, T> {
    /// The distance along the ray from `orig` in the direction `dir` to the
    /// nearest point of the sphere that is not behind the origin, if the ray
    /// meets the sphere there.
    pub fn ray_intersect(&self, orig: GVec<T, 3>, dir: GVec<T, 3>) -> (out: Option<T>)
        requires
            total::<T>(),
        ensures
            is_intersection(self.center@, self.radius, orig@, dir@, out),
    {
        let l = self.center - orig;
        let tca: T = l.dot(dir);
        let ll: T = l.dot(l);
        let tt: T = tca * tca;
        let d2: T = ll - tt;
        let rr: T = self.radius * self.radius;
        let miss = d2 > rr;
        if miss {
            return None;
        }
        let gap: T = rr - d2;
        let thc: T = sqrt(gap);
        let mut t0: T = tca - thc;
        let t1: T = tca + thc;
        let z: T = zero();
        let first_behind = t0 < z;
        if first_behind {
            t0 = t1;
        }
        let behind = t0 < z;
        let out = if behind {
            None
        } else {
            Some(t0)
        };
        out
    }
}

/// The ray from `orig` along `dir` passes the centre of the sphere beyond
/// its radius: whatever the scalar's arithmetic gives for the squared
/// distance `d2` of the ray from the centre and for the squared radius `rr`,
/// `d2 > rr` holds.
pub open spec fn passes_beyond<T: Float + Num + Scalar>(
    center: Seq<T>,
    radius: T,
    orig: Seq<T>,
    dir: Seq<T>,
) -> bool {
    forall|l: Seq<T>, tca: T, ll: T, tt: T, d2: T, rr: T, miss: bool|
        #![trigger is_dot(l, dir, tca), subtracts(ll, tt, d2), greater(d2, rr, miss)]
        {
            &&& is_difference(center, orig, l)
            &&& is_dot(l, dir, tca)
            &&& is_dot(l, l, ll)
            &&& multiplies(tca, tca, tt)
            &&& subtracts(ll, tt, d2)
            &&& multiplies(radius, radius, rr)
            &&& greater(d2, rr, miss)
        } ==> miss
}

/// A ray that passes the centre of a sphere beyond its radius does not hit
/// the sphere.
pub proof fn lemma_beyond_radius_misses<T: Float + Num + Scalar>(
    center: Seq<T>,
    radius: T,
    orig: Seq<T>,
    dir: Seq<T>,
    out: Option<T>,
)
    requires
        passes_beyond(center, radius, orig, dir),
        is_intersection(center, radius, orig, dir, out),
    ensures
        out is None,
{
}

} // verus!

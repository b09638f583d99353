//! What happens to a direction at a surface: reflection, refraction, and
//! the small step off the surface that a secondary ray starts with.

use vstd::prelude::*;
use vstd::std_specs::ops::{AddSpec, MulSpec, SubSpec};
use std::ops::{Add, Mul, Neg, Sub};
use num_traits::{Float, Num};
use crate::geometry::{
    diff, dot_defined, dot_of, inner, inner_req, is_difference, is_dot, is_negation, is_scaled,
    is_sum, scaled, GVec,
};
use crate::scalar::{
    adds, divides, is_max, is_min, is_one, is_ratio, is_root, is_signum, is_zero,
    lemma_i64_identities, less, max, min, multiplies, negates, one, one_of, ratio, signum, sqrt,
    subtracts, total, total_add, total_mul, total_sub, zero, zero_of, Scalar,
};

verus! {

/// The scalar's two: its one added to itself.
pub open spec fn two_of<T: Add<Output = T> + Mul<Output = T>>() -> T {
    one_of::<T>().add_spec(one_of::<T>())
}

/// The reflection of `i` at a surface with the normal `n`: `i` less `n`
/// scaled by two and then by the dot product of `i` and `n`.
pub open spec fn reflection<T: Add<Output = T> + Sub<Output = T> + Mul<Output = T>>(
    i: Seq<T>,
    n: Seq<T>,
) -> Seq<T> {
    diff(i, scaled(scaled(n, two_of::<T>()), dot_of(i, n)))
}

/// `out` is a reflection of `i` at a surface with the normal `n`: a
/// difference of `i` and `n` scaled by a two and by a dot product of `i` and
/// `n`, the two being a one of the scalar type added to itself.
pub open spec fn is_reflection<T: Num + Add<Output = T> + Sub<Output = T> + Mul<Output = T>>(
    i: Seq<T>,
    n: Seq<T>,
    out: Seq<T>,
) -> bool {
    exists|o: T, two: T, d: T, doubled: Seq<T>, along: Seq<T>|
        #![trigger adds(o, o, two), is_scaled(doubled, d, along)]
        {
            &&& is_one(o)
            &&& adds(o, o, two)
            &&& is_scaled(n, two, doubled)
            &&& is_dot(i, n, d)
            &&& is_scaled(doubled, d, along)
            &&& is_difference(i, along, out)
        }
}

/// The reflection of `i` at `n` can be computed: either the scalar's
/// operators accept all operands, or they obey their specifications and
/// accept each step of this computation.
pub open spec fn reflect_defined<T: Add<Output = T> + Sub<Output = T> + Mul<Output = T>>(
    i: Seq<T>,
    n: Seq<T>,
) -> bool {
    ||| total_add::<T>() && total_sub::<T>() && total_mul::<T>()
    ||| {
        let doubled = scaled(n, two_of::<T>());
        let along = scaled(doubled, dot_of(i, n));
        &&& T::obeys_add_spec()
        &&& T::obeys_sub_spec()
        &&& T::obeys_mul_spec()
        &&& one_of::<T>().add_req(one_of::<T>())
        &&& forall|k: int| 0 <= k < n.len() ==> #[trigger] n[k].mul_req(two_of::<T>())
        &&& inner_req(zero_of::<T>(), i, n, i.len())
        &&& forall|k: int| 0 <= k < n.len() ==> #[trigger] doubled[k].mul_req(dot_of(i, n))
        &&& forall|k: int| 0 <= k < i.len() ==> #[trigger] i[k].sub_req(along[k])
    }
}

/// The mirror image of the direction `i` at a surface with the normal `n`.
pub fn reflect<T: Num + Copy + Add<Output = T> + Sub<Output = T> + Mul<Output = T>>(
    i: GVec<T, 3>,
    n: GVec<T, 3>,
) -> (out: GVec<T, 3>)
    requires
        reflect_defined(i@, n@),
    ensures
        is_reflection(i@, n@, out@),
        T::obeys_add_spec() && T::obeys_sub_spec() && T::obeys_mul_spec() ==> out@ == reflection(
            i@,
            n@,
        ),
{
    let unit: T = one();
    let two: T = unit + unit;
    assert(T::obeys_add_spec() && T::obeys_mul_spec() ==> two == two_of::<T>());
    let doubled = n * two;
    let d: T = i.dot(n);
    let along = doubled * d;
    i - along
}

/// Reflection at a unit normal negates the component of the direction along
/// the normal and keeps the direction's squared length, where no step of
/// the computations overflows.
pub proof fn lemma_reflect_mirrors(i: GVec<i64, 3>, n: GVec<i64, 3>)
    requires
        reflect_defined(i@, n@),
        dot_defined(n@, n@),
        dot_of(n@, n@) == 1,
        dot_defined(i@, i@),
        dot_defined(reflection(i@, n@), n@),
        dot_defined(reflection(i@, n@), reflection(i@, n@)),
    ensures
        dot_of(reflection(i@, n@), n@) == -dot_of(i@, n@),
        dot_of(reflection(i@, n@), reflection(i@, n@)) == dot_of(i@, i@),
{
    lemma_i64_identities();
    assert(!total_add::<i64>()) by {
        assert(!i64::MAX.add_req(1i64));
    }
    let r = reflection(i@, n@);
    let d = dot_of(i@, n@);
    let doubled = scaled(n@, 2i64);
    let along = scaled(doubled, d);
    reveal_with_fuel(inner, 4);
    reveal_with_fuel(inner_req, 4);
    let (i0, i1, i2) = (i@[0] as int, i@[1] as int, i@[2] as int);
    let (n0, n1, n2) = (n@[0] as int, n@[1] as int, n@[2] as int);
    let (r0, r1, r2) = (r[0] as int, r[1] as int, r[2] as int);
    assert(n@[0].mul_req(2i64) && n@[1].mul_req(2i64) && n@[2].mul_req(2i64));
    assert(doubled[0].mul_req(d) && doubled[1].mul_req(d) && doubled[2].mul_req(d));
    assert(i@[0].sub_req(along[0]) && i@[1].sub_req(along[1]) && i@[2].sub_req(along[2]));
    assert(r0 * n0 + r1 * n1 + r2 * n2 == -d) by (nonlinear_arith)
        requires
            d == i0 * n0 + i1 * n1 + i2 * n2,
            n0 * n0 + n1 * n1 + n2 * n2 == 1,
            r0 == i0 - (n0 * 2) * d,
            r1 == i1 - (n1 * 2) * d,
            r2 == i2 - (n2 * 2) * d,
    ;
    assert(r0 * r0 + r1 * r1 + r2 * r2 == i0 * i0 + i1 * i1 + i2 * i2) by (nonlinear_arith)
        requires
            d == i0 * n0 + i1 * n1 + i2 * n2,
            n0 * n0 + n1 * n1 + n2 * n2 == 1,
            r0 == i0 - (n0 * 2) * d,
            r1 == i1 - (n1 * 2) * d,
            r2 == i2 - (n2 * 2) * d,
    ;
}

/// `out` is the cosine of the angle of incidence: the dot product of `i`
/// and `n`, kept between a negated one and a one of the scalar type, and
/// negated.
pub open spec fn is_incidence<T: Float + Num + Scalar>(i: Seq<T>, n: Seq<T>, out: T) -> bool {
    exists|unit: T, minus: T, d: T, capped: T, clamped: T|
        #![trigger negates(unit, minus), is_min(unit, d, capped), is_max(minus, capped, clamped)]
        {
            &&& is_one(unit)
            &&& negates(unit, minus)
            &&& is_dot(i, n, d)
            &&& is_min(unit, d, capped)
            &&& is_max(minus, capped, clamped)
            &&& negates(clamped, out)
        }
}

/// `out` is the refracted direction for the cosine `cosi`, the ratio `eta`
/// of the refractive indices and the normal `n` that faces the ray: with
/// `k = 1 - eta * eta * (1 - cosi * cosi)`, it is a vector of zeros where
/// `k` is below zero, and otherwise
/// `i * eta + n * (eta * cosi - sqrt(k))`.
pub open spec fn is_bend<T: Float + Num + Scalar>(
    i: Seq<T>,
    n: Seq<T>,
    cosi: T,
    eta: T,
    out: Seq<T>,
) -> bool {
    exists|unit: T, z: T, ee: T, cc: T, sines: T, lost: T, k: T, inside: bool|
        #![trigger multiplies(eta, eta, ee), subtracts(unit, cc, sines), subtracts(unit, lost, k), less(k, z, inside)]
        {
            &&& is_one(unit)
            &&& is_zero(z)
            &&& multiplies(eta, eta, ee)
            &&& multiplies(cosi, cosi, cc)
            &&& subtracts(unit, cc, sines)
            &&& multiplies(ee, sines, lost)
            &&& subtracts(unit, lost, k)
            &&& less(k, z, inside)
            &&& if inside {
                out == seq![z, z, z]
            } else {
                exists|along: Seq<T>, ec: T, root: T, depth: T, across: Seq<T>|
                    #![trigger is_scaled(i, eta, along), subtracts(ec, root, depth), is_scaled(n, depth, across)]
                    {
                        &&& is_scaled(i, eta, along)
                        &&& multiplies(eta, cosi, ec)
                        &&& is_root(k, root)
                        &&& subtracts(ec, root, depth)
                        &&& is_scaled(n, depth, across)
                        &&& is_sum(along, across, out)
                    }
            }
        }
}

/// `out` is a refraction of the direction `i` at a surface with the normal
/// `n` into a medium of the refractive index `index`, by Snell's law. Where
/// the cosine of incidence is below zero the ray leaves the medium: the
/// normal is negated and the ratio of the indices is `index` to one, and
/// otherwise it is one to `index`.
pub open spec fn is_refraction<T: Float + Num + Scalar>(
    i: Seq<T>,
    n: Seq<T>,
    index: T,
    out: Seq<T>,
) -> bool {
    exists|cosi: T, unit: T, z: T, leaving: bool, eta: T, facing: Seq<T>|
        #![trigger less(cosi, z, leaving), is_bend(i, facing, cosi, eta, out), is_one(unit)]
        {
            &&& is_incidence(i, n, cosi)
            &&& is_one(unit)
            &&& is_zero(z)
            &&& less(cosi, z, leaving)
            &&& if leaving {
                divides(index, unit, eta) && is_negation(n, facing)
            } else {
                divides(unit, index, eta) && facing == n
            }
            &&& is_bend(i, facing, cosi, eta, out)
        }
}

/// `out` is the point `v` moved off a surface with the normal `n`, to the
/// side that the direction `dir` points to: `v` plus `n` scaled by a
/// thousandth and by the sign of `dir . n`.
pub open spec fn is_offset<T: Float + Num + Scalar>(
    v: Seq<T>,
    n: Seq<T>,
    dir: Seq<T>,
    out: Seq<T>,
) -> bool {
    exists|eps: T, step: Seq<T>, d: T, side: T, signed: Seq<T>|
        #![trigger is_scaled(n, eps, step), is_signum(d, side), is_scaled(step, side, signed)]
        {
            &&& is_ratio(1, 1000, eps)
            &&& is_scaled(n, eps, step)
            &&& is_dot(dir, n, d)
            &&& is_signum(d, side)
            &&& is_scaled(step, side, signed)
            &&& is_sum(v, signed, out)
        }
}

/// The direction of `i` after it crosses a surface with the normal `n` into
/// a medium of the refractive index `index`, by Snell's law; the zero vector
/// on total internal reflection.
pub fn refract<T: Float + Num + Scalar>(i: GVec<T, 3>, n: GVec<T, 3>, index: T) -> (out: GVec<
    T,
    3,
>)
    requires
        total::<T>(),
    ensures
        is_refraction(i@, n@, index, out@),
{
    let unit: T = one();
    let z: T = zero();
    let minus: T = unit.neg();
    let d: T = i.dot(n);
    let capped: T = min(unit, d);
    let clamped: T = max(minus, capped);
    let cosi: T = clamped.neg();
    let leaving = cosi < z;
    let mut etai: T = unit;
    let mut etat: T = index;
    let facing = if leaving {
        std::mem::swap(&mut etai, &mut etat);
        n.neg()
    } else {
        n
    };
    let eta: T = etai / etat;
    let ee: T = eta * eta;
    let cc: T = cosi * cosi;
    let sines: T = unit - cc;
    let lost: T = ee * sines;
    let k: T = unit - lost;
    let inside = k < z;
    let out = if inside {
        GVec::<T, 3>::new(z, z, z)
    } else {
        let along = i * eta;
        let ec: T = eta * cosi;
        let root: T = sqrt(k);
        let depth: T = ec - root;
        let across = facing * depth;
        along + across
    };
    proof {
        assert(is_bend(i@, facing@, cosi, eta, out@));
    }
    out
}

/// The point `v` moved off a surface with the normal `n`, to the side that
/// the direction `dir` points to.
pub fn normal_offset<T: Float + Num + Scalar>(
    v: GVec<T, 3>,
    n: GVec<T, 3>,
    dir: GVec<T, 3>,
) -> (out: GVec<T, 3>)
    requires
        total::<T>(),
    ensures
        is_offset(v@, n@, dir@, out@),
{
    let eps: T = ratio(1, 1000);
    let step = n * eps;
    let d: T = dir.dot(n);
    let side: T = signum(d);
    let signed = step * side;
    v + signed
}

} // verus!

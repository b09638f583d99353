//! Laws of the vector algebra.
//!
//! The primitive integers obey the specifications of their operators, so for
//! vectors of `i64` the results of the vector operations are known as
//! values, and the usual laws hold of them wherever no step overflows. The
//! dot product commutes for every scalar whose multiplication does.

use vstd::prelude::*;
use vstd::std_specs::ops::{AddSpec, MulSpec, SubSpec};
use std::ops::{Add, Mul};
use num_traits::Num;
use crate::geometry::{diff, dot_of, inner, is_dot, is_inner, neg_defined, scaled, sum, GVec};
use crate::scalar::{adds, is_zero, lemma_i64_identities, minus_one, multiplies, zero_of};

verus! {

/// Adding a vector and then subtracting it again gives the first vector
/// back, where the sums do not overflow.
pub proof fn lemma_add_then_sub<const D: usize>(a: GVec<i64, D>, b: GVec<i64, D>)
    requires
        a.add_req(b),
    ensures
        forall|i: int| 0 <= i < D ==> #[trigger] sum(a@, b@)[i].sub_req(b@[i]),
        diff(sum(a@, b@), b@) == a@,
{
    assert forall|i: int| 0 <= i < D implies #[trigger] sum(a@, b@)[i].sub_req(b@[i]) by {
        assert(a@[i].add_req(b@[i]));
    }
    assert forall|i: int| 0 <= i < D implies diff(sum(a@, b@), b@)[i] == a@[i] by {
        assert(a@[i].add_req(b@[i]));
    }
}

/// Negating a vector twice gives the vector back, where no component is the
/// least `i64` (whose negation overflows).
pub proof fn lemma_neg_neg<const D: usize>(a: GVec<i64, D>)
    requires
        forall|i: int| 0 <= i < D ==> a@[i] != i64::MIN,
    ensures
        neg_defined(a@),
        neg_defined(scaled(a@, minus_one::<i64>())),
        scaled(scaled(a@, minus_one::<i64>()), minus_one::<i64>()) == a@,
{
    lemma_i64_identities();
    let once = scaled(a@, -1i64);
    assert forall|i: int| 0 <= i < D implies #[trigger] a@[i].mul_req(-1i64) && once[i] == -a@[i] by {
        assert(a@[i] * (-1) == -a@[i]) by (nonlinear_arith);
    }
    assert forall|i: int| 0 <= i < D implies #[trigger] once[i].mul_req(-1i64) && scaled(
        once,
        -1i64,
    )[i] == a@[i] by {
        assert((-a@[i]) * (-1) == a@[i]) by (nonlinear_arith);
    }
}

/// Scaling by `s` and then by `t` is scaling by `s * t`, where no product
/// overflows.
pub proof fn lemma_scale_twice<const D: usize>(a: GVec<i64, D>, s: i64, t: i64)
    requires
        a.mul_req(s),
        s.mul_req(t),
        forall|i: int| 0 <= i < D ==> #[trigger] scaled(a@, s)[i].mul_req(t),
    ensures
        forall|i: int| 0 <= i < D ==> #[trigger] a@[i].mul_req(s.mul_spec(t)),
        scaled(scaled(a@, s), t) == scaled(a@, s.mul_spec(t)),
{
    let twice = scaled(scaled(a@, s), t);
    let product = scaled(a@, s.mul_spec(t));
    assert forall|i: int| 0 <= i < D implies #[trigger] a@[i].mul_req(s.mul_spec(t)) && twice[i]
        == product[i] by {
        assert(a@[i].mul_req(s));
        assert(scaled(a@, s)[i].mul_req(t));
        assert((a@[i] * s) * t == a@[i] * (s * t)) by (nonlinear_arith);
    }
    assert forall|i: int| 0 <= i < D implies twice[i] == product[i] by {
        assert(a@[i].mul_req(s.mul_spec(t)));
    }
}

/// The dot product does not depend on the order of its two arguments.
pub proof fn lemma_dot_commutes<const D: usize>(a: GVec<i64, D>, b: GVec<i64, D>)
    ensures
        dot_of(a@, b@) == dot_of(b@, a@),
{
    lemma_inner_commutes(zero_of::<i64>(), a@, b@, D as nat);
}

/// Each partial inner product of `a` with `b` is that of `b` with `a`.
pub proof fn lemma_inner_commutes(z: i64, a: Seq<i64>, b: Seq<i64>, n: nat)
    ensures
        inner(z, a, b, n) == inner(z, b, a, n),
    decreases n,
{
    if n > 0 {
        lemma_inner_commutes(z, a, b, (n - 1) as nat);
        assert(a[n - 1] * b[n - 1] == b[n - 1] * a[n - 1]) by (nonlinear_arith);
    }
}

/// The scalar's multiplication commutes: a result of `x * y` is a result of
/// `y * x`.
pub open spec fn products_commute<T: Mul<Output = T>>() -> bool {
    forall|x: T, y: T, out: T| #[trigger] multiplies(x, y, out) ==> multiplies(y, x, out)
}

/// Where the scalar's multiplication commutes, each partial inner product
/// of `a` with `b` is one of `b` with `a`.
pub proof fn lemma_inner_commutes_with_products<T: Add<Output = T> + Mul<Output = T>>(
    z: T,
    a: Seq<T>,
    b: Seq<T>,
    n: nat,
    out: T,
)
    requires
        products_commute::<T>(),
        is_inner(z, a, b, n, out),
    ensures
        is_inner(z, b, a, n, out),
    decreases n,
{
    if n > 0 {
        let (acc, p) = choose|acc: T, p: T|
            is_inner(z, a, b, (n - 1) as nat, acc) && multiplies(a[n - 1], b[n - 1], p) && adds(
                acc,
                p,
                out,
            );
        lemma_inner_commutes_with_products(z, a, b, (n - 1) as nat, acc);
        assert(multiplies(b[n - 1], a[n - 1], p));
    }
}

/// Where the scalar's multiplication commutes, a dot product of `a` and `b`
/// is a dot product of `b` and `a`.
pub proof fn lemma_dot_commutes_with_products<T: Num + Add<Output = T> + Mul<Output = T>>(
    a: Seq<T>,
    b: Seq<T>,
    out: T,
)
    requires
        products_commute::<T>(),
        a.len() == b.len(),
        is_dot(a, b, out),
    ensures
        is_dot(b, a, out),
{
    let z = choose|z: T| is_zero(z) && is_inner(z, a, b, a.len(), out);
    lemma_inner_commutes_with_products(z, a, b, a.len(), out);
}

} // verus!

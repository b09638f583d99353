//! Fixed-dimension vectors over a generic scalar.
//!
//! A vector is an array of `D` scalars, and its view is the sequence of its
//! components. Each operation has two contracts over that sequence. The
//! first holds for every scalar type and says from which scalar operations
//! each component of the result comes (`is_sum`, `is_dot`, ...). The second
//! holds for scalars whose operators obey their specifications, and gives
//! the result as a value (`sum`, `dot_of`, ...).

use vstd::prelude::*;
use vstd::std_specs::ops::{AddSpec, MulSpec, NegSpec, SubSpec};
use std::ops::{Add, Div, Index, Mul, Neg, Sub};
use num_traits::{Float, Num};
use crate::scalar::{
    adds, divides, is_one, is_root, is_zero, minus_one, multiplies, negates, one, one_of, sqrt,
    subtracts, total_add, total_div, total_mul, total_neg, zero, zero_of,
};

verus! {

/// A vector of `D` components of type `T`.
#[derive(Debug, Copy, Clone)]
pub struct GVec<T, const D: usize>(pub [T; D]);

impl<T, const D: usize> View for GVec<T, D> {
    type V = Seq<T>;

    open spec fn view(&self) -> Seq<T> {
        self.0@
    }
}

/// The sequence of the three components `x`, `y` and `z`.
pub open spec fn triple<T>(x: T, y: T, z: T) -> Seq<T> {
    seq![x, y, z]
}

/// Each component of `out` is a result of adding the components of `a` and
/// `b` at its place.
pub open spec fn is_sum<T: Add<Output = T>>(a: Seq<T>, b: Seq<T>, out: Seq<T>) -> bool {
    &&& out.len() == a.len()
    &&& forall|i: int| 0 <= i < a.len() ==> adds(a[i], b[i], #[trigger] out[i])
}

/// Each component of `out` is a result of subtracting the component of `b`
/// from that of `a` at its place.
pub open spec fn is_difference<T: Sub<Output = T>>(a: Seq<T>, b: Seq<T>, out: Seq<T>) -> bool {
    &&& out.len() == a.len()
    &&& forall|i: int| 0 <= i < a.len() ==> subtracts(a[i], b[i], #[trigger] out[i])
}

/// Each component of `out` is a result of multiplying the component of `a`
/// at its place by `k`.
pub open spec fn is_scaled<T: Mul<Output = T>>(a: Seq<T>, k: T, out: Seq<T>) -> bool {
    &&& out.len() == a.len()
    &&& forall|i: int| 0 <= i < a.len() ==> multiplies(a[i], k, #[trigger] out[i])
}

/// `out` is a result of accumulating the products of the first `n`
/// components of `a` and `b` onto `z`, from the first component on.
pub open spec fn is_inner<T: Add<Output = T> + Mul<Output = T>>(
    z: T,
    a: Seq<T>,
    b: Seq<T>,
    n: nat,
    out: T,
) -> bool
    decreases n,
{
    if n == 0 {
        out == z
    } else {
        exists|acc: T, p: T|
            #![trigger adds(acc, p, out)]
            is_inner(z, a, b, (n - 1) as nat, acc) && multiplies(a[n - 1], b[n - 1], p) && adds(
                acc,
                p,
                out,
            )
    }
}

/// `out` is a dot product of `a` and `b`: the products of their components
/// accumulated onto a zero of the scalar type.
pub open spec fn is_dot<T: Num + Add<Output = T> + Mul<Output = T>>(
    a: Seq<T>,
    b: Seq<T>,
    out: T,
) -> bool {
    exists|z: T| #![trigger is_zero(z)] is_zero(z) && is_inner(z, a, b, a.len(), out)
}

/// `out` is a negation of `a`: `a` scaled by a negated one of the scalar
/// type.
pub open spec fn is_negation<T: Num + Mul<Output = T> + Neg<Output = T>>(
    a: Seq<T>,
    out: Seq<T>,
) -> bool {
    exists|o: T, m: T| #![trigger negates(o, m)] is_one(o) && negates(o, m) && is_scaled(a, m, out)
}

/// `out` is a norm of `a`: a square root of a dot product of `a` with
/// itself, or a zero of the scalar type where `a` has no component.
pub open spec fn is_norm<T: Float + Num + Add<Output = T> + Mul<Output = T>>(
    a: Seq<T>,
    out: T,
) -> bool {
    if a.len() == 0 {
        is_zero(out)
    } else {
        exists|s: T| #![trigger is_root(s, out)] is_dot(a, a, s) && is_root(s, out)
    }
}

/// `out` is `a` normalized: `a` scaled by a one of the scalar type divided
/// by a norm of `a`.
pub open spec fn is_normalized<
    T: Float + Num + Add<Output = T> + Mul<Output = T> + Div<Output = T>,
>(a: Seq<T>, out: Seq<T>) -> bool {
    exists|o: T, n: T, k: T|
        #![trigger divides(o, n, k)]
        is_one(o) && is_norm(a, n) && divides(o, n, k) && is_scaled(a, k, out)
}

/// The component-wise sum of `a` and `b`.
pub open spec fn sum<T: Add<Output = T>>(a: Seq<T>, b: Seq<T>) -> Seq<T> {
    Seq::new(a.len(), |i: int| a[i].add_spec(b[i]))
}

/// The component-wise difference of `a` and `b`.
pub open spec fn diff<T: Sub<Output = T>>(a: Seq<T>, b: Seq<T>) -> Seq<T> {
    Seq::new(a.len(), |i: int| a[i].sub_spec(b[i]))
}

/// Every component of `a` multiplied on the right by `k`.
pub open spec fn scaled<T: Mul<Output = T>>(a: Seq<T>, k: T) -> Seq<T> {
    Seq::new(a.len(), |i: int| a[i].mul_spec(k))
}

/// The products of the first `n` components of `a` and `b`, accumulated onto
/// `z` from the first component on.
pub open spec fn inner<T: Add<Output = T> + Mul<Output = T>>(
    z: T,
    a: Seq<T>,
    b: Seq<T>,
    n: nat,
) -> T
    decreases n,
{
    if n == 0 {
        z
    } else {
        inner(z, a, b, (n - 1) as nat).add_spec(a[n - 1].mul_spec(b[n - 1]))
    }
}

/// The dot product: the sum of the products of the components, accumulated
/// onto the scalar's zero.
pub open spec fn dot_of<T: Add<Output = T> + Mul<Output = T>>(a: Seq<T>, b: Seq<T>) -> T {
    inner(zero_of::<T>(), a, b, a.len())
}

/// The scalar's operators accept every product and every partial sum of
/// `inner(z, a, b, n)`.
pub open spec fn inner_req<T: Add<Output = T> + Mul<Output = T>>(
    z: T,
    a: Seq<T>,
    b: Seq<T>,
    n: nat,
) -> bool
    decreases n,
{
    n == 0 || {
        &&& inner_req(z, a, b, (n - 1) as nat)
        &&& a[n - 1].mul_req(b[n - 1])
        &&& inner(z, a, b, (n - 1) as nat).add_req(a[n - 1].mul_spec(b[n - 1]))
    }
}

/// The dot product of `a` and `b` can be computed: either the scalar's
/// operators accept all operands, or they obey their specifications and
/// accept each step of this computation.
pub open spec fn dot_defined<T: Add<Output = T> + Mul<Output = T>>(a: Seq<T>, b: Seq<T>) -> bool {
    ||| total_add::<T>() && total_mul::<T>()
    ||| T::obeys_add_spec() && T::obeys_mul_spec() && inner_req(zero_of::<T>(), a, b, a.len())
}

/// The negation of `a` can be computed: either the scalar's operators accept
/// all operands, or they obey their specifications and accept each step.
pub open spec fn neg_defined<T: Mul<Output = T> + Neg<Output = T>>(a: Seq<T>) -> bool {
    ||| total_neg::<T>() && total_mul::<T>()
    ||| {
        &&& T::obeys_mul_spec()
        &&& T::obeys_neg_spec()
        &&& one_of::<T>().neg_req()
        &&& forall|i: int| 0 <= i < a.len() ==> #[trigger] a[i].mul_req(minus_one::<T>())
    }
}

/// Two vectors with the same components are the same vector.
pub proof fn lemma_view_injective<T, const D: usize>(a: GVec<T, D>, b: GVec<T, D>)
    requires
        a@ == b@,
    ensures
        a == b,
{
    assert(a.0 =~= b.0);
}

/// Where the whole computation is accepted, so is each of its prefixes.
pub proof fn lemma_inner_req_prefix<T: Add<Output = T> + Mul<Output = T>>(
    z: T,
    a: Seq<T>,
    b: Seq<T>,
    m: nat,
    n: nat,
)
    requires
        m <= n,
        inner_req(z, a, b, n),
    ensures
        inner_req(z, a, b, m),
    decreases n,
{
    if m < n {
        lemma_inner_req_prefix(z, a, b, m, (n - 1) as nat);
    }
}

impl<T, const D: usize> vstd::std_specs::convert::FromSpecImpl<[T; D]> for GVec<T, D> {
    open spec fn obeys_from_spec() -> bool {
        true
    }

    open spec fn from_spec(v: [T; D]) -> Self {
        GVec(v)
    }
}

impl<T, const D: usize> From<[T; D]> for GVec<T, D> {
    /// The vector of the components `v`.
    fn from(v: [T; D]) -> (out: Self)
        ensures
            out@ == v@,
    {
        GVec(v)
    }
}

impl<T, const D: usize> vstd::std_specs::core::IndexSpecImpl<usize> for GVec<T, D> {
    open spec fn index_req(&self, index: &usize) -> bool {
        *index < D
    }
}

impl<T, const D: usize> Index<usize> for GVec<T, D> {
    type Output = T;

    /// The component at `index`, which must be below `D`.
    fn index(&self, index: usize) -> (out: &T)
        ensures
            *out == self@[index as int],
    {
        &self.0[index]
    }
}

impl<T, const D: usize> GVec<T, D> {
    /// A mutable reference to the component at `index`; writing through it
    /// changes that component and no other.
    pub fn index_mut(&mut self, index: usize) -> (out: &mut T)
        requires
            index < D,
        ensures
            *out == old(self)@[index as int],
            final(self)@ == old(self)@.update(index as int, *final(out)),
    {
        &mut self.0[index]
    }
}

impl<T: Add<Output = T> + Copy, const D: usize> vstd::std_specs::ops::AddSpecImpl for GVec<T, D> {
    open spec fn obeys_add_spec() -> bool {
        T::obeys_add_spec()
    }

    open spec fn add_req(self, rhs: Self) -> bool {
        forall|i: int| 0 <= i < D ==> #[trigger] self@[i].add_req(rhs@[i])
    }

    open spec fn add_spec(self, rhs: Self) -> Self {
        choose|out: Self| out@ == sum(self@, rhs@)
    }
}

impl<T: Add<Output = T> + Copy, const D: usize> Add for GVec<T, D> {
    type Output = Self;

    /// The component-wise sum.
    fn add(self, rhs: Self) -> (out: Self)
        ensures
            is_sum(self@, rhs@, out@),
            T::obeys_add_spec() ==> out@ == sum(self@, rhs@),
    {
        let mut arr = self.0;
        let mut i: usize = 0;
        while i < D
            invariant
                i <= D,
                forall|k: int| 0 <= k < D ==> #[trigger] self@[k].add_req(rhs@[k]),
                forall|k: int| i <= k < D ==> arr@[k] == self@[k],
                forall|k: int| 0 <= k < i ==> adds(self@[k], rhs@[k], #[trigger] arr@[k]),
            decreases D - i,
        {
            arr[i] = arr[i] + rhs.0[i];
            i += 1;
        }
        let out = GVec(arr);
        proof {
            if T::obeys_add_spec() {
                assert(out@ =~= sum(self@, rhs@));
                let chosen = choose|v: Self| v@ == sum(self@, rhs@);
                lemma_view_injective(out, chosen);
            }
        }
        out
    }
}

impl<T: Sub<Output = T> + Copy, const D: usize> vstd::std_specs::ops::SubSpecImpl for GVec<T, D> {
    open spec fn obeys_sub_spec() -> bool {
        T::obeys_sub_spec()
    }

    open spec fn sub_req(self, rhs: Self) -> bool {
        forall|i: int| 0 <= i < D ==> #[trigger] self@[i].sub_req(rhs@[i])
    }

    open spec fn sub_spec(self, rhs: Self) -> Self {
        choose|out: Self| out@ == diff(self@, rhs@)
    }
}

impl<T: Sub<Output = T> + Copy, const D: usize> Sub for GVec<T, D> {
    type Output = Self;

    /// The component-wise difference.
    fn sub(self, rhs: Self) -> (out: Self)
        ensures
            is_difference(self@, rhs@, out@),
            T::obeys_sub_spec() ==> out@ == diff(self@, rhs@),
    {
        let mut arr = self.0;
        let mut i: usize = 0;
        while i < D
            invariant
                i <= D,
                forall|k: int| 0 <= k < D ==> #[trigger] self@[k].sub_req(rhs@[k]),
                forall|k: int| i <= k < D ==> arr@[k] == self@[k],
                forall|k: int| 0 <= k < i ==> subtracts(self@[k], rhs@[k], #[trigger] arr@[k]),
            decreases D - i,
        {
            arr[i] = arr[i] - rhs.0[i];
            i += 1;
        }
        let out = GVec(arr);
        proof {
            if T::obeys_sub_spec() {
                assert(out@ =~= diff(self@, rhs@));
                let chosen = choose|v: Self| v@ == diff(self@, rhs@);
                lemma_view_injective(out, chosen);
            }
        }
        out
    }
}

impl<T: Mul<Output = T> + Copy, const D: usize> vstd::std_specs::ops::MulSpecImpl<T> for GVec<T, D> {
    open spec fn obeys_mul_spec() -> bool {
        T::obeys_mul_spec()
    }

    open spec fn mul_req(self, rhs: T) -> bool {
        forall|i: int| 0 <= i < D ==> #[trigger] self@[i].mul_req(rhs)
    }

    open spec fn mul_spec(self, rhs: T) -> Self {
        choose|out: Self| out@ == scaled(self@, rhs)
    }
}

impl<T: Mul<Output = T> + Copy, const D: usize> Mul<T> for GVec<T, D> {
    type Output = Self;

    /// Every component multiplied by the scalar `rhs`.
    fn mul(self, rhs: T) -> (out: Self)
        ensures
            is_scaled(self@, rhs, out@),
            T::obeys_mul_spec() ==> out@ == scaled(self@, rhs),
    {
        let mut arr = self.0;
        let mut i: usize = 0;
        while i < D
            invariant
                i <= D,
                forall|k: int| 0 <= k < D ==> #[trigger] self@[k].mul_req(rhs),
                forall|k: int| i <= k < D ==> arr@[k] == self@[k],
                forall|k: int| 0 <= k < i ==> multiplies(self@[k], rhs, #[trigger] arr@[k]),
            decreases D - i,
        {
            arr[i] = arr[i] * rhs;
            i += 1;
        }
        let out = GVec(arr);
        proof {
            if T::obeys_mul_spec() {
                assert(out@ =~= scaled(self@, rhs));
                let chosen = choose|v: Self| v@ == scaled(self@, rhs);
                lemma_view_injective(out, chosen);
            }
        }
        out
    }
}

impl<T: Num + Copy + Add<Output = T> + Mul<Output = T>, const D: usize> GVec<T, D> {
    /// The dot product with `rhs`.
    pub fn dot(self, rhs: Self) -> (out: T)
        requires
            dot_defined(self@, rhs@),
        ensures
            is_dot(self@, rhs@, out),
            T::obeys_add_spec() && T::obeys_mul_spec() ==> out == dot_of(self@, rhs@),
    {
        let start: T = zero();
        let mut acc: T = start;
        let mut i: usize = 0;
        while i < D
            invariant
                i <= D,
                self@.len() == D,
                dot_defined(self@, rhs@),
                T::obeys_add_spec() ==> start == zero_of::<T>(),
                is_inner(start, self@, rhs@, i as nat, acc),
                T::obeys_add_spec() && T::obeys_mul_spec() ==> acc == inner(
                    start,
                    self@,
                    rhs@,
                    i as nat,
                ),
            decreases D - i,
        {
            proof {
                if !(total_add::<T>() && total_mul::<T>()) {
                    lemma_inner_req_prefix(start, self@, rhs@, (i + 1) as nat, D as nat);
                }
            }
            let product: T = self.0[i] * rhs.0[i];
            let next: T = acc + product;
            assert(is_inner(start, self@, rhs@, (i + 1) as nat, next));
            acc = next;
            i += 1;
        }
        acc
    }
}

impl<T: Num + Copy + Mul<Output = T> + Neg<Output = T>, const D: usize> GVec<T, D> {
    /// The vector times the negated one of the scalar.
    pub fn neg(self) -> (out: Self)
        requires
            neg_defined(self@),
        ensures
            is_negation(self@, out@),
            T::obeys_mul_spec() && T::obeys_neg_spec() ==> out@ == scaled(
                self@,
                minus_one::<T>(),
            ),
    {
        let unit: T = one();
        let factor: T = unit.neg();
        assert(T::obeys_mul_spec() && T::obeys_neg_spec() ==> factor == minus_one::<T>());
        self * factor
    }
}

impl<
    T: Float + Num + Copy + Add<Output = T> + Mul<Output = T> + Div<Output = T>,
    const D: usize,
> GVec<T, D> {
    /// The Euclidean norm: the square root of the dot product of the vector
    /// with itself, and zero where the vector has no component.
    pub fn norm(self) -> (out: T)
        requires
            dot_defined(self@, self@),
        ensures
            is_norm(self@, out),
    {
        if D >= 1 {
            let squares: T = self.dot(self);
            sqrt(squares)
        } else {
            zero()
        }
    }

    /// The vector scaled by the reciprocal of its norm.
    pub fn normalize(self) -> (out: Self)
        requires
            dot_defined(self@, self@),
            total_div::<T>(),
            total_mul::<T>(),
        ensures
            is_normalized(self@, out@),
    {
        let unit: T = one();
        let length: T = self.norm();
        let factor: T = unit / length;
        self * factor
    }
}

impl<T> GVec<T, 3> {
    /// The vector `(x, y, z)`.
    pub fn new(x: T, y: T, z: T) -> (out: Self)
        ensures
            out@ == seq![x, y, z],
    {
        GVec([x, y, z])
    }
}

impl<T: Num + Copy + Add<Output = T> + Mul<Output = T>> GVec<T, 3> {
    /// The vector whose three components are one zero of the scalar type.
    pub fn zero() -> (out: Self)
        ensures
            is_zero(out@[0]),
            out@ == seq![out@[0], out@[0], out@[0]],
            T::obeys_add_spec() ==> out@[0] == zero_of::<T>(),
    {
        let z: T = zero();
        GVec::<T, 3>::new(z, z, z)
    }

    /// The vector whose three components are one one of the scalar type.
    pub fn one() -> (out: Self)
        ensures
            is_one(out@[0]),
            out@ == seq![out@[0], out@[0], out@[0]],
            T::obeys_mul_spec() ==> out@[0] == one_of::<T>(),
    {
        let o: T = one();
        GVec::<T, 3>::new(o, o, o)
    }
}

impl<T> GVec<T, 2> {
    /// The vector `(x, y)`.
    pub fn new(x: T, y: T) -> (out: Self)
        ensures
            out@ == seq![x, y],
    {
        GVec([x, y])
    }
}

impl<T: Num + Copy + Add<Output = T>> GVec<T, 2> {
    /// The vector whose two components are one zero of the scalar type.
    pub fn zero() -> (out: Self)
        ensures
            is_zero(out@[0]),
            out@ == seq![out@[0], out@[0]],
            T::obeys_add_spec() ==> out@[0] == zero_of::<T>(),
    {
        let z: T = zero();
        GVec::<T, 2>::new(z, z)
    }
}

} // verus!

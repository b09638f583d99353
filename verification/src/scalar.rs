//! What the library asks of its scalars.
//!
//! A scalar is any type with the arithmetic operators. Two kinds of
//! statement are made of a scalar operation:
//!
//! * as a relation: `adds(x, y, out)` says that `out` is a result that
//!   `x + y` may give. It holds of every scalar type, also of one whose
//!   arithmetic is not a function of its operands alone;
//! * as a function: `x.add_spec(y)`, for scalar types whose operators obey
//!   their specifications, as those of the primitive integers do.
//!
//! A relation can only be had by performing the operation, so a contract
//! stated in relations fixes which operations a function performs and on
//! which operands, and leaves open only what the scalar type returns for
//! them.
//!
//! The functions that only a floating-point scalar has (square root, powers,
//! rounding, ...) come from `num_traits::Float`. Nothing is claimed of their
//! results: a contract names the function that a value came from and the
//! argument it was given, through relations such as `is_root`.
//!
//! The functions over a floating-point scalar require the scalar's
//! operators to accept all operands (`total`). That is so of the
//! floating-point types, whose arithmetic never fails, but it is a fact about
//! a scalar type that this library takes from its caller.

use vstd::prelude::*;
use vstd::std_specs::ops::{AddSpec, DivSpec, MulSpec, NegSpec, SubSpec};
use std::ops::{Add, Div, Mul, Neg, Sub};
use num_traits::{Float, Num};

verus! {

/// A scalar with the four arithmetic operators, negation and an order.
pub trait Scalar:
    Copy + PartialOrd + Add<Output = Self> + Sub<Output = Self> + Mul<Output = Self> + Div<
    Output = Self,
> + Neg<Output = Self> {
}

impl<
    T: Copy + PartialOrd + Add<Output = T> + Sub<Output = T> + Mul<Output = T> + Div<Output = T> + Neg<
        Output = T,
    >,
> Scalar for T {
}

/// `out` is a result of `x + y`.
#[verifier::inline]
pub open spec fn adds<T: Add<Output = T>>(x: T, y: T, out: T) -> bool {
    call_ensures(<T as Add>::add, (x, y), out)
}

/// `out` is a result of `x - y`.
#[verifier::inline]
pub open spec fn subtracts<T: Sub<Output = T>>(x: T, y: T, out: T) -> bool {
    call_ensures(<T as Sub>::sub, (x, y), out)
}

/// `out` is a result of `x * y`.
#[verifier::inline]
pub open spec fn multiplies<T: Mul<Output = T>>(x: T, y: T, out: T) -> bool {
    call_ensures(<T as Mul>::mul, (x, y), out)
}

/// `out` is a result of `x / y`.
#[verifier::inline]
pub open spec fn divides<T: Div<Output = T>>(x: T, y: T, out: T) -> bool {
    call_ensures(<T as Div>::div, (x, y), out)
}

/// `out` is a result of `-x`.
#[verifier::inline]
pub open spec fn negates<T: Neg<Output = T>>(x: T, out: T) -> bool {
    call_ensures(<T as Neg>::neg, (x,), out)
}

/// `out` is a result of `x < y`.
#[verifier::inline]
pub open spec fn less<T: PartialOrd>(x: T, y: T, out: bool) -> bool {
    call_ensures(<T as PartialOrd>::lt, (&x, &y), out)
}

/// `out` is a result of `x > y`.
#[verifier::inline]
pub open spec fn greater<T: PartialOrd>(x: T, y: T, out: bool) -> bool {
    call_ensures(<T as PartialOrd>::gt, (&x, &y), out)
}

/// The scalar's addition accepts every pair of operands.
pub open spec fn total_add<T: Add<Output = T>>() -> bool {
    forall|x: T, y: T| #[trigger] x.add_req(y)
}

/// The scalar's subtraction accepts every pair of operands.
pub open spec fn total_sub<T: Sub<Output = T>>() -> bool {
    forall|x: T, y: T| #[trigger] x.sub_req(y)
}

/// The scalar's multiplication accepts every pair of operands.
pub open spec fn total_mul<T: Mul<Output = T>>() -> bool {
    forall|x: T, y: T| #[trigger] x.mul_req(y)
}

/// The scalar's division accepts every pair of operands.
pub open spec fn total_div<T: Div<Output = T>>() -> bool {
    forall|x: T, y: T| #[trigger] x.div_req(y)
}

/// The scalar's negation accepts every operand.
pub open spec fn total_neg<T: Neg<Output = T>>() -> bool {
    forall|x: T| #[trigger] x.neg_req()
}

/// Every arithmetic operator of the scalar accepts all operands, as those
/// of a floating-point type do.
pub open spec fn total<T: Scalar>() -> bool {
    &&& total_add::<T>()
    &&& total_sub::<T>()
    &&& total_mul::<T>()
    &&& total_div::<T>()
    &&& total_neg::<T>()
}

/// `z` is neutral for the scalar's addition, on both sides.
pub open spec fn additive_identity<T: Add<Output = T>>(z: T) -> bool {
    forall|x: T|
        #![trigger x.add_spec(z)]
        #![trigger z.add_spec(x)]
        x.add_spec(z) == x && z.add_spec(x) == x
}

/// `o` is neutral for the scalar's multiplication, on both sides.
pub open spec fn multiplicative_identity<T: Mul<Output = T>>(o: T) -> bool {
    forall|x: T|
        #![trigger x.mul_spec(o)]
        #![trigger o.mul_spec(x)]
        x.mul_spec(o) == x && o.mul_spec(x) == x
}

/// The scalar's zero: its additive identity, where it has one.
pub open spec fn zero_of<T: Add<Output = T>>() -> T {
    choose|z: T| additive_identity(z)
}

/// The scalar's one: its multiplicative identity, where it has one.
pub open spec fn one_of<T: Mul<Output = T>>() -> T {
    choose|o: T| multiplicative_identity(o)
}

/// The scalar's one, negated.
pub open spec fn minus_one<T: Mul<Output = T> + Neg<Output = T>>() -> T {
    one_of::<T>().neg_spec()
}

/// An additive identity is the scalar's zero: there is at most one.
pub proof fn lemma_zero_unique<T: Add<Output = T>>(z: T)
    requires
        additive_identity(z),
    ensures
        zero_of::<T>() == z,
{
    let c = zero_of::<T>();
    assert(z.add_spec(c) == c);
}

/// A multiplicative identity is the scalar's one: there is at most one.
pub proof fn lemma_one_unique<T: Mul<Output = T>>(o: T)
    requires
        multiplicative_identity(o),
    ensures
        one_of::<T>() == o,
{
    let c = one_of::<T>();
    assert(o.mul_spec(c) == c);
}

/// Over `i64`, the scalar's zero is `0` and its one is `1`.
pub proof fn lemma_i64_identities()
    ensures
        zero_of::<i64>() == 0,
        one_of::<i64>() == 1,
        minus_one::<i64>() == -1,
{
    lemma_zero_unique(0i64);
    assert(multiplicative_identity(1i64)) by {
        assert forall|x: i64| x.mul_spec(1i64) == x && 1i64.mul_spec(x) == x by {
            assert(x * 1 == x && 1 * x == x) by (nonlinear_arith);
        }
    }
    lemma_one_unique(1i64);
}

/// The additive identity of `T`, from `num_traits::Zero::zero`. The trait
/// documents the laws `a + 0 = a` and `0 + a = a`; the contract states them
/// for scalars whose addition obeys its specification.
#[verifier::external_body]
fn scalar_zero<T: Num + Add<Output = T>>() -> (z: T)
    ensures
        T::obeys_add_spec() ==> additive_identity(z),
{
    T::zero()
}

/// The multiplicative identity of `T`, from `num_traits::One::one`. The trait
/// documents the laws `a * 1 = a` and `1 * a = a`; the contract states them
/// for scalars whose multiplication obeys its specification.
#[verifier::external_body]
fn scalar_one<T: Num + Mul<Output = T>>() -> (o: T)
    ensures
        T::obeys_mul_spec() ==> multiplicative_identity(o),
{
    T::one()
}

/// The square root of `x`, from `num_traits::Float::sqrt`. Nothing is
/// claimed of the result.
#[verifier::external_body]
fn scalar_sqrt<T: Float>(x: T) -> T {
    x.sqrt()
}

/// The absolute value of `x`, from `num_traits::Float::abs`. Nothing is
/// claimed of the result.
#[verifier::external_body]
fn scalar_abs<T: Float>(x: T) -> T {
    x.abs()
}

/// The greater of `x` and `y`, from `num_traits::Float::max`. Nothing is
/// claimed of the result.
#[verifier::external_body]
fn scalar_max<T: Float>(x: T, y: T) -> T {
    x.max(y)
}

/// The lesser of `x` and `y`, from `num_traits::Float::min`. Nothing is
/// claimed of the result.
#[verifier::external_body]
fn scalar_min<T: Float>(x: T, y: T) -> T {
    x.min(y)
}

/// The sign of `x` as a scalar, from `num_traits::Float::signum`. Nothing is
/// claimed of the result.
#[verifier::external_body]
fn scalar_signum<T: Float>(x: T) -> T {
    x.signum()
}

/// `x` raised to the power `n`, from `num_traits::Float::powf`. Nothing is
/// claimed of the result.
#[verifier::external_body]
fn scalar_powf<T: Float>(x: T, n: T) -> T {
    x.powf(n)
}

/// The tangent of `x`, from `num_traits::Float::tan`. Nothing is claimed of
/// the result.
#[verifier::external_body]
fn scalar_tan<T: Float>(x: T) -> T {
    x.tan()
}

/// The largest whole scalar that is not above `x`, from
/// `num_traits::Float::floor`. Nothing is claimed of the result.
#[verifier::external_body]
fn scalar_floor<T: Float>(x: T) -> T {
    x.floor()
}

/// The whole scalar nearest to `x`, from `num_traits::Float::round`. Nothing
/// is claimed of the result.
#[verifier::external_body]
fn scalar_round<T: Float>(x: T) -> T {
    x.round()
}

/// The largest finite scalar, from `num_traits::Float::max_value`. Nothing
/// is claimed of the result.
#[verifier::external_body]
fn scalar_max_value<T: Float>() -> T {
    T::max_value()
}

/// `x` as an `i32`, from `num_traits::ToPrimitive::to_i32`, which gives
/// nothing where `x` is not in the range of `i32`. Nothing is claimed of the
/// result.
#[verifier::external_body]
fn scalar_to_i32<T: Float>(x: T) -> Option<i32> {
    x.to_i32()
}

/// `x` as a `u8`, from `num_traits::ToPrimitive::to_u8`, which gives nothing
/// where `x` is not in the range of `u8`. Nothing is claimed of the result.
#[verifier::external_body]
fn scalar_to_u8<T: Float>(x: T) -> Option<u8> {
    x.to_u8()
}

/// `z` is a zero that the scalar type hands out.
pub closed spec fn is_zero<T: Num + Add<Output = T>>(z: T) -> bool {
    call_ensures(scalar_zero::<T>, (), z)
}

/// `o` is a one that the scalar type hands out.
pub closed spec fn is_one<T: Num + Mul<Output = T>>(o: T) -> bool {
    call_ensures(scalar_one::<T>, (), o)
}

/// `out` is a result of the scalar's square root on `x`.
pub closed spec fn is_root<T: Float>(x: T, out: T) -> bool {
    call_ensures(scalar_sqrt::<T>, (x,), out)
}

/// `out` is a result of the scalar's absolute value on `x`.
pub closed spec fn is_abs<T: Float>(x: T, out: T) -> bool {
    call_ensures(scalar_abs::<T>, (x,), out)
}

/// `out` is a result of the scalar's maximum on `x` and `y`.
pub closed spec fn is_max<T: Float>(x: T, y: T, out: T) -> bool {
    call_ensures(scalar_max::<T>, (x, y), out)
}

/// `out` is a result of the scalar's minimum on `x` and `y`.
pub closed spec fn is_min<T: Float>(x: T, y: T, out: T) -> bool {
    call_ensures(scalar_min::<T>, (x, y), out)
}

/// `out` is a result of the scalar's sign function on `x`.
pub closed spec fn is_signum<T: Float>(x: T, out: T) -> bool {
    call_ensures(scalar_signum::<T>, (x,), out)
}

/// `out` is a result of raising `x` to the power `n`.
pub closed spec fn is_power<T: Float>(x: T, n: T, out: T) -> bool {
    call_ensures(scalar_powf::<T>, (x, n), out)
}

/// `out` is a result of the scalar's tangent on `x`.
pub closed spec fn is_tangent<T: Float>(x: T, out: T) -> bool {
    call_ensures(scalar_tan::<T>, (x,), out)
}

/// `out` is a result of rounding `x` down to a whole scalar.
pub closed spec fn is_floor<T: Float>(x: T, out: T) -> bool {
    call_ensures(scalar_floor::<T>, (x,), out)
}

/// `out` is a result of rounding `x` to the nearest whole scalar.
pub closed spec fn is_rounded<T: Float>(x: T, out: T) -> bool {
    call_ensures(scalar_round::<T>, (x,), out)
}

/// `out` is a largest finite scalar that the type hands out.
pub closed spec fn is_greatest<T: Float>(out: T) -> bool {
    call_ensures(scalar_max_value::<T>, (), out)
}

/// `out` is a result of converting `x` to an `i32`.
pub closed spec fn is_i32_of<T: Float>(x: T, out: Option<i32>) -> bool {
    call_ensures(scalar_to_i32::<T>, (x,), out)
}

/// `out` is a result of converting `x` to a `u8`.
pub closed spec fn is_u8_of<T: Float>(x: T, out: Option<u8>) -> bool {
    call_ensures(scalar_to_u8::<T>, (x,), out)
}

/// A zero of the scalar type.
pub(crate) fn zero<T: Num + Add<Output = T>>() -> (z: T)
    ensures
        is_zero(z),
        T::obeys_add_spec() ==> z == zero_of::<T>(),
{
    let z: T = scalar_zero();
    proof {
        if T::obeys_add_spec() {
            lemma_zero_unique(z);
        }
    }
    z
}

/// A one of the scalar type.
pub(crate) fn one<T: Num + Mul<Output = T>>() -> (o: T)
    ensures
        is_one(o),
        T::obeys_mul_spec() ==> o == one_of::<T>(),
{
    let o: T = scalar_one();
    proof {
        if T::obeys_mul_spec() {
            lemma_one_unique(o);
        }
    }
    o
}

/// The square root of `x`.
pub(crate) fn sqrt<T: Float>(x: T) -> (out: T)
    ensures
        is_root(x, out),
{
    scalar_sqrt(x)
}

/// The absolute value of `x`.
pub(crate) fn abs<T: Float>(x: T) -> (out: T)
    ensures
        is_abs(x, out),
{
    scalar_abs(x)
}

/// The greater of `x` and `y`.
pub(crate) fn max<T: Float>(x: T, y: T) -> (out: T)
    ensures
        is_max(x, y, out),
{
    scalar_max(x, y)
}

/// The lesser of `x` and `y`.
pub(crate) fn min<T: Float>(x: T, y: T) -> (out: T)
    ensures
        is_min(x, y, out),
{
    scalar_min(x, y)
}

/// The sign of `x` as a scalar.
pub(crate) fn signum<T: Float>(x: T) -> (out: T)
    ensures
        is_signum(x, out),
{
    scalar_signum(x)
}

/// `x` raised to the power `n`.
pub(crate) fn powf<T: Float>(x: T, n: T) -> (out: T)
    ensures
        is_power(x, n, out),
{
    scalar_powf(x, n)
}

/// The tangent of `x`.
pub(crate) fn tan<T: Float>(x: T) -> (out: T)
    ensures
        is_tangent(x, out),
{
    scalar_tan(x)
}

/// `x` rounded down to a whole scalar.
pub(crate) fn floor<T: Float>(x: T) -> (out: T)
    ensures
        is_floor(x, out),
{
    scalar_floor(x)
}

/// `x` rounded to the nearest whole scalar.
pub(crate) fn round<T: Float>(x: T) -> (out: T)
    ensures
        is_rounded(x, out),
{
    scalar_round(x)
}

/// The largest finite scalar.
pub(crate) fn greatest<T: Float>() -> (out: T)
    ensures
        is_greatest(out),
{
    scalar_max_value()
}

/// `x` as an `i32`, where it is in that range.
pub(crate) fn to_i32<T: Float>(x: T) -> (out: Option<i32>)
    ensures
        is_i32_of(x, out),
{
    scalar_to_i32(x)
}

/// `x` as a `u8`, where it is in that range.
pub(crate) fn to_u8<T: Float>(x: T) -> (out: Option<u8>)
    ensures
        is_u8_of(x, out),
{
    scalar_to_u8(x)
}

/// `out` is a scalar for the natural number `n`: a zero for 0, a one for 1,
/// and otherwise a scalar for half of `n` added to itself, plus a one where
/// `n` is odd.
pub open spec fn is_natural<T: Num + Add<Output = T> + Mul<Output = T>>(n: nat, out: T) -> bool
    decreases n,
{
    if n == 0 {
        is_zero(out)
    } else if n == 1 {
        is_one(out)
    } else {
        exists|half: T, twice: T, unit: T|
            #![trigger adds(half, half, twice), adds(twice, unit, out)]
            #![trigger adds(half, half, twice), is_one(unit)]
            {
                &&& is_natural(n / 2, half)
                &&& adds(half, half, twice)
                &&& if n % 2 == 0 {
                    out == twice
                } else {
                    is_one(unit) && adds(twice, unit, out)
                }
            }
    }
}

/// `out` is a scalar for the fraction `p / q`: a scalar for `p` divided by
/// a scalar for `q`.
pub open spec fn is_ratio<T: Num + Add<Output = T> + Mul<Output = T> + Div<Output = T>>(
    p: nat,
    q: nat,
    out: T,
) -> bool {
    exists|above: T, below: T|
        #![trigger divides(above, below, out)]
        is_natural(p, above) && is_natural(q, below) && divides(above, below, out)
}

/// The scalar for the natural number `n`, built from the scalar's zero and
/// one by doubling. It is exact as long as the scalar type represents the
/// whole numbers up to `n` exactly.
pub fn natural<T: Num + Scalar>(n: usize) -> (out: T)
    requires
        total_add::<T>(),
    ensures
        is_natural(n as nat, out),
    decreases n,
{
    if n == 0 {
        zero()
    } else if n == 1 {
        one()
    } else {
        let half: T = natural(n / 2);
        let twice: T = half + half;
        if n % 2 == 0 {
            twice
        } else {
            let unit: T = one();
            twice + unit
        }
    }
}

/// The scalar for the fraction `p / q`.
pub fn ratio<T: Num + Scalar>(p: usize, q: usize) -> (out: T)
    requires
        total_add::<T>(),
        total_div::<T>(),
    ensures
        is_ratio(p as nat, q as nat, out),
{
    let above: T = natural(p);
    let below: T = natural(q);
    above / below
}

} // verus!

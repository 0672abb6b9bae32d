//! Token amounts.
//!
//! Amounts are unbounded natural numbers, held in `num_bigint::BigUint`. Verus
//! sees a `BigUint` only through the digits that `BigUint::to_u64_digits`
//! returns; `val` reads them as a natural number. The handful of operations
//! that the staking logic needs are the wrappers below.
use num_bigint::BigUint;
use vstd::prelude::*;

verus! {

#[verifier::external_type_specification]
#[verifier::external_body]
pub struct ExBigUint(num_bigint::BigUint);

/// The base-2^64 digits of `n`, least significant first, without leading
/// zeros: the value that `n` holds, in the form `BigUint::to_u64_digits`
/// would give it. The wrappers below state their results through it; none of
/// them calls `to_u64_digits`.
pub uninterp spec fn u64_digits(n: BigUint) -> Seq<u64>;

/// The number that a little-endian sequence of base-2^64 digits denotes.
pub open spec fn digits_value(d: Seq<u64>) -> nat
    decreases d.len(),
{
    if d.len() == 0 {
        0
    } else {
        d[0] as nat + 0x1_0000_0000_0000_0000nat * digits_value(d.drop_first())
    }
}

/// The value of an amount.
pub open spec fn val(n: BigUint) -> nat {
    digits_value(u64_digits(n))
}

/// `BigUint::from(u64)`: the amount whose value is `x`.
#[verifier::external_body]
pub(crate) fn big_from_u64(x: u64) -> (r: BigUint)
    ensures
        digits_value(u64_digits(r)) == x,
{
    BigUint::from(x)
}

/// `&a + &b`: the sum of the two values.
#[verifier::external_body]
pub(crate) fn big_add(a: &BigUint, b: &BigUint) -> (r: BigUint)
    ensures
        digits_value(u64_digits(r)) == digits_value(u64_digits(*a)) + digits_value(u64_digits(*b)),
{
    a + b
}

/// `&a - &b`, which panics when `b` exceeds `a`: the difference of the values.
#[verifier::external_body]
pub(crate) fn big_sub(a: &BigUint, b: &BigUint) -> (r: BigUint)
    requires
        digits_value(u64_digits(*b)) <= digits_value(u64_digits(*a)),
    ensures
        digits_value(u64_digits(r)) == digits_value(u64_digits(*a)) - digits_value(u64_digits(*b)),
{
    a - b
}

/// `&a * &b`: the product of the values.
#[verifier::external_body]
pub(crate) fn big_mul(a: &BigUint, b: &BigUint) -> (r: BigUint)
    ensures
        digits_value(u64_digits(r)) == digits_value(u64_digits(*a)) * digits_value(u64_digits(*b)),
{
    a * b
}

/// `&a / &b`, which panics when `b` is zero: the quotient rounded down.
#[verifier::external_body]
pub(crate) fn big_div(a: &BigUint, b: &BigUint) -> (r: BigUint)
    requires
        digits_value(u64_digits(*b)) != 0,
    ensures
        digits_value(u64_digits(r)) == digits_value(u64_digits(*a)) / digits_value(u64_digits(*b)),
{
    a / b
}

/// `a <= b` (`PartialOrd`): whether the first value is at most the second.
#[verifier::external_body]
pub(crate) fn big_le(a: &BigUint, b: &BigUint) -> (r: bool)
    ensures
        r == (digits_value(u64_digits(*a)) <= digits_value(u64_digits(*b))),
{
    a <= b
}

/// `a == b` (`PartialEq`): whether the two values are equal.
#[verifier::external_body]
pub(crate) fn big_eq(a: &BigUint, b: &BigUint) -> (r: bool)
    ensures
        r == (digits_value(u64_digits(*a)) == digits_value(u64_digits(*b))),
{
    a == b
}

/// `BigUint::clone`: an amount with the same value.
#[verifier::external_body]
pub(crate) fn big_clone(a: &BigUint) -> (r: BigUint)
    ensures
        digits_value(u64_digits(r)) == digits_value(u64_digits(*a)),
{
    a.clone()
}

/// The amount zero.
pub(crate) fn big_zero() -> (r: BigUint)
    ensures
        val(r) == 0,
{
    big_from_u64(0)
}

/// Whether an amount is zero.
pub(crate) fn big_is_zero(a: &BigUint) -> (r: bool)
    ensures
        r == (val(*a) == 0),
{
    let z = big_zero();
    big_eq(a, &z)
}

} // verus!

use vstd::prelude::*;
use rustc_apfloat::Float;

verus! {

/// Floating-point values travel through the interpreter as their raw IEEE-754
/// binary64 bit patterns, so that the verified core never touches a float
/// type. The arithmetic itself is done by `rustc_apfloat`, a
/// software implementation of IEEE-754 binary64 whose default rounding
/// (nearest, ties to even) matches hardware `f64` arithmetic.
pub uninterp spec fn float_add_of(a: u64, b: u64) -> u64;

pub uninterp spec fn float_sub_of(a: u64, b: u64) -> u64;

pub uninterp spec fn float_mul_of(a: u64, b: u64) -> u64;

pub uninterp spec fn float_div_of(a: u64, b: u64) -> u64;

/// IEEE-754 equality on bit patterns: NaN compares equal to nothing,
/// and the two zeroes compare equal to each other.
pub uninterp spec fn float_eq_of(a: u64, b: u64) -> bool;

/// IEEE-754 less-than on bit patterns; false whenever either side is NaN.
pub uninterp spec fn float_lt_of(a: u64, b: u64) -> bool;

/// Relies on rustc_apfloat's `ops::Add for ieee::Double` (round to nearest,
/// ties to even): the sum of two binary64 values, as bit patterns.
#[verifier::external_body]
pub fn float_add(a: u64, b: u64) -> (r: u64)
    ensures
        r == float_add_of(a, b),
{
    (rustc_apfloat::ieee::Double::from_bits(a as u128)
        + rustc_apfloat::ieee::Double::from_bits(b as u128)).value.to_bits() as u64
}

/// Relies on rustc_apfloat's `ops::Sub for ieee::Double`: the difference of
/// two binary64 values, as bit patterns.
#[verifier::external_body]
pub fn float_sub(a: u64, b: u64) -> (r: u64)
    ensures
        r == float_sub_of(a, b),
{
    (rustc_apfloat::ieee::Double::from_bits(a as u128)
        - rustc_apfloat::ieee::Double::from_bits(b as u128)).value.to_bits() as u64
}

/// Relies on rustc_apfloat's `ops::Mul for ieee::Double`: the product of two
/// binary64 values, as bit patterns.
#[verifier::external_body]
pub fn float_mul(a: u64, b: u64) -> (r: u64)
    ensures
        r == float_mul_of(a, b),
{
    (rustc_apfloat::ieee::Double::from_bits(a as u128)
        * rustc_apfloat::ieee::Double::from_bits(b as u128)).value.to_bits() as u64
}

/// Relies on rustc_apfloat's `ops::Div for ieee::Double`: the quotient of two
/// binary64 values, as bit patterns.
#[verifier::external_body]
pub fn float_div(a: u64, b: u64) -> (r: u64)
    ensures
        r == float_div_of(a, b),
{
    (rustc_apfloat::ieee::Double::from_bits(a as u128)
        / rustc_apfloat::ieee::Double::from_bits(b as u128)).value.to_bits() as u64
}

/// Relies on rustc_apfloat's `PartialEq for ieee::Double`, which is IEEE-754
/// equality (NaN is equal to nothing; -0.0 equals +0.0).
#[verifier::external_body]
pub fn float_eq(a: u64, b: u64) -> (r: bool)
    ensures
        r == float_eq_of(a, b),
{
    rustc_apfloat::ieee::Double::from_bits(a as u128)
        == rustc_apfloat::ieee::Double::from_bits(b as u128)
}

/// Relies on rustc_apfloat's `PartialOrd::lt for ieee::Double`, which is
/// IEEE-754 ordered less-than (false whenever either operand is NaN).
#[verifier::external_body]
pub fn float_lt(a: u64, b: u64) -> (r: bool)
    ensures
        r == float_lt_of(a, b),
{
    rustc_apfloat::ieee::Double::from_bits(a as u128)
        < rustc_apfloat::ieee::Double::from_bits(b as u128)
}

/// The bit pattern of 1.0.
pub const FLOAT_ONE_BITS: u64 = 0x3FF0_0000_0000_0000;

/// The sign bit of a binary64 value.
pub const FLOAT_SIGN_BIT: u64 = 0x8000_0000_0000_0000;

/// IEEE-754 negation is exactly a flip of the sign bit, so it needs no
/// outside arithmetic.
pub open spec fn float_neg_of(a: u64) -> u64 {
    a ^ FLOAT_SIGN_BIT
}

pub fn float_neg(a: u64) -> (r: u64)
    ensures
        r == float_neg_of(a),
{
    a ^ FLOAT_SIGN_BIT
}

/// Raising a binary64 value to a non-negative integer power by repeated
/// multiplication, starting from 1.0.
pub open spec fn float_pow_of(base: u64, e: nat) -> u64
    decreases e,
{
    if e == 0 {
        FLOAT_ONE_BITS
    } else {
        float_mul_of(float_pow_of(base, (e - 1) as nat), base)
    }
}

pub fn float_pow(base: u64, e: u32) -> (r: u64)
    ensures
        r == float_pow_of(base, e as nat),
{
    let mut acc: u64 = FLOAT_ONE_BITS;
    let mut i: u32 = 0;
    while i < e
        invariant
            i <= e,
            acc == float_pow_of(base, i as nat),
        decreases e - i,
    {
        acc = float_mul(acc, base);
        i = i + 1;
    }
    acc
}

} // verus!

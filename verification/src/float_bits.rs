use rustc_apfloat::Float;
use vstd::prelude::*;

verus! {

// The renderers do their numeric work in IEEE 754 single-precision
// arithmetic. Verified code carries such values as their 32-bit patterns
// (sign, 8 exponent bits, 23 significand bits) and reasons about them
// through the spec functions below. The rounded result of an arithmetic
// operation is a function of the operand bit patterns alone, so each
// operation is named by an uninterpreted spec function that its trusted
// wrapper applies. The transcendental functions come from the libm crate,
// which computes them in pure Rust: their results are functions of the
// argument bits too, so they carry names of their own, and beyond NaN
// propagation nothing is assumed of their values.

/// A bit pattern denotes a NaN when the exponent field is all ones and the
/// significand field is non-zero.
pub open spec fn is_nan_bits(a: u32) -> bool {
    a & 0x7F80_0000 == 0x7F80_0000 && a & 0x007F_FFFF != 0
}

/// Order key of a non-NaN pattern: non-negative values keep their magnitude,
/// negative values order below them by descending magnitude. Both zero
/// patterns map to 0, so +0 and -0 compare equal.
pub open spec fn order_key_bits(a: u32) -> int {
    if a & 0x8000_0000 == 0 {
        a as int
    } else {
        -((a & 0x7FFF_FFFF) as int)
    }
}

/// IEEE `<`: false when either side is a NaN, else sign-magnitude order.
pub open spec fn lt_bits(a: u32, b: u32) -> bool {
    &&& !is_nan_bits(a)
    &&& !is_nan_bits(b)
    &&& order_key_bits(a) < order_key_bits(b)
}

/// IEEE `<=`: false when either side is a NaN, else sign-magnitude order.
pub open spec fn le_bits(a: u32, b: u32) -> bool {
    &&& !is_nan_bits(a)
    &&& !is_nan_bits(b)
    &&& order_key_bits(a) <= order_key_bits(b)
}

/// Absolute value: the sign bit cleared. A NaN stays a NaN.
pub open spec fn abs_bits(a: u32) -> u32 {
    a & 0x7FFF_FFFF
}

/// Clearing the sign bit touches neither the exponent nor the significand.
pub proof fn lemma_abs_keeps_nan(a: u32)
    ensures
        is_nan_bits(abs_bits(a)) == is_nan_bits(a),
{
    assert(((a & 0x7FFF_FFFF) & 0x7F80_0000 == 0x7F80_0000 && (a & 0x7FFF_FFFF) & 0x007F_FFFF != 0)
        == (a & 0x7F80_0000 == 0x7F80_0000 && a & 0x007F_FFFF != 0)) by (bit_vector);
}

/// Tests the exponent and significand fields of a bit pattern.
pub fn f32_is_nan(a: u32) -> (r: bool)
    ensures
        r == is_nan_bits(a),
{
    a & 0x7F80_0000 == 0x7F80_0000 && a & 0x007F_FFFF != 0
}

/// Absolute value on bit patterns.
pub fn f32_abs(a: u32) -> (r: u32)
    ensures
        r == abs_bits(a),
{
    a & 0x7FFF_FFFF
}

/// IEEE `<` computed on bit patterns.
pub fn f32_lt(a: u32, b: u32) -> (r: bool)
    ensures
        r == lt_bits(a, b),
{
    if f32_is_nan(a) || f32_is_nan(b) {
        false
    } else {
        let neg_a = a & 0x8000_0000 != 0;
        let neg_b = b & 0x8000_0000 != 0;
        if neg_a && neg_b {
            (b & 0x7FFF_FFFF) < (a & 0x7FFF_FFFF)
        } else if !neg_a && !neg_b {
            a < b
        } else if neg_a {
            // a is at most -0, b at least +0: strictly below unless both are zero
            (a & 0x7FFF_FFFF) != 0 || b != 0
        } else {
            false
        }
    }
}

/// IEEE `<=` computed on bit patterns.
pub fn f32_le(a: u32, b: u32) -> (r: bool)
    ensures
        r == le_bits(a, b),
{
    if f32_is_nan(a) || f32_is_nan(b) {
        false
    } else {
        let neg_a = a & 0x8000_0000 != 0;
        let neg_b = b & 0x8000_0000 != 0;
        if neg_a && neg_b {
            (b & 0x7FFF_FFFF) <= (a & 0x7FFF_FFFF)
        } else if !neg_a && !neg_b {
            a <= b
        } else if neg_a {
            true
        } else {
            // a is at least +0, b at most -0: only the two zeros compare
            a == 0 && (b & 0x7FFF_FFFF) == 0
        }
    }
}

/// The pattern of the IEEE single-precision product of the two operand patterns.
pub uninterp spec fn f32_mul_bits(a: u32, b: u32) -> u32;

/// The pattern of the IEEE single-precision difference of the two operand patterns.
pub uninterp spec fn f32_sub_bits(a: u32, b: u32) -> u32;

/// The pattern of the IEEE single-precision quotient of the two operand patterns.
pub uninterp spec fn f32_div_bits(a: u32, b: u32) -> u32;

/// The pattern of the single-precision value nearest to the integer i (exact for small i).
pub uninterp spec fn f32_of_i32_bits(i: int) -> u32;

/// The pattern that `libm::cosf` computes for the argument pattern.
pub uninterp spec fn cos_bits(a: u32) -> u32;

/// The pattern that `libm::sinf` computes for the argument pattern.
pub uninterp spec fn sin_bits(a: u32) -> u32;

/// The pattern that `libm::tanf` computes for the argument pattern.
pub uninterp spec fn tan_bits(a: u32) -> u32;

/// The pattern that `libm::atanf` computes for the argument pattern.
pub uninterp spec fn atan_bits(a: u32) -> u32;

/// The pattern that `libm::hypotf` computes for two argument patterns: the
/// magnitude sqrt(x*x + y*y), computed without overflow on the way.
pub uninterp spec fn hypot_bits(x: u32, y: u32) -> u32;

/// Relies on `rustc_apfloat::ieee::Single` multiplication: the correctly
/// rounded IEEE 754 product, a function of the operand bit patterns alone.
#[verifier::external_body]
pub(crate) fn f32_mul(a: u32, b: u32) -> (r: u32)
    ensures
        r == f32_mul_bits(a, b),
{
    let x = rustc_apfloat::ieee::Single::from_bits(a as u128);
    let y = rustc_apfloat::ieee::Single::from_bits(b as u128);
    (x * y).value.to_bits() as u32
}

/// Relies on `rustc_apfloat::ieee::Single` subtraction: the correctly
/// rounded IEEE 754 difference, a function of the operand bit patterns
/// alone, and a NaN operand propagates to a NaN result.
#[verifier::external_body]
pub(crate) fn f32_sub(a: u32, b: u32) -> (r: u32)
    ensures
        r == f32_sub_bits(a, b),
        is_nan_bits(a) || is_nan_bits(b) ==> is_nan_bits(r),
{
    let x = rustc_apfloat::ieee::Single::from_bits(a as u128);
    let y = rustc_apfloat::ieee::Single::from_bits(b as u128);
    (x - y).value.to_bits() as u32
}

/// Relies on `rustc_apfloat::ieee::Single` division: the correctly rounded
/// IEEE 754 quotient, a function of the operand bit patterns alone; a NaN
/// operand propagates, and zero divided by zero is invalid, hence a NaN.
#[verifier::external_body]
pub(crate) fn f32_div(a: u32, b: u32) -> (r: u32)
    ensures
        r == f32_div_bits(a, b),
        is_nan_bits(a) || is_nan_bits(b) ==> is_nan_bits(r),
        (a == 0 || a == 0x8000_0000) && (b == 0 || b == 0x8000_0000) ==> is_nan_bits(r),
{
    let x = rustc_apfloat::ieee::Single::from_bits(a as u128);
    let y = rustc_apfloat::ieee::Single::from_bits(b as u128);
    (x / y).value.to_bits() as u32
}

/// Relies on `rustc_apfloat::ieee::Single::from_i128`: IEEE 754 conversion
/// to the nearest representable value, a function of the integer alone;
/// zero converts to +0.
#[verifier::external_body]
pub(crate) fn f32_of_i32(i: i32) -> (r: u32)
    ensures
        r == f32_of_i32_bits(i as int),
        i == 0 ==> r == 0,
{
    rustc_apfloat::ieee::Single::from_i128(i as i128).value.to_bits() as u32
}

/// Relies on `libm::hypotf`: pure Rust, so its result is a function of the
/// argument bit patterns alone; an infinite argument gives positive
/// infinity, and a NaN argument (with the other finite) gives a NaN.
#[verifier::external_body]
pub(crate) fn f32_hypot(x: u32, y: u32) -> (r: u32)
    ensures
        r == hypot_bits(x, y),
{
    bytemuck::cast(libm::hypotf(bytemuck::cast(x), bytemuck::cast(y)))
}

/// Relies on `libm::cosf`: pure Rust, so its result is a function of the
/// argument bit pattern alone, and an infinity or a NaN gives a NaN.
#[verifier::external_body]
pub(crate) fn f32_cos(a: u32) -> (r: u32)
    ensures
        r == cos_bits(a),
        is_nan_bits(a) ==> is_nan_bits(r),
{
    bytemuck::cast(libm::cosf(bytemuck::cast(a)))
}

/// Relies on `libm::sinf`: pure Rust, so its result is a function of the
/// argument bit pattern alone, and an infinity or a NaN gives a NaN.
#[verifier::external_body]
pub(crate) fn f32_sin(a: u32) -> (r: u32)
    ensures
        r == sin_bits(a),
        is_nan_bits(a) ==> is_nan_bits(r),
{
    bytemuck::cast(libm::sinf(bytemuck::cast(a)))
}

/// Relies on `libm::tanf`: pure Rust, so its result is a function of the
/// argument bit pattern alone, and an infinity or a NaN gives a NaN.
#[verifier::external_body]
pub(crate) fn f32_tan(a: u32) -> (r: u32)
    ensures
        r == tan_bits(a),
        is_nan_bits(a) ==> is_nan_bits(r),
{
    bytemuck::cast(libm::tanf(bytemuck::cast(a)))
}

/// Relies on `libm::atanf`: pure Rust, so its result is a function of the
/// argument bit pattern alone, and a NaN argument comes back unchanged.
#[verifier::external_body]
pub(crate) fn f32_atan(a: u32) -> (r: u32)
    ensures
        r == atan_bits(a),
        is_nan_bits(a) ==> is_nan_bits(r),
{
    bytemuck::cast(libm::atanf(bytemuck::cast(a)))
}

} // verus!

//! Order of IEEE-754 binary32 values, decided on their bit patterns.
//!
//! A bit pattern has a sign bit, eight exponent bits and twenty-three
//! fraction bits. Patterns whose magnitude lies above that of infinity are
//! not numbers. All others are ordered by [`rank`], under which the two
//! zeros are equal.

use vstd::prelude::*;

verus! {

/// The bit pattern of positive zero.
pub const ZERO: u32 = 0;

/// The bit pattern of positive infinity.
pub const INFINITY: u32 = 0x7f80_0000;

/// The bit pattern of negative infinity.
pub const NEG_INFINITY: u32 = 0xff80_0000;

/// The sign bit of a pattern.
pub const SIGN_BIT: u32 = 0x8000_0000;

/// The pattern without its sign bit.
pub open spec fn magnitude(bits: u32) -> u32 {
    if bits >= SIGN_BIT {
        (bits - SIGN_BIT) as u32
    } else {
        bits
    }
}

/// Whether the sign bit is set.
pub open spec fn is_negative(bits: u32) -> bool {
    bits >= SIGN_BIT
}

/// Whether the pattern is not a number.
pub open spec fn is_nan(bits: u32) -> bool {
    magnitude(bits) > INFINITY
}

/// An integer that orders the numbers as their values are ordered.
pub open spec fn rank(bits: u32) -> int {
    if is_negative(bits) {
        -(magnitude(bits) as int)
    } else {
        magnitude(bits) as int
    }
}

/// `a < b` as values: false whenever one of them is not a number.
pub open spec fn less(a: u32, b: u32) -> bool {
    !is_nan(a) && !is_nan(b) && rank(a) < rank(b)
}

/// `a <= b` as values: false whenever one of them is not a number.
pub open spec fn less_eq(a: u32, b: u32) -> bool {
    !is_nan(a) && !is_nan(b) && rank(a) <= rank(b)
}

/// The lesser of two values. If one is not a number the other is returned;
/// of two values that compare equal the first is returned.
pub open spec fn minimum(a: u32, b: u32) -> u32 {
    if is_nan(a) {
        b
    } else if is_nan(b) {
        a
    } else if rank(b) < rank(a) {
        b
    } else {
        a
    }
}

/// The greater of two values. If one is not a number the other is returned;
/// of two values that compare equal the first is returned.
pub open spec fn maximum(a: u32, b: u32) -> u32 {
    if is_nan(a) {
        b
    } else if is_nan(b) {
        a
    } else if rank(a) < rank(b) {
        b
    } else {
        a
    }
}

/// The pattern with its sign bit cleared.
pub fn abs(bits: u32) -> (m: u32)
    ensures
        m == magnitude(bits),
{
    if bits >= SIGN_BIT {
        bits - SIGN_BIT
    } else {
        bits
    }
}

/// Decides [`is_nan`].
pub fn nan(bits: u32) -> (r: bool)
    ensures
        r == is_nan(bits),
{
    abs(bits) > INFINITY
}

fn rank_of(bits: u32) -> (r: i64)
    ensures
        r == rank(bits),
{
    let m: i64 = abs(bits) as i64;
    if bits >= SIGN_BIT {
        -m
    } else {
        m
    }
}

/// Decides [`less`].
pub fn lt(a: u32, b: u32) -> (r: bool)
    ensures
        r == less(a, b),
{
    !nan(a) && !nan(b) && rank_of(a) < rank_of(b)
}

/// Decides [`less_eq`].
pub fn le(a: u32, b: u32) -> (r: bool)
    ensures
        r == less_eq(a, b),
{
    !nan(a) && !nan(b) && rank_of(a) <= rank_of(b)
}

/// Computes [`minimum`].
pub fn min(a: u32, b: u32) -> (r: u32)
    ensures
        r == minimum(a, b),
{
    if nan(a) {
        b
    } else if nan(b) {
        a
    } else if rank_of(b) < rank_of(a) {
        b
    } else {
        a
    }
}

/// Computes [`maximum`].
pub fn max(a: u32, b: u32) -> (r: u32)
    ensures
        r == maximum(a, b),
{
    if nan(a) {
        b
    } else if nan(b) {
        a
    } else if rank_of(a) < rank_of(b) {
        b
    } else {
        a
    }
}

/// Among numbers, `less_eq` is a total preorder and `minimum` and `maximum`
/// pick the bounds of a pair.
pub proof fn lemma_order(a: u32, b: u32, c: u32)
    requires
        !is_nan(a),
        !is_nan(b),
        !is_nan(c),
    ensures
        less_eq(a, a),
        less_eq(a, b) || less_eq(b, a),
        less_eq(a, b) && less_eq(b, c) ==> less_eq(a, c),
        less_eq(minimum(a, b), a) && less_eq(minimum(a, b), b),
        less_eq(a, maximum(a, b)) && less_eq(b, maximum(a, b)),
        minimum(a, b) == a || minimum(a, b) == b,
        maximum(a, b) == a || maximum(a, b) == b,
{
}

} // verus!

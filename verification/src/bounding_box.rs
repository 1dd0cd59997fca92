//! The ordering behind a bounding box's median size.
//!
//! A box's median size is twice the middle one of its three half-extents,
//! where the extents are ordered by the IEEE 754 `totalOrder` predicate
//! (`f32::total_cmp`), so that a NaN extent cannot make the choice fail. The
//! extents are handled here as their `f32` bit patterns.
use vstd::prelude::*;

verus! {

/// Whether the sign bit of a binary32 bit pattern is set.
pub open spec fn sign_set(bits: u32) -> bool {
    bits >= 0x8000_0000
}

/// IEEE 754 `totalOrder` on binary32 bit patterns: every value with the sign
/// bit set comes before every value without it; among values without it a
/// larger pattern is larger, among values with it a larger pattern is
/// smaller. (`-NaN < -inf < ... < -0 < +0 < ... < +inf < +NaN`.)
pub open spec fn total_le(a: u32, b: u32) -> bool {
    if sign_set(a) != sign_set(b) {
        sign_set(a)
    } else if !sign_set(a) {
        a <= b
    } else {
        a >= b
    }
}

/// `m` lies between `x` and `y` in the total order.
pub open spec fn between(x: u32, m: u32, y: u32) -> bool {
    (total_le(x, m) && total_le(m, y)) || (total_le(y, m) && total_le(m, x))
}

/// `m` is the middle one of `a`, `b`, `c` in the total order: one of them,
/// and between the other two.
pub open spec fn is_middle(a: u32, b: u32, c: u32, m: u32) -> bool {
    ||| (m == a && between(b, a, c))
    ||| (m == b && between(a, b, c))
    ||| (m == c && between(a, c, b))
}

/// `total_le(a, b)`, computed.
pub fn total_le_bits(a: u32, b: u32) -> (r: bool)
    ensures
        r == total_le(a, b),
{
    let sa = a >= 0x8000_0000u32;
    let sb = b >= 0x8000_0000u32;
    if sa != sb {
        sa
    } else if !sa {
        a <= b
    } else {
        a >= b
    }
}

/// The middle one of three binary32 bit patterns in the `totalOrder`
/// predicate: the element at index 1 once the three are sorted with
/// `f32::total_cmp`.
pub fn median_by_total_order(a: u32, b: u32, c: u32) -> (m: u32)
    ensures
        is_middle(a, b, c, m),
{
    if total_le_bits(a, b) {
        if total_le_bits(b, c) {
            b
        } else if total_le_bits(a, c) {
            c
        } else {
            a
        }
    } else {
        if total_le_bits(a, c) {
            a
        } else if total_le_bits(b, c) {
            c
        } else {
            b
        }
    }
}

/// `totalOrder` is a total order on bit patterns: reflexive, antisymmetric,
/// transitive and total.
pub proof fn law_total_order(a: u32, b: u32, c: u32)
    ensures
        total_le(a, a),
        total_le(a, b) && total_le(b, a) ==> a == b,
        total_le(a, b) && total_le(b, c) ==> total_le(a, c),
        total_le(a, b) || total_le(b, a),
{
}

/// The middle of three values is unique: the median does not depend on how
/// the three extents were listed, and is always one of them.
pub proof fn law_median_unique(a: u32, b: u32, c: u32, m1: u32, m2: u32)
    requires
        is_middle(a, b, c, m1),
        is_middle(a, b, c, m2),
    ensures
        m1 == m2,
        m1 == a || m1 == b || m1 == c,
{
}

/// Listing the three values in another order gives the same middle value.
pub proof fn law_median_symmetric(a: u32, b: u32, c: u32, m: u32)
    requires
        is_middle(a, b, c, m),
    ensures
        is_middle(b, a, c, m),
        is_middle(a, c, b, m),
        is_middle(c, b, a, m),
{
}

} // verus!

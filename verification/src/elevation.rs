//! Order on elevations. An elevation is a single-precision number held by
//! its bit pattern; comparing two of them takes no arithmetic.

use crate::config::{in_unit_interval, ONE_BITS};
use vstd::prelude::*;

verus! {

/// Whether a bit pattern is not a number: its exponent field is all ones
/// and its fraction is not zero.
pub open spec fn is_nan(bits: u32) -> bool {
    bits % 0x8000_0000 > 0x7F80_0000
}

/// Decides whether a bit pattern is not a number.
pub fn nan(bits: u32) -> (not_a_number: bool)
    ensures
        not_a_number == is_nan(bits),
{
    bits % 0x8000_0000 > 0x7F80_0000
}

/// The rank of an elevation among all elevations, from its bit pattern.
/// A number that is not negative has its sign bit clear, and such patterns
/// are ordered as the numbers are; with the sign bit set, a greater pattern
/// is a lower number. Both zeros share one rank, so that two elevations that
/// are numbers compare as their ranks do.
pub open spec fn elevation_key(bits: u32) -> int {
    if bits < 0x8000_0000 {
        0x8000_0000 + bits
    } else {
        0x1_0000_0000 - bits
    }
}

/// Computes the rank of an elevation.
pub fn elevation_rank(bits: u32) -> (rank: u32)
    ensures
        rank == elevation_key(bits),
        rank >= 1,
{
    if bits < 0x8000_0000 {
        0x8000_0000 + bits
    } else {
        (0xFFFF_FFFF - bits) + 1
    }
}

/// The higher of two elevations. What is not a number is passed over, and
/// of two that are equal the first is taken.
pub open spec fn higher_of(a: u32, b: u32) -> u32 {
    if is_nan(a) {
        b
    } else if is_nan(b) {
        a
    } else if elevation_key(b) > elevation_key(a) {
        b
    } else {
        a
    }
}

/// An elevation brought into [0, 1]: 0 if it is lower, 1 if it is higher,
/// else itself. What is not a number stays as it is.
pub open spec fn clamped(bits: u32) -> u32 {
    if is_nan(bits) {
        bits
    } else if elevation_key(bits) < elevation_key(0) {
        0
    } else if elevation_key(bits) > elevation_key(ONE_BITS) {
        ONE_BITS
    } else {
        bits
    }
}

/// The elevation of a cell after a feature that reaches up to `target` was
/// stamped on it: the higher of the two, brought into [0, 1].
pub open spec fn raised(old: u32, target: u32) -> u32 {
    clamped(higher_of(old, target))
}

/// Returns the higher of two elevations.
pub fn higher(a: u32, b: u32) -> (top: u32)
    ensures
        top == higher_of(a, b),
{
    if nan(a) {
        b
    } else if nan(b) {
        a
    } else if elevation_rank(b) > elevation_rank(a) {
        b
    } else {
        a
    }
}

/// Brings an elevation into [0, 1].
pub fn clamp_unit(bits: u32) -> (inside: u32)
    ensures
        inside == clamped(bits),
        !is_nan(bits) ==> in_unit_interval(inside),
{
    if nan(bits) {
        bits
    } else if elevation_rank(bits) < elevation_rank(0) {
        0
    } else if elevation_rank(bits) > elevation_rank(ONE_BITS) {
        ONE_BITS
    } else {
        bits
    }
}

/// Stamps a feature that reaches up to `target` on a cell.
pub fn raise_to(old: u32, target: u32) -> (new: u32)
    ensures
        new == raised(old, target),
{
    clamp_unit(higher(old, target))
}

/// Stamping only raises: a cell whose elevation lies in [0, 1] keeps it
/// unless the target is higher, and then takes the target, brought into
/// [0, 1]. Either way the new elevation lies in [0, 1] and is not lower
/// than the old one.
pub proof fn lemma_stamp_only_raises(old: u32, target: u32)
    requires
        in_unit_interval(old),
    ensures
        in_unit_interval(raised(old, target)),
        elevation_key(raised(old, target)) >= elevation_key(old),
        is_nan(target) || elevation_key(target) <= elevation_key(old) ==> raised(old, target)
            == old,
        !is_nan(target) && elevation_key(target) > elevation_key(old) ==> raised(old, target)
            == clamped(target),
{
}

} // verus!

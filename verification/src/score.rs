//! Order of similarity scores held as IEEE 754 single-precision bit patterns.
//!
//! A bit pattern has a sign bit and 31 bits of magnitude. Among patterns that
//! encode numbers, a larger magnitude encodes a number further from zero, so the
//! signed magnitude orders the patterns exactly as the numbers they encode, with
//! the two zeros equal. Patterns that encode no number are placed below all others.

use vstd::prelude::*;

verus! {

/// The sign bit of a pattern.
pub const SIGN_BIT: u32 = 0x8000_0000;

/// Magnitude of the two infinities; every greater magnitude encodes no number.
pub const INFINITY_MAGNITUDE: u32 = 0x7f80_0000;

/// Whether the sign bit of `bits` is set.
pub open spec fn is_negative(bits: u32) -> bool {
    bits >= SIGN_BIT
}

/// The pattern without its sign bit.
pub open spec fn magnitude(bits: u32) -> int {
    if bits >= SIGN_BIT {
        bits - SIGN_BIT
    } else {
        bits as int
    }
}

/// Whether `bits` encodes no number.
pub open spec fn is_nan(bits: u32) -> bool {
    magnitude(bits) > INFINITY_MAGNITUDE
}

/// Place of a score on the line by which results are ordered: the signed
/// magnitude for a number, and one step below negative infinity otherwise.
pub open spec fn score_order(bits: u32) -> int {
    if is_nan(bits) {
        -(INFINITY_MAGNITUDE as int) - 1
    } else if is_negative(bits) {
        -magnitude(bits)
    } else {
        magnitude(bits)
    }
}

/// Numbers lie between the two infinities, the two zeros lie together at 0, and
/// what is no number lies below negative infinity.
pub proof fn lemma_score_order_range(bits: u32)
    ensures
        !is_nan(bits) ==> -(INFINITY_MAGNITUDE as int) <= score_order(bits) <= INFINITY_MAGNITUDE,
        is_nan(bits) ==> score_order(bits) < -(INFINITY_MAGNITUDE as int),
        magnitude(bits) == 0 ==> score_order(bits) == 0,
        score_order(bits) == 0 ==> magnitude(bits) == 0,
{
}

/// Two patterns that encode numbers lie at the same place only if they are
/// the same pattern or the two zeros.
pub proof fn lemma_score_order_tells_numbers_apart(a: u32, b: u32)
    requires
        !is_nan(a),
        !is_nan(b),
        score_order(a) == score_order(b),
    ensures
        a == b || (magnitude(a) == 0 && magnitude(b) == 0),
{
}

/// Computes [`score_order`].
pub fn order_key(bits: u32) -> (key: i64)
    ensures
        key == score_order(bits),
{
    let negative: bool = bits >= SIGN_BIT;
    let magnitude: u32 = if negative {
        bits - SIGN_BIT
    } else {
        bits
    };
    if magnitude > INFINITY_MAGNITUDE {
        -(INFINITY_MAGNITUDE as i64) - 1
    } else if negative {
        -(magnitude as i64)
    } else {
        magnitude as i64
    }
}

} // verus!

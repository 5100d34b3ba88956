//! The scalar types of device columns, and the order in which the device sorts them.

use vstd::prelude::*;

verus! {

/// Half of the range of a 64-bit word: the weight of its sign bit.
pub const SIGN: u64 = 0x8000_0000_0000_0000;

/// The bit pattern of positive infinity as a double.
pub const INFINITY: u64 = 0x7FF0_0000_0000_0000;

/// The type of a column. A value of any type is carried as one 64-bit word: integers by value
/// (signed ones in two's complement), floats by bit pattern.
#[derive(Clone, Copy, PartialEq, Eq, Structural, Debug)]
pub enum Scalar {
    U8,
    U32,
    U64,
    I64,
    F32,
    F64,
}

/// The rank of a word among the words of its type. Words compare as their ranks do: signed
/// integers by value, doubles by the total order in which every negative value, `-0.0` and the
/// negative NaNs included, comes before every positive one.
pub open spec fn rank_of(scalar: Scalar, word: u64) -> u64 {
    match scalar {
        Scalar::I64 => if word < SIGN {
            (word + SIGN) as u64
        } else {
            (word - SIGN) as u64
        },
        Scalar::F64 => if word < SIGN {
            (word + SIGN) as u64
        } else {
            (u64::MAX - word) as u64
        },
        _ => word,
    }
}

/// Computes [`rank_of`].
pub fn rank(scalar: Scalar, word: u64) -> (rank: u64)
    ensures
        rank == rank_of(scalar, word),
{
    match scalar {
        Scalar::I64 => if word < SIGN {
            word + SIGN
        } else {
            word - SIGN
        },
        Scalar::F64 => if word < SIGN {
            word + SIGN
        } else {
            u64::MAX - word
        },
        _ => word,
    }
}

/// The signed value that a word stands for in two's complement.
pub open spec fn signed_value(word: u64) -> int {
    if word < SIGN {
        word as int
    } else {
        word - 0x1_0000_0000_0000_0000
    }
}

/// Ranks tell words apart: two words of one type with the same rank are the same word.
pub proof fn law_rank_is_injective(scalar: Scalar, left: u64, right: u64)
    requires
        rank_of(scalar, left) == rank_of(scalar, right),
    ensures
        left == right,
{
}

/// Signed words are ranked by the values that they stand for.
pub proof fn law_signed_rank_follows_value(left: u64, right: u64)
    ensures
        rank_of(Scalar::I64, left) <= rank_of(Scalar::I64, right) <==> signed_value(left)
            <= signed_value(right),
{
}

/// The total order of doubles puts negative NaNs first, then negative infinity, the negative
/// numbers by falling magnitude, `-0.0`, `0.0`, the positive numbers by rising magnitude,
/// positive infinity, and the positive NaNs last.
pub proof fn law_double_rank_runs_from_negative_to_positive(left: u64, right: u64)
    ensures
        left >= SIGN && right < SIGN ==> rank_of(Scalar::F64, left) < rank_of(Scalar::F64, right),
        left < SIGN && right < SIGN ==> (rank_of(Scalar::F64, left) <= rank_of(
            Scalar::F64,
            right,
        ) <==> left <= right),
        left >= SIGN && right >= SIGN ==> (rank_of(Scalar::F64, left) <= rank_of(
            Scalar::F64,
            right,
        ) <==> right <= left),
{
}

} // verus!

//! Fixed data that the scripts upload or look for.

use vstd::prelude::*;

verus! {

/// 64-bit patterns that show swapped or lost halves.
pub const BIT_PATTERNS: [u64; 6] = [
    0x0000_0000_0000_0001,
    0x0000_0000_FFFF_FFFF,
    0xFFFF_FFFF_0000_0000,
    0x8000_0000_0000_0000,
    0xDEAD_BEEF_CAFE_BABE,
    0x0123_4567_89AB_CDEF,
];

/// The probabilities 0.1, 0.5 and 0.9 as 32-bit floats.
pub const PROBABILITIES: [u64; 3] = [
    0x3DCC_CCCD,
    0x3F00_0000,
    0x3F66_6666,
];

/// The powers of two below 2^16.
pub const POWERS: [u64; 16] = [
    1,
    2,
    4,
    8,
    16,
    32,
    64,
    128,
    256,
    512,
    1024,
    2048,
    4096,
    8192,
    16384,
    32768,
];

/// 32-bit values around the edges of the range.
pub const GLOBAL_U32: [u64; 16] = [
    0x0000_0000,
    0x0000_0001,
    0xFFFF_FFFF,
    0xFFFF_FFFE,
    0x8000_0000,
    0x7FFF_FFFF,
    0xFFFF_0000,
    0x0000_FFFF,
    0xDEAD_BEEF,
    0xCAFE_BABE,
    0x0000_002A,
    0x0000_0064,
    0x0000_03E8,
    0x0000_2710,
    0x0001_86A0,
    0x000F_4240,
];

/// 64-bit values around the edges of the range.
pub const GLOBAL_U64: [u64; 13] = [
    0x0000_0000_0000_0000,
    0x0000_0000_0000_0001,
    0xFFFF_FFFF_FFFF_FFFF,
    0xFFFF_FFFF_FFFF_FFFE,
    0x8000_0000_0000_0000,
    0x7FFF_FFFF_FFFF_FFFF,
    0xFFFF_FFFF_0000_0000,
    0x0000_0000_FFFF_FFFF,
    0xDEAD_BEEF_CAFE_BABE,
    0x0123_4567_89AB_CDEF,
    0x0000_0000_0000_002A,
    0x0000_0000_FFFF_FFFF,
    0x0000_0001_0000_0000,
];

/// Signed values around the edges of the range, in two's complement.
pub const GLOBAL_I64: [u64; 15] = [
    0x0000_0000_0000_0000,  // 0
    0x0000_0000_0000_0001,  // 1
    0xFFFF_FFFF_FFFF_FFFF,  // -1
    0x7FFF_FFFF_FFFF_FFFF,  // 9223372036854775807
    0x8000_0000_0000_0000,  // -9223372036854775808
    0x8000_0000_0000_0001,  // -9223372036854775807
    0x7FFF_FFFF_FFFF_FFFE,  // 9223372036854775806
    0xFFFF_FFFF_FFFF_FF9C,  // -100
    0x0000_0000_0000_0064,  // 100
    0xFFFF_FFFF_FFF0_BDC0,  // -1000000
    0x0000_0000_000F_4240,  // 1000000
    0x8000_0000_0000_0001,  // -9223372036854775807
    0x7FFF_FFFF_FFFF_FFFE,  // 9223372036854775806
    0x0000_0000_0000_002A,  // 42
    0xFFFF_FFFF_FFFF_FFD6,  // -42
];

/// Doubles of every sign and size, by bit pattern.
pub const GLOBAL_F64: [u64; 21] = [
    0x0000_0000_0000_0000,  // 0.0
    0x8000_0000_0000_0000,  // -0.0
    0x3FF0_0000_0000_0000,  // 1.0
    0xBFF0_0000_0000_0000,  // -1.0
    0x7FEF_FFFF_FFFF_FFFF,  // largest
    0xFFEF_FFFF_FFFF_FFFF,  // lowest
    0x0010_0000_0000_0000,  // least normal
    0x8010_0000_0000_0000,  // minus least normal
    0x7FF0_0000_0000_0000,  // infinity
    0xFFF0_0000_0000_0000,  // minus infinity
    0x4009_21FB_5444_2D18,  // pi
    0x4005_BF0A_8B14_5769,  // e
    0x01A5_6E1F_C2F8_F359,  // 1e-300
    0x81A5_6E1F_C2F8_F359,  // -1e-300
    0x7E37_E43C_8800_759C,  // 1e300
    0xFE37_E43C_8800_759C,  // -1e300
    0x3FB9_9999_9999_999A,  // 0.1
    0x3FC9_9999_9999_999A,  // 0.2
    0x3FD3_3333_3333_3333,  // 0.3
    0x4045_4000_0000_0000,  // 42.5
    0xC045_4000_0000_0000,  // -42.5
];

/// Doubles with infinities among them, by bit pattern.
pub const INFINITIES: [u64; 11] = [
    0x3FF0_0000_0000_0000,  // 1.0
    0x7FF0_0000_0000_0000,  // infinity
    0xBFF0_0000_0000_0000,  // -1.0
    0xFFF0_0000_0000_0000,  // minus infinity
    0x0000_0000_0000_0000,  // 0.0
    0x7FF0_0000_0000_0000,  // infinity
    0x4059_0000_0000_0000,  // 100.0
    0xFFF0_0000_0000_0000,  // minus infinity
    0xC059_0000_0000_0000,  // -100.0
    0x7FEF_FFFF_FFFF_FFFF,  // largest
    0xFFEF_FFFF_FFFF_FFFF,  // lowest
];

/// Doubles with NaNs among them, by bit pattern.
pub const NANS: [u64; 10] = [
    0x3FF0_0000_0000_0000,  // 1.0
    0x7FF8_0000_0000_0000,  // NaN
    0xBFF0_0000_0000_0000,  // -1.0
    0x7FF8_0000_0000_0000,  // NaN
    0x0000_0000_0000_0000,  // 0.0
    0x4000_0000_0000_0000,  // 2.0
    0x7FF8_0000_0000_0000,  // NaN
    0xC000_0000_0000_0000,  // -2.0
    0x4008_0000_0000_0000,  // 3.0
    0x7FF0_0000_0000_0000,  // infinity
];

/// Doubles with zeros of both signs among them, by bit pattern.
pub const ZEROS: [u64; 10] = [
    0x0000_0000_0000_0000,  // 0.0
    0x8000_0000_0000_0000,  // -0.0
    0x3FF0_0000_0000_0000,  // 1.0
    0x8000_0000_0000_0000,  // -0.0
    0x0000_0000_0000_0000,  // 0.0
    0xBFF0_0000_0000_0000,  // -1.0
    0x0000_0000_0000_0000,  // 0.0
    0x8000_0000_0000_0000,  // -0.0
    0x3FE0_0000_0000_0000,  // 0.5
    0xBFE0_0000_0000_0000,  // -0.5
];

/// Doubles with subnormal numbers among them, by bit pattern.
pub const SUBNORMALS: [u64; 12] = [
    0x0000_0000_0000_0000,  // 0.0
    0x0000_0000_0000_0001,  // least subnormal
    0x0004_0000_0000_0000,  // middle subnormal
    0x0010_0000_0000_0000,  // least normal
    0x0008_0000_0000_0000,  // half of it
    0x0004_0000_0000_0000,  // a quarter of it
    0x0002_0000_0000_0000,  // an eighth of it
    0x8000_0000_0000_0001,  // minus least subnormal
    0x8004_0000_0000_0000,  // minus middle subnormal
    0x8010_0000_0000_0000,  // minus least normal
    0x3FF0_0000_0000_0000,  // 1.0
    0xBFF0_0000_0000_0000,  // -1.0
];

/// Doubles at the ends of the range and of the precision, by bit pattern.
pub const EXTREMES: [u64; 17] = [
    0x7FEF_FFFF_FFFF_FFFF,  // largest
    0xFFEF_FFFF_FFFF_FFFF,  // lowest
    0x0010_0000_0000_0000,  // least normal
    0x8010_0000_0000_0000,  // minus least normal
    0x7FE1_CCF3_85EB_C8A0,  // 1e308
    0xFFE1_CCF3_85EB_C8A0,  // -1e308
    0x0007_30D6_7819_E8D2,  // 1e-308
    0x8007_30D6_7819_E8D2,  // -1e-308
    0x3FF0_0000_0000_0000,  // 1.0
    0xBFF0_0000_0000_0000,  // -1.0
    0x0000_0000_0000_0000,  // 0.0
    0x54B2_49AD_2594_C37D,  // 1e100
    0xD4B2_49AD_2594_C37D,  // -1e100
    0x2B2B_FF2E_E48E_0530,  // 1e-100
    0xAB2B_FF2E_E48E_0530,  // -1e-100
    0x7FEF_AE14_7AE1_47AD,  // 0.99 of the largest
    0xFFEF_AE14_7AE1_47AD,  // 0.99 of the lowest
];

/// Doubles in rising order, by bit pattern.
pub const LADDER: [u64; 36] = [
    0xFFF0_0000_0000_0000,  // minus infinity
    0xFFEF_FFFF_FFFF_FFFF,  // lowest
    0xFFDF_FFFF_FFFF_FFFF,  // half of the lowest
    0xE974_E718_D7D7_625A,  // -1e200
    0xD4B2_49AD_2594_C37D,  // -1e100
    0xC202_A05F_2000_0000,  // -1e10
    0xC08F_4000_0000_0000,  // -1000
    0xC059_0000_0000_0000,  // -100
    0xC024_0000_0000_0000,  // -10
    0xBFF0_0000_0000_0000,  // -1
    0xBFE0_0000_0000_0000,  // -0.5
    0xBFB9_9999_9999_999A,  // -0.1
    0xBDDB_7CDF_D9D7_BDBB,  // -1e-10
    0xAB2B_FF2E_E48E_0530,  // -1e-100
    0x9668_7E92_154E_F7AC,  // -1e-200
    0x8010_0000_0000_0000,  // minus least normal
    0x8008_0000_0000_0000,  // half of that
    0x8000_0000_0000_0000,  // -0.0
    0x0000_0000_0000_0000,  // 0.0
    0x0008_0000_0000_0000,  // half of the least normal
    0x0010_0000_0000_0000,  // least normal
    0x1668_7E92_154E_F7AC,  // 1e-200
    0x2B2B_FF2E_E48E_0530,  // 1e-100
    0x3DDB_7CDF_D9D7_BDBB,  // 1e-10
    0x3FB9_9999_9999_999A,  // 0.1
    0x3FE0_0000_0000_0000,  // 0.5
    0x3FF0_0000_0000_0000,  // 1
    0x4024_0000_0000_0000,  // 10
    0x4059_0000_0000_0000,  // 100
    0x408F_4000_0000_0000,  // 1000
    0x4202_A05F_2000_0000,  // 1e10
    0x54B2_49AD_2594_C37D,  // 1e100
    0x6974_E718_D7D7_625A,  // 1e200
    0x7FDF_FFFF_FFFF_FFFF,  // half of the largest
    0x7FEF_FFFF_FFFF_FFFF,  // largest
    0x7FF0_0000_0000_0000,  // infinity
];

/// Signed values next to the points of overflow, in two's complement.
pub const SIGNED_EDGES: [u64; 16] = [
    0x8000_0000_0000_0000,  // -9223372036854775808
    0x7FFF_FFFF_FFFF_FFFF,  // 9223372036854775807
    0x0000_0000_0000_0000,  // 0
    0xFFFF_FFFF_FFFF_FFFF,  // -1
    0x0000_0000_0000_0001,  // 1
    0x8000_0000_0000_0001,  // -9223372036854775807
    0x7FFF_FFFF_FFFF_FFFE,  // 9223372036854775806
    0xFFFF_FFFF_FFFF_FFFE,  // -2
    0x0000_0000_0000_0002,  // 2
    0xC000_0000_0000_0000,  // -4611686018427387904
    0x3FFF_FFFF_FFFF_FFFF,  // 4611686018427387903
    0x8000_0000_0000_0001,  // -9223372036854775807
    0x0000_0000_0000_0064,  // 100
    0xFFFF_FFFF_FFFF_FF9C,  // -100
    0x0000_0000_000F_4240,  // 1000000
    0xFFFF_FFFF_FFF0_BDC0,  // -1000000
];

/// Unsigned values next to the points of overflow.
pub const UNSIGNED_EDGES: [u64; 16] = [
    0x0000_0000_0000_0000,
    0xFFFF_FFFF_FFFF_FFFF,
    0x0000_0000_0000_0001,
    0xFFFF_FFFF_FFFF_FFFE,
    0x7FFF_FFFF_FFFF_FFFF,
    0x3FFF_FFFF_FFFF_FFFF,
    0xBFFF_FFFF_FFFF_FFFD,
    0x0000_0000_0000_0064,
    0x0000_0000_0000_03E8,
    0x0000_0000_000F_4240,
    0x0000_0000_3B9A_CA00,
    0x0000_00E8_D4A5_1000,
    0x8000_0000_0000_0000,
    0xFFFF_FFFF_0000_0000,
    0x0000_0000_FFFF_FFFF,
    0xAAAA_AAAA_AAAA_AAAA,
];

/// 32-bit values with single bytes and alternating bits set.
pub const NARROW_EDGES: [u64; 16] = [
    0x0000_0000,
    0xFFFF_FFFF,
    0x0000_0001,
    0xFFFF_FFFE,
    0x7FFF_FFFF,
    0x3FFF_FFFF,
    0xBFFF_FFFD,
    0x0000_00FF,
    0x0000_FF00,
    0x00FF_0000,
    0xFF00_0000,
    0x8000_0000,
    0xFFFF_0000,
    0x0000_FFFF,
    0xAAAA_AAAA,
    0x5555_5555,
];

/// Negative values before positive ones, in two's complement.
pub const SIGNED_MIX: [u64; 11] = [
    0xFFFF_FFFF_FFFF_FFFF,  // -1
    0xFFFF_FFFF_FFFF_FFFE,  // -2
    0xFFFF_FFFF_FFFF_FC18,  // -1000
    0xFFFF_FFFF_FFF0_BDC0,  // -1000000
    0x0000_0000_0000_0000,  // 0
    0x0000_0000_0000_0001,  // 1
    0x0000_0000_0000_0002,  // 2
    0x0000_0000_0000_03E8,  // 1000
    0x0000_0000_000F_4240,  // 1000000
    0x8000_0000_0000_0000,  // -9223372036854775808
    0x7FFF_FFFF_FFFF_FFFF,  // 9223372036854775807
];

/// Join keys near the points where 32 bits wrap around.
pub const LEFT_KEYS: [u64; 12] = [
    0xFFFF_FFFF,
    0xFFFF_FFFE,
    0xFFFF_FFFD,
    0x0000_0000,
    0x0000_0001,
    0x0000_0002,
    0x7FFF_FFFF,
    0x8000_0000,
    0x8000_0000,
    0x8000_0001,
    0xFFFF_FFFF,
    0xFFFF_FFFE,
];

/// The keys of the right table of the wrap-around join.
pub const RIGHT_KEYS: [u64; 6] = [
    0xFFFF_FFFF,
    0xFFFF_FFFE,
    0x0000_0000,
    0x0000_0001,
    0x7FFF_FFFF,
    0x8000_0000,
];

/// The keys that the wrap-around join must not lose.
pub const CRITICAL_KEYS: [u64; 3] = [
    0xFFFF_FFFF,
    0x0000_0000,
    0x8000_0000,
];

/// Names a table of fixed data.
#[derive(Clone, Copy, PartialEq, Eq, Structural, Debug)]
pub enum Table {
    BitPatterns,
    Probabilities,
    Powers,
    GlobalU32,
    GlobalU64,
    GlobalI64,
    GlobalF64,
    Infinities,
    Nans,
    Zeros,
    Subnormals,
    Extremes,
    Ladder,
    SignedEdges,
    UnsignedEdges,
    NarrowEdges,
    SignedMix,
    LeftKeys,
    RightKeys,
    CriticalKeys,
}

/// The words of a table.
pub open spec fn words_of(table: Table) -> Seq<u64> {
    match table {
        Table::BitPatterns => BIT_PATTERNS@,
        Table::Probabilities => PROBABILITIES@,
        Table::Powers => POWERS@,
        Table::GlobalU32 => GLOBAL_U32@,
        Table::GlobalU64 => GLOBAL_U64@,
        Table::GlobalI64 => GLOBAL_I64@,
        Table::GlobalF64 => GLOBAL_F64@,
        Table::Infinities => INFINITIES@,
        Table::Nans => NANS@,
        Table::Zeros => ZEROS@,
        Table::Subnormals => SUBNORMALS@,
        Table::Extremes => EXTREMES@,
        Table::Ladder => LADDER@,
        Table::SignedEdges => SIGNED_EDGES@,
        Table::UnsignedEdges => UNSIGNED_EDGES@,
        Table::NarrowEdges => NARROW_EDGES@,
        Table::SignedMix => SIGNED_MIX@,
        Table::LeftKeys => LEFT_KEYS@,
        Table::RightKeys => RIGHT_KEYS@,
        Table::CriticalKeys => CRITICAL_KEYS@,
    }
}

/// Looks a word up in a table; `None` past its end.
pub fn lookup(table: Table, place: u64) -> (word: Option<u64>)
    ensures
        word == (if place < words_of(table).len() {
            Some(words_of(table)[place as int])
        } else {
            None
        }),
{
    match table {
        Table::BitPatterns => if place < 6 {
            Some(BIT_PATTERNS[place as usize])
        } else {
            None
        },
        Table::Probabilities => if place < 3 {
            Some(PROBABILITIES[place as usize])
        } else {
            None
        },
        Table::Powers => if place < 16 {
            Some(POWERS[place as usize])
        } else {
            None
        },
        Table::GlobalU32 => if place < 16 {
            Some(GLOBAL_U32[place as usize])
        } else {
            None
        },
        Table::GlobalU64 => if place < 13 {
            Some(GLOBAL_U64[place as usize])
        } else {
            None
        },
        Table::GlobalI64 => if place < 15 {
            Some(GLOBAL_I64[place as usize])
        } else {
            None
        },
        Table::GlobalF64 => if place < 21 {
            Some(GLOBAL_F64[place as usize])
        } else {
            None
        },
        Table::Infinities => if place < 11 {
            Some(INFINITIES[place as usize])
        } else {
            None
        },
        Table::Nans => if place < 10 {
            Some(NANS[place as usize])
        } else {
            None
        },
        Table::Zeros => if place < 10 {
            Some(ZEROS[place as usize])
        } else {
            None
        },
        Table::Subnormals => if place < 12 {
            Some(SUBNORMALS[place as usize])
        } else {
            None
        },
        Table::Extremes => if place < 17 {
            Some(EXTREMES[place as usize])
        } else {
            None
        },
        Table::Ladder => if place < 36 {
            Some(LADDER[place as usize])
        } else {
            None
        },
        Table::SignedEdges => if place < 16 {
            Some(SIGNED_EDGES[place as usize])
        } else {
            None
        },
        Table::UnsignedEdges => if place < 16 {
            Some(UNSIGNED_EDGES[place as usize])
        } else {
            None
        },
        Table::NarrowEdges => if place < 16 {
            Some(NARROW_EDGES[place as usize])
        } else {
            None
        },
        Table::SignedMix => if place < 11 {
            Some(SIGNED_MIX[place as usize])
        } else {
            None
        },
        Table::LeftKeys => if place < 12 {
            Some(LEFT_KEYS[place as usize])
        } else {
            None
        },
        Table::RightKeys => if place < 6 {
            Some(RIGHT_KEYS[place as usize])
        } else {
            None
        },
        Table::CriticalKeys => if place < 3 {
            Some(CRITICAL_KEYS[place as usize])
        } else {
            None
        },
    }
}

} // verus!

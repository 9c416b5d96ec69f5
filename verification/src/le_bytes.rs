//! Integers stored as raw little-endian bytes (as `ndarray.tobytes()` writes
//! `int64` values on little-endian machines).

use vstd::prelude::*;

verus! {

/// The unsigned value of eight little-endian bytes.
pub open spec fn le_u64_value(b: Seq<u8>) -> int {
    b[0] as int + b[1] as int * 0x100 + b[2] as int * 0x1_0000 + b[3] as int * 0x100_0000
        + b[4] as int * 0x1_0000_0000 + b[5] as int * 0x100_0000_0000 + b[6] as int * 0x1_0000_0000_0000
        + b[7] as int * 0x100_0000_0000_0000
}

/// The two's-complement value of eight little-endian bytes (`i64::from_le_bytes`).
pub open spec fn le_i64_value(b: Seq<u8>) -> int {
    let u = le_u64_value(b);
    if u >= 0x8000_0000_0000_0000 {
        u - 0x1_0000_0000_0000_0000
    } else {
        u
    }
}

/// Reads a signed 64-bit integer from its eight little-endian bytes.
pub fn i64_from_le_bytes(buf: [u8; 8]) -> (res: i64)
    ensures
        res as int == le_i64_value(buf@),
{
    let u: u64 = buf[0] as u64 + buf[1] as u64 * 0x100 + buf[2] as u64 * 0x1_0000 + buf[3] as u64 * 0x100_0000
        + buf[4] as u64 * 0x1_0000_0000 + buf[5] as u64 * 0x100_0000_0000 + buf[6] as u64 * 0x1_0000_0000_0000
        + buf[7] as u64 * 0x100_0000_0000_0000;
    if u <= 0x7fff_ffff_ffff_ffff {
        u as i64
    } else {
        ((u - 0x8000_0000_0000_0000) as i64) + i64::MIN
    }
}

} // verus!

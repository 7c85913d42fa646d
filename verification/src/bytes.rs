//! Bounds-checked little-endian field readers and the FILETIME conversion.
use vstd::prelude::*;

verus! {

/// The byte at `off`, or 0 when `off` lies outside `d`.
pub open spec fn byte_at(d: Seq<u8>, off: int) -> int {
    if 0 <= off < d.len() { d[off] as int } else { 0 }
}

/// Whether `n` bytes starting at `off` lie inside `d`.
pub open spec fn in_bounds(d: Seq<u8>, off: int, n: int) -> bool {
    0 <= off && off + n <= d.len()
}

/// Little-endian `u16` at `off`; 0 when the two bytes are not all present.
pub open spec fn le_u16_at(d: Seq<u8>, off: int) -> u16 {
    if in_bounds(d, off, 2) {
        (byte_at(d, off) + 256 * byte_at(d, off + 1)) as u16
    } else {
        0
    }
}

/// Little-endian `u32` at `off`; 0 when the four bytes are not all present.
pub open spec fn le_u32_at(d: Seq<u8>, off: int) -> u32 {
    if in_bounds(d, off, 4) {
        (byte_at(d, off) + 0x100 * byte_at(d, off + 1) + 0x1_0000 * byte_at(d, off + 2)
            + 0x100_0000 * byte_at(d, off + 3)) as u32
    } else {
        0
    }
}

/// Little-endian `u64` at `off`; 0 when the eight bytes are not all present.
pub open spec fn le_u64_at(d: Seq<u8>, off: int) -> u64 {
    if in_bounds(d, off, 8) {
        (le_u32_at(d, off) as int + 0x1_0000_0000 * (le_u32_at(d, off + 4) as int)) as u64
    } else {
        0
    }
}

/// The two's-complement reading of a `u32` as a signed value.
pub open spec fn signed32(v: u32) -> int {
    if v < 0x8000_0000 { v as int } else { v as int - 0x1_0000_0000 }
}

/// Little-endian `i32` at `off`; 0 when the four bytes are not all present.
pub open spec fn le_i32_at(d: Seq<u8>, off: int) -> int {
    signed32(le_u32_at(d, off))
}

pub fn le_u16(data: &[u8], off: u128) -> (r: u16)
    ensures
        r == le_u16_at(data@, off as int),
{
    let len = data.len() as u128;
    if off <= len && 2 <= len - off {
        let i = off as usize;
        data[i] as u16 + 256 * (data[i + 1] as u16)
    } else {
        0
    }
}

pub fn le_u32(data: &[u8], off: u128) -> (r: u32)
    ensures
        r == le_u32_at(data@, off as int),
{
    let len = data.len() as u128;
    if off <= len && 4 <= len - off {
        let i = off as usize;
        data[i] as u32 + 0x100 * (data[i + 1] as u32) + 0x1_0000 * (data[i + 2] as u32)
            + 0x100_0000 * (data[i + 3] as u32)
    } else {
        0
    }
}

pub fn le_i32(data: &[u8], off: u128) -> (r: i32)
    ensures
        r as int == le_i32_at(data@, off as int),
{
    let u = le_u32(data, off);
    let r = u as i32;
    assert(r as int == signed32(u)) by (bit_vector)
        requires r == u as i32;
    r
}

pub fn le_u64(data: &[u8], off: u128) -> (r: u64)
    ensures
        r == le_u64_at(data@, off as int),
{
    let len = data.len() as u128;
    if off <= len && 8 <= len - off {
        let lo = le_u32(data, off);
        let hi = le_u32(data, off + 4);
        lo as u64 + 0x1_0000_0000 * (hi as u64)
    } else {
        0
    }
}


/// The number of 100-nanosecond intervals between the FILETIME epoch
/// (1601-01-01) and the Unix epoch (1970-01-01).
pub const FILETIME_UNIX_DELTA_100NS: i64 = 116_444_736_000_000_000;

/// Integer division rounding toward zero (Rust's `/` on signed integers).
pub open spec fn div_toward_zero(a: int, b: int) -> int {
    if a >= 0 { a / b } else { -((-a) / b) }
}

/// Two's-complement wrap of an integer into the `i64` range.
pub open spec fn wrap_i64(v: int) -> int {
    if v < i64::MIN { v + 0x1_0000_0000_0000_0000 } else if v > i64::MAX { v - 0x1_0000_0000_0000_0000 } else { v }
}

/// Unix epoch seconds for a FILETIME: 0 for the unset sentinel 0, else the
/// tick count read as a signed 64-bit value, shifted to the Unix epoch with
/// 64-bit wrap-around, divided by 10^7 rounding toward zero.
pub open spec fn filetime_unix(ft: u64) -> int {
    if ft == 0 {
        0
    } else {
        let signed = if ft < 0x8000_0000_0000_0000 { ft as int } else { ft as int - 0x1_0000_0000_0000_0000 };
        div_toward_zero(wrap_i64(signed - FILETIME_UNIX_DELTA_100NS), 10_000_000)
    }
}

/// Convert a Windows FILETIME (100-ns ticks since 1601) to Unix epoch seconds.
pub fn filetime_to_unix(ft: u64) -> (r: i64)
    ensures
        r as int == filetime_unix(ft),
{
    if ft == 0 {
        return 0;
    }
    let signed: i64 = ft as i64;
    assert(signed as int == (if ft < 0x8000_0000_0000_0000 { ft as int } else { ft as int - 0x1_0000_0000_0000_0000 })) by (bit_vector)
        requires signed == ft as i64;
    let shifted: i64 = signed.wrapping_sub(FILETIME_UNIX_DELTA_100NS);
    assert(shifted as int == wrap_i64(signed - FILETIME_UNIX_DELTA_100NS));
    shifted / 10_000_000
}

} // verus!

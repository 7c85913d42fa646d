//! Text produced from bytes: NUL-terminated ANSI and UTF-16LE strings, GUIDs,
//! and the number renderings used in notes and stream names.
use vstd::prelude::*;


use crate::deps::{decode_utf16_lossy, decode_utf8_lossy, opt_text, push_char, utf16_lossy, utf8_lossy};

verus! {

// ── NUL-terminated strings ───────────────────────────────────────────────────

/// Index of the first NUL byte of `s` at or after `i`, or `s.len()`.
pub open spec fn nul_from(s: Seq<u8>, i: int) -> int
    decreases s.len() - i,
{
    if i >= s.len() || i < 0 {
        s.len() as int
    } else if s[i] == 0 {
        i
    } else {
        nul_from(s, i + 1)
    }
}

/// The bytes of `s` before its first NUL.
pub open spec fn until_nul(s: Seq<u8>) -> Seq<u8> {
    s.take(nul_from(s, 0))
}

/// The UTF-16LE code units of `s`, a trailing odd byte dropped.
pub open spec fn units_le(s: Seq<u8>) -> Seq<u16> {
    Seq::new(s.len() / 2, |i: int| (s[2 * i] as int + 256 * (s[2 * i + 1] as int)) as u16)
}

/// Index of the first zero unit of `u` at or after `i`, or `u.len()`.
pub open spec fn zero_unit_from(u: Seq<u16>, i: int) -> int
    decreases u.len() - i,
{
    if i >= u.len() || i < 0 {
        u.len() as int
    } else if u[i] == 0 {
        i
    } else {
        zero_unit_from(u, i + 1)
    }
}

/// The code units of `u` before its first zero unit.
pub open spec fn until_zero_unit(u: Seq<u16>) -> Seq<u16> {
    u.take(zero_unit_from(u, 0))
}

/// The NUL-terminated ANSI string at `off` (decoded lossily), or `None` when
/// `off` lies past the end of `d`.
pub open spec fn ansi_z_at(d: Seq<u8>, off: int) -> Option<Seq<char>> {
    if off < 0 || off > d.len() {
        None
    } else {
        Some(utf8_lossy(until_nul(d.subrange(off, d.len() as int))))
    }
}

/// The NUL-terminated UTF-16LE string at `off` (decoded lossily), or `None`
/// when `off` lies past the end of `d`.
pub open spec fn unicode_z_at(d: Seq<u8>, off: int) -> Option<Seq<char>> {
    if off < 0 || off > d.len() {
        None
    } else {
        Some(utf16_lossy(until_zero_unit(units_le(d.subrange(off, d.len() as int)))))
    }
}

/// The fixed-size ANSI field of `size` bytes at `start`, up to its first NUL
/// (decoded lossily); empty when the field does not lie inside `d`.
pub open spec fn ansi_field(d: Seq<u8>, start: int, size: int) -> Seq<char> {
    utf8_lossy(until_nul(if 0 <= start && start + size <= d.len() { d.subrange(start, start + size) } else { Seq::empty() }))
}

/// Lossy UTF-16 decoding gives empty text exactly for no code units: each
/// step turns one or two units into one character.
pub(crate) proof fn lemma_utf16_lossy_empty(units: Seq<u16>)
    ensures
        utf16_lossy(units).len() == 0 <==> units.len() == 0,
{
    reveal_with_fuel(utf16_lossy, 1);
}

/// Copy `data[start..end]` into a new vector.
pub fn copy_range(data: &[u8], start: usize, end: usize) -> (r: Vec<u8>)
    requires
        start <= end <= data@.len(),
    ensures
        r@ == data@.subrange(start as int, end as int),
{
    let mut r: Vec<u8> = Vec::new();
    let mut i = start;
    while i < end
        invariant
            start <= i <= end <= data@.len(),
            r@ == data@.subrange(start as int, i as int),
        decreases end - i,
    {
        r.push(data[i]);
        i = i + 1;
        assert(r@ =~= data@.subrange(start as int, i as int));
    }
    r
}

/// Read a NUL-terminated ANSI string starting at `off` (lossy UTF-8).
pub fn ansi_z(data: &[u8], off: u128) -> (r: Option<String>)
    ensures
        opt_text(r) == ansi_z_at(data@, off as int),
{
    let len = data.len();
    if off > len as u128 {
        return None;
    }
    let start = off as usize;
    let ghost s = data@.subrange(start as int, len as int);
    let mut end = start;
    while end < len && data[end] != 0
        invariant
            start <= end <= len == data@.len(),
            s == data@.subrange(start as int, len as int),
            nul_from(s, (end - start) as int) == nul_from(s, 0),
        decreases len - end,
    {
        assert(s[(end - start) as int] == data@[end as int]);
        end = end + 1;
    }
    proof {
        if end < len {
            assert(s[(end - start) as int] == data@[end as int]);
        }
        assert(nul_from(s, 0) == end - start);
        assert(until_nul(s) =~= data@.subrange(start as int, end as int));
    }
    let bytes = copy_range(data, start, end);
    Some(decode_utf8_lossy(bytes.as_slice()))
}

/// Read the fixed-size ANSI field of `size` bytes at `start`, up to its first
/// NUL; empty when the field does not fit.
pub fn ansi_field_at(data: &[u8], start: u128, size: u128) -> (r: String)
    ensures
        r@ == ansi_field(data@, start as int, size as int),
{
    let raw = if start <= data.len() as u128 && size <= data.len() as u128 - start {
        copy_range(data, start as usize, (start + size) as usize)
    } else {
        Vec::new()
    };
    let mut end: usize = 0;
    while end < raw.len() && raw[end] != 0
        invariant
            end <= raw@.len(),
            nul_from(raw@, end as int) == nul_from(raw@, 0),
        decreases raw@.len() - end,
    {
        end = end + 1;
    }
    assert(until_nul(raw@) =~= raw@.subrange(0, end as int));
    let text = copy_range(raw.as_slice(), 0, end);
    decode_utf8_lossy(text.as_slice())
}

/// Read a NUL-terminated UTF-16LE string starting at `off`.
pub fn unicode_z(data: &[u8], off: u128) -> (r: Option<String>)
    ensures
        opt_text(r) == unicode_z_at(data@, off as int),
{
    let len = data.len();
    if off > len as u128 {
        return None;
    }
    let start = off as usize;
    let ghost s = data@.subrange(start as int, len as int);
    let ghost u = units_le(s);
    let mut units: Vec<u16> = Vec::new();
    let mut i: usize = 0;
    let avail = len - start;
    loop
        invariant_except_break
            start + avail == len == data@.len(),
            s == data@.subrange(start as int, len as int),
            u == units_le(s),
            i % 2 == 0,
            i <= avail,
            units@ == u.take(i as int / 2),
            zero_unit_from(u, i as int / 2) == zero_unit_from(u, 0),
        ensures
            units@ == until_zero_unit(u),
        decreases avail - i,
    {
        if i + 1 >= avail {
            assert(i as int / 2 == u.len());
            assert(units@ =~= until_zero_unit(u));
            break;
        }
        let unit = data[start + i] as u16 + 256 * (data[start + i + 1] as u16);
        assert(unit == u[i as int / 2]);
        if unit == 0 {
            assert(units@ =~= until_zero_unit(u));
            break;
        }
        units.push(unit);
        i = i + 2;
        assert(units@ =~= u.take(i as int / 2));
    }
    Some(decode_utf16_lossy(units.as_slice()))
}

/// Decode a whole UTF-16LE byte run (a trailing odd byte is dropped).
pub fn decode_utf16le(bytes: &[u8]) -> (r: String)
    ensures
        r@ == utf16_lossy(units_le(bytes@)),
{
    let mut units: Vec<u16> = Vec::new();
    let mut i: usize = 0;
    let blen = bytes.len();
    let n = blen / 2;
    assert(2 * n <= bytes@.len());
    while i < n
        invariant
            n == bytes@.len() / 2,
            2 * n <= bytes@.len() <= usize::MAX,
            i <= n,
            units@ == units_le(bytes@).take(i as int),
        decreases n - i,
    {
        assert(2 * i + 1 < bytes@.len());
        let j = i + i;
        let unit = bytes[j] as u16 + 256 * (bytes[j + 1] as u16);
        units.push(unit);
        i = i + 1;
        assert(units@ =~= units_le(bytes@).take(i as int));
    }
    assert(units@ =~= units_le(bytes@));
    decode_utf16_lossy(units.as_slice())
}

// ── GUIDs and numbers ────────────────────────────────────────────────────────

/// The upper-case hexadecimal digit for `d` (0..16).
pub open spec fn hex_digit_upper(d: int) -> char {
    if d < 10 { (48 + d) as char } else { (55 + d) as char }
}

/// The lower-case hexadecimal digit for `d` (0..16).
pub open spec fn hex_digit_lower(d: int) -> char {
    if d < 10 { (48 + d) as char } else { (87 + d) as char }
}

/// The decimal digit for `d` (0..10).
pub open spec fn decimal_digit(d: int) -> char {
    (48 + d) as char
}

/// A byte as two upper-case hexadecimal digits.
pub open spec fn hex_byte_upper(b: u8) -> Seq<char> {
    seq![hex_digit_upper(b as int / 16), hex_digit_upper(b as int % 16)]
}

/// The canonical 8-4-4-4-12 text of the 16 GUID bytes at the front of `g`:
/// the first three groups little-endian, the last two in byte order.
pub open spec fn guid_text(g: Seq<u8>) -> Seq<char> {
    hex_byte_upper(g[3]) + hex_byte_upper(g[2]) + hex_byte_upper(g[1]) + hex_byte_upper(g[0])
        + seq!['-'] + hex_byte_upper(g[5]) + hex_byte_upper(g[4])
        + seq!['-'] + hex_byte_upper(g[7]) + hex_byte_upper(g[6])
        + seq!['-'] + hex_byte_upper(g[8]) + hex_byte_upper(g[9])
        + seq!['-'] + hex_byte_upper(g[10]) + hex_byte_upper(g[11]) + hex_byte_upper(g[12])
        + hex_byte_upper(g[13]) + hex_byte_upper(g[14]) + hex_byte_upper(g[15])
}

/// The GUID text of `g`, or `None` when `g` holds fewer than 16 bytes.
pub open spec fn guid_of(g: Seq<u8>) -> Option<Seq<char>> {
    if g.len() >= 16 { Some(guid_text(g)) } else { None }
}

fn hex_upper_char(d: u8) -> (c: char)
    requires
        d < 16,
    ensures
        c == hex_digit_upper(d as int),
{
    if d < 10 { (48 + d) as char } else { (55 + d) as char }
}

fn push_hex_byte_upper(s: &mut String, b: u8)
    ensures
        final(s)@ == old(s)@ + hex_byte_upper(b),
{
    push_char(s, hex_upper_char(b / 16));
    push_char(s, hex_upper_char(b % 16));
    assert(s@ =~= old(s)@ + hex_byte_upper(b));
}

/// Format the first 16 bytes of `b` as the canonical 8-4-4-4-12 GUID string.
pub fn guid_string(b: &[u8]) -> (r: Option<String>)
    ensures
        opt_text(r) == guid_of(b@),
{
    if b.len() < 16 {
        return None;
    }
    let mut s = String::new();
    let ghost g = b@;
    push_hex_byte_upper(&mut s, b[3]);
    push_hex_byte_upper(&mut s, b[2]);
    push_hex_byte_upper(&mut s, b[1]);
    push_hex_byte_upper(&mut s, b[0]);
    push_char(&mut s, '-');
    push_hex_byte_upper(&mut s, b[5]);
    push_hex_byte_upper(&mut s, b[4]);
    push_char(&mut s, '-');
    push_hex_byte_upper(&mut s, b[7]);
    push_hex_byte_upper(&mut s, b[6]);
    push_char(&mut s, '-');
    push_hex_byte_upper(&mut s, b[8]);
    push_hex_byte_upper(&mut s, b[9]);
    push_char(&mut s, '-');
    push_hex_byte_upper(&mut s, b[10]);
    push_hex_byte_upper(&mut s, b[11]);
    push_hex_byte_upper(&mut s, b[12]);
    push_hex_byte_upper(&mut s, b[13]);
    push_hex_byte_upper(&mut s, b[14]);
    push_hex_byte_upper(&mut s, b[15]);
    assert(s@ =~= guid_text(g));
    Some(s)
}

/// `n` in lower-case hexadecimal, without leading zeros (`"0"` for 0).
pub open spec fn lower_hex_text(n: nat) -> Seq<char>
    decreases n,
{
    if n < 16 {
        seq![hex_digit_lower(n as int)]
    } else {
        lower_hex_text(n / 16).push(hex_digit_lower((n % 16) as int))
    }
}

/// `n` in decimal, without leading zeros (`"0"` for 0).
pub open spec fn decimal_text(n: nat) -> Seq<char>
    decreases n,
{
    if n < 10 {
        seq![decimal_digit(n as int)]
    } else {
        decimal_text(n / 10).push(decimal_digit((n % 10) as int))
    }
}

/// `v` in decimal with a leading `-` when negative.
pub open spec fn signed_decimal_text(v: int) -> Seq<char> {
    if v < 0 { seq!['-'] + decimal_text((-v) as nat) } else { decimal_text(v as nat) }
}

/// The `k`-th hexadecimal digit of `n`, counted from the least significant.
pub open spec fn hex_digit_of(n: nat, k: nat) -> int
    decreases k,
{
    if k == 0 { (n % 16) as int } else { hex_digit_of(n / 16, (k - 1) as nat) }
}

/// `n` as `0x` followed by exactly eight upper-case hexadecimal digits.
pub open spec fn padded_hex32_text(n: u32) -> Seq<char> {
    seq!['0', 'x']
        + Seq::new(8, |i: int| hex_digit_upper(hex_digit_of(n as nat, (7 - i) as nat)))
}

fn hex_lower_char(d: u32) -> (c: char)
    requires
        d < 16,
    ensures
        c == hex_digit_lower(d as int),
{
    let b = d as u8;
    if b < 10 { (48 + b) as char } else { (87 + b) as char }
}

fn decimal_char(d: u64) -> (c: char)
    requires
        d < 10,
    ensures
        c == decimal_digit(d as int),
{
    let b = d as u8;
    (48 + b) as char
}

/// Append `n` in lower-case hexadecimal (no leading zeros).
pub fn push_lower_hex(s: &mut String, n: u32)
    ensures
        final(s)@ == old(s)@ + lower_hex_text(n as nat),
    decreases n,
{
    if n >= 16 {
        push_lower_hex(s, n / 16);
    }
    push_char(s, hex_lower_char(n % 16));
    assert(s@ =~= old(s)@ + lower_hex_text(n as nat));
}

/// Append `n` in decimal (no leading zeros).
pub fn push_decimal(s: &mut String, n: u64)
    ensures
        final(s)@ == old(s)@ + decimal_text(n as nat),
    decreases n,
{
    if n >= 10 {
        push_decimal(s, n / 10);
    }
    push_char(s, decimal_char(n % 10));
    assert(s@ =~= old(s)@ + decimal_text(n as nat));
}

/// Append `v` in decimal, with a leading `-` when negative.
pub fn push_signed_decimal(s: &mut String, v: i64)
    ensures
        final(s)@ == old(s)@ + signed_decimal_text(v as int),
{
    if v < 0 {
        push_char(s, '-');
        let magnitude: u64 = if v == i64::MIN { 0x8000_0000_0000_0000u64 } else { (-v) as u64 };
        push_decimal(s, magnitude);
        assert(s@ =~= old(s)@ + signed_decimal_text(v as int));
    } else {
        push_decimal(s, v as u64);
    }
}

/// Append `n` as `0x` and eight upper-case hexadecimal digits.
pub fn push_padded_hex32(s: &mut String, n: u32)
    ensures
        final(s)@ == old(s)@ + padded_hex32_text(n),
{
    let ghost start = s@;
    push_char(s, '0');
    push_char(s, 'x');
    let mut k: u32 = 8;
    while k > 0
        invariant
            k <= 8,
            s@ == start + seq!['0', 'x'] + Seq::new((8 - k) as nat, |i: int| hex_digit_upper(hex_digit_of(n as nat, (7 - i) as nat))),
        decreases k,
    {
        k = k - 1;
        let shift = 4 * k;
        let d = (n >> shift) & 0xF;
        assert(d < 16) by (bit_vector)
            requires d == (n >> shift) & 0xF;
        assert(d == hex_digit_of(n as nat, k as nat)) by {
            lemma_hex_digit_shift(n, k);
        }
        push_char(s, hex_upper_char(d as u8));
        assert(s@ =~= start + seq!['0', 'x'] + Seq::new((8 - k) as nat, |i: int| hex_digit_upper(hex_digit_of(n as nat, (7 - i) as nat))));
    }
    assert(s@ =~= old(s)@ + padded_hex32_text(n));
}

proof fn lemma_hex_digit_shift(n: u32, k: u32)
    requires
        k < 8,
    ensures
        (n >> (4 * k)) & 0xF == hex_digit_of(n as nat, k as nat),
    decreases k,
{
    if k == 0 {
        assert((n >> 0u32) & 0xF == n % 16) by (bit_vector);
    } else {
        let m: u32 = n / 16;
        let j: u32 = (k - 1) as u32;
        assert((n >> (4 * k)) & 0xF == (m >> (4 * j)) & 0xF) by (bit_vector)
            requires 0 < k < 8, j == k - 1, m == n / 16;
        lemma_hex_digit_shift(m, j);
    }
}

} // verus!

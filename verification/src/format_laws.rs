//! Laws that tie what the readers and the audit produce to the documented
//! layout of the bytes and to the fields of a record, independently of how
//! the specifications are written.
use vstd::prelude::*;

use crate::audit::{contains_text, destlist_findings, lnk_note, FindingView, LnkAnomalyView, SourceView};
use crate::bytes::{filetime_unix, le_i32_at, le_u16_at, le_u32_at, le_u64_at};
use crate::shell_link::{
    has_bit, link_info_at, network_link_at, shell_link_of, valid_header, volume_id_at,
};
use crate::text::{ansi_z_at, unicode_z_at};
use crate::jumplist::{destlist_entries, destlist_entry_at, destlist_records, DestListEntryView};
use crate::deps::compound_stream;
use crate::jumplist::{hex_value, record_stream};
use crate::text::{
    decimal_text, guid_text, hex_digit_lower, hex_digit_of, hex_digit_upper, lower_hex_text,
    padded_hex32_text,
};

verus! {

/// Whether some finding carries `code`.
pub open spec fn has_code(findings: Seq<FindingView>, code: Seq<char>) -> bool {
    exists|i: int| 0 <= i < findings.len() && (#[trigger] findings[i]).code == code
}

/// The stable codes a `DestList` record's findings can carry are distinct.
proof fn lemma_record_codes_distinct()
    ensures
        "JUMPLIST-PINNED-TARGET"@ != "JUMPLIST-MRU-RECENCY"@,
        "JUMPLIST-CROSS-MACHINE"@ != "JUMPLIST-MRU-RECENCY"@,
{
    reveal_strlit("JUMPLIST-PINNED-TARGET");
    reveal_strlit("JUMPLIST-CROSS-MACHINE");
    reveal_strlit("JUMPLIST-MRU-RECENCY");
    assert("JUMPLIST-PINNED-TARGET"@.len() == 22);
    assert("JUMPLIST-CROSS-MACHINE"@.len() == 22);
    assert("JUMPLIST-MRU-RECENCY"@.len() == 20);
}

/// A `DestList` record yields an MRU-recency finding exactly when it carries
/// usage history: an access count (Windows 10/11 layout) or a last-access
/// time after the Unix epoch (either layout).
pub proof fn law_mru_recency_exactly_with_history(dl: DestListEntryView, host: Option<Seq<char>>, source: SourceView)
    ensures
        has_code(destlist_findings(dl, host, source), "JUMPLIST-MRU-RECENCY"@)
            <==> (dl.access_count is Some || dl.last_access > 0),
{
    lemma_record_codes_distinct();
    let f = destlist_findings(dl, host, source);
    if dl.access_count is Some || dl.last_access > 0 {
        assert(f[f.len() - 1].code == "JUMPLIST-MRU-RECENCY"@);
        assert(has_code(f, "JUMPLIST-MRU-RECENCY"@));
    } else {
        assert forall|i: int| 0 <= i < f.len() implies (#[trigger] f[i]).code != "JUMPLIST-MRU-RECENCY"@ by {
        }
    }
}

/// Every `DestList` record reads its fields at their documented offsets from
/// the record's start: the droid volume, droid file, birth droid volume and
/// birth droid file GUIDs at 8, 24, 40 and 56 (each the GUID text of its 16
/// bytes), the entry number at 88, the last-access FILETIME at 100, the pin
/// status at 108 (pinned when non-negative) and, in the v2+ layout, the
/// access count at 116.
pub proof fn law_destlist_record_layout(d: Seq<u8>, off: int, extended: bool)
    requires
        0 <= off,
        off + 112 <= d.len(),
    ensures
        ({
            let r = destlist_records(d, off, extended)[0];
            &&& r.droid_volume_guid == guid_text(d.subrange(off + 8, off + 24))
            &&& r.droid_file_guid == guid_text(d.subrange(off + 24, off + 40))
            &&& r.birth_droid_volume_guid == guid_text(d.subrange(off + 40, off + 56))
            &&& r.birth_droid_file_guid == guid_text(d.subrange(off + 56, off + 72))
            &&& r.entry_number == le_u32_at(d, off + 88)
            &&& r.last_access == filetime_unix(le_u64_at(d, off + 100))
            &&& r.pinned == (le_i32_at(d, off + 108) >= 0)
            &&& r.access_count == if extended { Some(le_u32_at(d, off + 116)) } else { None }
        }),
{
    reveal(destlist_entry_at);
    assert(destlist_records(d, off, extended)[0] == destlist_entry_at(d, off, extended));
}

/// The first record of a `DestList` stream starts right after its 32-byte
/// header, in the layout its format version (at offset 0) selects.
pub proof fn law_destlist_first_record(d: Seq<u8>)
    requires
        32 + 112 <= d.len(),
    ensures
        destlist_entries(d).len() > 0,
        destlist_entries(d)[0] == destlist_records(d, 32, le_u32_at(d, 0) >= 2)[0],
        destlist_entries(d)[0].droid_volume_guid == guid_text(d.subrange(40, 56)),
        destlist_entries(d)[0].entry_number == le_u32_at(d, 120),
{
    law_destlist_record_layout(d, 32, le_u32_at(d, 0) >= 2);
}

/// The number a run of hexadecimal digits (of either case) spells, most
/// significant digit first.
pub open spec fn hex_number(s: Seq<char>) -> int
    decreases s.len(),
{
    if s.len() == 0 { 0 } else { hex_number(s.drop_last()) * 16 + hex_value(s.last()) }
}

/// `16` to the power `k`.
pub open spec fn pow16(k: nat) -> nat
    decreases k,
{
    if k == 0 { 1 } else { 16 * pow16((k - 1) as nat) }
}

/// Whether `c` is an upper-case hexadecimal digit.
pub open spec fn upper_hex_char(c: char) -> bool {
    ('0' <= c && c <= '9') || ('A' <= c && c <= 'F')
}

/// Whether `c` is a lower-case hexadecimal digit.
pub open spec fn lower_hex_char(c: char) -> bool {
    ('0' <= c && c <= '9') || ('a' <= c && c <= 'f')
}

/// The `k` low hexadecimal digits of `n`, upper case, most significant first.
spec fn upper_digits(n: nat, k: nat) -> Seq<char>
    decreases k,
{
    if k == 0 { Seq::empty() } else { upper_digits(n / 16, (k - 1) as nat).push(hex_digit_upper((n % 16) as int)) }
}

proof fn lemma_upper_digits(n: nat, k: nat)
    requires
        n < pow16(k),
    ensures
        upper_digits(n, k).len() == k,
        forall|i: int| 0 <= i < k ==> #[trigger] upper_digits(n, k)[i] == hex_digit_upper(hex_digit_of(n, (k - 1 - i) as nat)),
        forall|i: int| 0 <= i < k ==> upper_hex_char(#[trigger] upper_digits(n, k)[i]),
        hex_number(upper_digits(n, k)) == n,
    decreases k,
{
    if k > 0 {
        let m = n / 16;
        assert(m < pow16((k - 1) as nat)) by (nonlinear_arith)
            requires n < 16 * pow16((k - 1) as nat), m == n / 16;
        lemma_upper_digits(m, (k - 1) as nat);
        let u = upper_digits(n, k);
        let v = upper_digits(m, (k - 1) as nat);
        assert forall|i: int| 0 <= i < k implies #[trigger] u[i] == hex_digit_upper(hex_digit_of(n, (k - 1 - i) as nat)) by {
            if i < k - 1 {
                assert(u[i] == v[i]);
                assert(hex_digit_of(n, (k - 1 - i) as nat) == hex_digit_of(m, (k - 2 - i) as nat));
            }
        }
        assert(u.drop_last() =~= v);
        assert(hex_value(hex_digit_upper((n % 16) as int)) == n % 16);
        assert(hex_number(u) == m * 16 + n % 16);
    }
}

/// A drive serial is rendered `{:#010X}`: `0x` and eight upper-case
/// hexadecimal digits that read back as the serial, for every value.
pub proof fn law_padded_hex_reads_back(n: u32)
    ensures
        padded_hex32_text(n).len() == 10,
        padded_hex32_text(n)[0] == '0' && padded_hex32_text(n)[1] == 'x',
        forall|i: int| 2 <= i < 10 ==> upper_hex_char(#[trigger] padded_hex32_text(n)[i]),
        hex_number(padded_hex32_text(n).subrange(2, 10)) == n,
{
    assert(pow16(8) == 0x1_0000_0000) by {
        reveal_with_fuel(pow16, 9);
    }
    lemma_upper_digits(n as nat, 8);
    let t = padded_hex32_text(n);
    assert(t.subrange(2, 10) =~= upper_digits(n as nat, 8));
    assert forall|i: int| 2 <= i < 10 implies upper_hex_char(#[trigger] t[i]) by {
        assert(t[i] == upper_digits(n as nat, 8)[i - 2]);
    }
}

proof fn lemma_lower_hex_text(n: nat)
    ensures
        lower_hex_text(n).len() > 0,
        forall|i: int| 0 <= i < lower_hex_text(n).len() ==> lower_hex_char(#[trigger] lower_hex_text(n)[i]),
        lower_hex_text(n).len() == 1 || lower_hex_text(n)[0] != '0',
        n >= 16 ==> lower_hex_text(n).len() >= 2,
        hex_number(lower_hex_text(n)) == n,
    decreases n,
{
    if n < 16 {
        let t = lower_hex_text(n);
        assert(t.drop_last() =~= Seq::<char>::empty());
        assert(hex_number(Seq::<char>::empty()) == 0);
        assert(hex_value(hex_digit_lower(n as int)) == n);
    } else {
        let m = n / 16;
        lemma_lower_hex_text(m);
        let t = lower_hex_text(n);
        let v = lower_hex_text(m);
        assert(t.drop_last() =~= v);
        assert(t[0] == v[0]);
        assert forall|i: int| 0 <= i < t.len() implies lower_hex_char(#[trigger] t[i]) by {
            if i < t.len() - 1 {
                assert(t[i] == v[i]);
            }
        }
        assert(hex_value(hex_digit_lower((n % 16) as int)) == n % 16);
        assert(hex_number(t) == hex_number(v) * 16 + hex_value(t.last()));
        assert(n == m * 16 + n % 16);
        if m < 16 {
            assert(v[0] == hex_digit_lower(m as int));
        }
    }
}

/// Whether `name` is how `{:x}` writes a number: lower-case hexadecimal
/// digits with no leading zero (a lone `0` for zero).
pub open spec fn lower_hex_name(name: Seq<char>) -> bool {
    &&& name.len() > 0
    &&& forall|i: int| 0 <= i < name.len() ==> lower_hex_char(#[trigger] name[i])
    &&& (name.len() == 1 || name[0] != '0')
}

/// The shell-link stream of a `DestList` record is the one named by the
/// record's whole entry number, written as `{:x}` writes it: a lower-case
/// hexadecimal name that reads back as that entry number.
pub proof fn law_record_stream_named_by_entry_number(file: Seq<u8>, r: DestListEntryView)
    ensures
        exists|name: Seq<char>| #![trigger compound_stream(file, name)]
            lower_hex_name(name) && hex_number(name) == r.entry_number
                && record_stream(file, r) == compound_stream(file, name),
{
    let name = lower_hex_text(r.entry_number as nat);
    lemma_lower_hex_text(r.entry_number as nat);
    assert(lower_hex_name(name));
    assert(record_stream(file, r) == compound_stream(file, name));
}

// ── Where the sections of a Shell Link sit ──────────────────────────────────

/// A `u16` as its two little-endian bytes.
pub open spec fn u16_le(n: nat) -> Seq<u8> {
    seq![(n % 256) as u8, (n / 256) as u8]
}

proof fn lemma_u32_prefix(p: Seq<u8>, q: Seq<u8>, x: int)
    requires
        0 <= x,
        x + 4 <= p.len(),
    ensures
        le_u32_at(p + q, x) == le_u32_at(p, x),
{
    let d = p + q;
    assert(d[x] == p[x] && d[x + 1] == p[x + 1] && d[x + 2] == p[x + 2] && d[x + 3] == p[x + 3]);
}

proof fn lemma_u32_shift(p: Seq<u8>, q: Seq<u8>, y: int)
    requires
        0 <= y,
    ensures
        le_u32_at(p + q, p.len() + y) == le_u32_at(q, y),
{
    let d = p + q;
    let x = p.len() + y;
    if y + 4 <= q.len() {
        assert(d[x] == q[y] && d[x + 1] == q[y + 1] && d[x + 2] == q[y + 2] && d[x + 3] == q[y + 3]);
    }
}

proof fn lemma_text_shift(p: Seq<u8>, q: Seq<u8>, y: int)
    requires
        0 <= y,
    ensures
        ansi_z_at(p + q, p.len() + y) == ansi_z_at(q, y),
        unicode_z_at(p + q, p.len() + y) == unicode_z_at(q, y),
{
    let d = p + q;
    if y <= q.len() {
        assert(d.subrange(p.len() + y, d.len() as int) =~= q.subrange(y, q.len() as int));
    }
}

proof fn lemma_volume_shift(p: Seq<u8>, q: Seq<u8>, y: int)
    requires
        0 <= y,
    ensures
        volume_id_at(p + q, p.len() + y) == volume_id_at(q, y),
{
    lemma_u32_shift(p, q, y);
    lemma_u32_shift(p, q, y + 4);
    lemma_u32_shift(p, q, y + 8);
    lemma_u32_shift(p, q, y + 12);
    lemma_u32_shift(p, q, y + 16);
    lemma_text_shift(p, q, y + le_u32_at(q, y + 12));
    lemma_text_shift(p, q, y + le_u32_at(q, y + 16));
}

proof fn lemma_network_shift(p: Seq<u8>, q: Seq<u8>, y: int)
    requires
        0 <= y,
    ensures
        network_link_at(p + q, p.len() + y) == network_link_at(q, y),
{
    lemma_u32_shift(p, q, y);
    lemma_u32_shift(p, q, y + 4);
    lemma_u32_shift(p, q, y + 8);
    lemma_u32_shift(p, q, y + 12);
    lemma_text_shift(p, q, y + le_u32_at(q, y + 8));
    lemma_text_shift(p, q, y + le_u32_at(q, y + 12));
}

/// The `LinkInfo` a run of bytes holds does not depend on what precedes it:
/// read inside a larger buffer at the point where the run begins, it is the
/// `LinkInfo` of the run on its own.
pub proof fn law_link_info_depends_only_on_its_bytes(p: Seq<u8>, q: Seq<u8>)
    ensures
        link_info_at(p + q, p.len() as int) == link_info_at(q, 0),
{
    let d = p + q;
    let b = p.len() as int;
    lemma_u32_shift(p, q, 0);
    lemma_u32_shift(p, q, 4);
    lemma_u32_shift(p, q, 8);
    lemma_u32_shift(p, q, 12);
    lemma_u32_shift(p, q, 16);
    lemma_u32_shift(p, q, 20);
    lemma_u32_shift(p, q, 28);
    assert(le_u32_at(d, b + 0) == le_u32_at(q, 0));
    lemma_volume_shift(p, q, le_u32_at(q, 12) as int);
    lemma_network_shift(p, q, le_u32_at(q, 20) as int);
    lemma_text_shift(p, q, le_u32_at(q, 16) as int);
    lemma_text_shift(p, q, le_u32_at(q, 28) as int);
}

proof fn lemma_header_kept(h: Seq<u8>, rest: Seq<u8>)
    requires
        h.len() == 0x4C,
        valid_header(h),
    ensures
        valid_header(h + rest),
        le_u32_at(h + rest, 20) == le_u32_at(h, 20),
{
    let d = h + rest;
    lemma_u32_prefix(h, rest, 0);
    lemma_u32_prefix(h, rest, 20);
    assert(d.subrange(4, 20) =~= h.subrange(4, 20));
}

proof fn lemma_idlist_read(h: Seq<u8>, blob: Seq<u8>, tail: Seq<u8>)
    requires
        h.len() == 0x4C,
        blob.len() < 0x1_0000,
    ensures
        ({
            let d = h + u16_le(blob.len()) + blob + tail;
            &&& crate::shell_link::idlist_blob_at(d, 0x4C) == blob
            &&& crate::shell_link::idlist_end(d, 0x4C) == (h + u16_le(blob.len()) + blob).len()
        }),
{
    let u = u16_le(blob.len());
    let d = h + u + blob + tail;
    assert(d[0x4C] == u[0] && d[0x4D] == u[1]);
    assert(le_u16_at(d, 0x4C) == blob.len());
    assert(d.subrange(0x4E, 0x4E + blob.len() as int) =~= blob);
}

/// The sections of a Shell Link follow each other exactly: with
/// `HasLinkTargetIDList` and `HasLinkInfo` set, the ID list is the
/// `IDListSize` bytes after its 2-byte size field, and the `LinkInfo` is the
/// one the bytes right after the ID list hold on their own.
pub proof fn law_sections_follow_each_other(h: Seq<u8>, blob: Seq<u8>, tail: Seq<u8>)
    requires
        h.len() == 0x4C,
        valid_header(h),
        has_bit(le_u32_at(h, 20), 0x1),
        has_bit(le_u32_at(h, 20), 0x2),
        blob.len() < 0x1_0000,
    ensures
        shell_link_of(h + u16_le(blob.len()) + blob + tail) matches Some(link)
            && link.link_target_idlist == Some(blob)
            && link.link_info == link_info_at(tail, 0),
{
    let u = u16_le(blob.len());
    let front = h + u + blob;
    let d = front + tail;
    assert(d =~= h + (u + blob + tail));
    lemma_header_kept(h, u + blob + tail);
    lemma_idlist_read(h, blob, tail);
    reveal(shell_link_of);
    law_link_info_depends_only_on_its_bytes(front, tail);
}

proof fn lemma_filetime_fits(ft: u64)
    ensures
        i64::MIN <= filetime_unix(ft) <= i64::MAX,
{
    let v = filetime_unix(ft);
    if ft != 0 {
        let signed = if ft < 0x8000_0000_0000_0000 { ft as int } else { ft as int - 0x1_0000_0000_0000_0000 };
        let w = crate::bytes::wrap_i64(signed - crate::bytes::FILETIME_UNIX_DELTA_100NS);
        assert(i64::MIN <= w <= i64::MAX);
        if w >= 0 {
            assert(w / 10_000_000 <= w);
        } else {
            assert((-w) / 10_000_000 <= -w);
        }
    }
}

/// The header fields of a parsed Shell Link sit at their documented offsets:
/// `LinkFlags` at 20, `FileAttributes` at 24, the creation, access and write
/// FILETIMEs at 28, 36 and 44, `FileSize` at 52, `IconIndex` at 56,
/// `ShowCommand` at 60 and `HotKey` at 64.
pub proof fn law_header_layout(d: Seq<u8>)
    requires
        valid_header(d),
    ensures
        shell_link_of(d) matches Some(link) && {
            &&& link.header.link_flags == le_u32_at(d, 20)
            &&& link.header.file_attributes == le_u32_at(d, 24)
            &&& link.header.creation_time == filetime_unix(le_u64_at(d, 28))
            &&& link.header.access_time == filetime_unix(le_u64_at(d, 36))
            &&& link.header.write_time == filetime_unix(le_u64_at(d, 44))
            &&& link.header.file_size == le_u32_at(d, 52)
            &&& link.header.icon_index == le_i32_at(d, 56)
            &&& link.header.show_command == le_u32_at(d, 60)
            &&& link.header.hotkey == le_u16_at(d, 64)
        },
{
    reveal(shell_link_of);
    lemma_filetime_fits(le_u64_at(d, 28));
    lemma_filetime_fits(le_u64_at(d, 36));
    lemma_filetime_fits(le_u64_at(d, 44));
}

/// A `LinkInfo` block reads its parts at their documented offsets: the
/// `VolumeID` at `VolumeIDOffset` (12) with `DriveType` and
/// `DriveSerialNumber` at +4 and +8, the ANSI local base path at
/// `LocalBasePathOffset` (16) when the header has no Unicode offsets, and the
/// network link at `CommonNetworkRelativeLinkOffset` (20) with its net name at
/// `NetNameOffset` (+8); a block without the volume flag has neither a
/// volume nor a local path.
pub proof fn law_link_info_layout(li: Seq<u8>)
    requires
        le_u32_at(li, 0) >= 0x1C,
    ensures
        link_info_at(li, 0) matches Some(info) && {
            let flags = le_u32_at(li, 8);
            let v = le_u32_at(li, 12) as int;
            let p = le_u32_at(li, 16) as int;
            let c = le_u32_at(li, 20) as int;
            &&& (has_bit(flags, 1) && v != 0 && le_u32_at(li, v) >= 0x10) ==> (info.volume_id matches Some(vol)
                && vol.drive_type == le_u32_at(li, v + 4) && vol.drive_serial_number == le_u32_at(li, v + 8))
            &&& !has_bit(flags, 1) ==> info.volume_id is None && info.local_base_path is None
            &&& (has_bit(flags, 1) && le_u32_at(li, 4) < 0x24 && p != 0) ==> info.local_base_path == ansi_z_at(li, p)
            &&& (has_bit(flags, 2) && c != 0 && le_u32_at(li, c) >= 0x14 && le_u32_at(li, c + 8) != 0)
                ==> (info.common_network_relative_link matches Some(net)
                    && net.net_name == ansi_z_at(li, c + le_u32_at(li, c + 8)))
            &&& !has_bit(flags, 2) ==> info.common_network_relative_link is None
        },
{
}

/// The removable-media note names the drive type in decimal and the drive
/// serial — the join key — in its padded hexadecimal rendering.
pub proof fn law_removable_note_names_type_and_serial(drive_type: u32, drive_serial: u32, path: Option<Seq<char>>)
    ensures
        contains_text(lnk_note(LnkAnomalyView::RemovableMediaTarget { drive_type, drive_serial, path }), decimal_text(drive_type as nat)),
        contains_text(lnk_note(LnkAnomalyView::RemovableMediaTarget { drive_type, drive_serial, path }), padded_hex32_text(drive_serial)),
{
    let n = lnk_note(LnkAnomalyView::RemovableMediaTarget { drive_type, drive_serial, path });
    let l1 = "the link target resolves to a removable/external volume (drive_type "@;
    let dec = decimal_text(drive_type as nat);
    let l2 = ", drive serial "@;
    let hx = padded_hex32_text(drive_serial);
    let i = l1.len() as int;
    let j = (l1.len() + dec.len() + l2.len()) as int;
    assert(n.subrange(i, i + dec.len()) =~= dec);
    assert(n.subrange(j, j + hx.len()) =~= hx);
}

} // verus!

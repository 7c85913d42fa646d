//! Windows Jump List reader — `*.automaticDestinations-ms` (a CFB compound
//! file holding a `DestList` MRU stream plus one embedded shell link per
//! entry) and `*.customDestinations-ms` (a flat run of embedded shell links).
//!
//! Declared shell-link sizes are not trusted: the custom-destinations splitter
//! scans for the class-identifier prefix and the footer, and `DestList` paths
//! are decoded lossily.
use vstd::prelude::*;

use crate::bytes::{filetime_to_unix, filetime_unix, le_i32, le_i32_at, le_u16, le_u16_at, le_u32, le_u32_at, le_u64, le_u64_at};
use crate::deps::{
    compound_magic, compound_stream, custom_footer_signature, custom_format_version, decode_utf16_lossy,
    decode_utf8_lossy, destlist_format_version_offset, destlist_header_size,
    entry_birth_file_offset, entry_birth_volume_offset, entry_droid_file_offset,
    entry_droid_volume_offset, entry_hostname_offset, entry_hostname_size, entry_last_access_offset,
    entry_number_offset, entry_pin_status_offset, entry_v1_path_offset, entry_v1_path_size_offset,
    entry_v2_access_count_offset, entry_v2_path_offset, entry_v2_path_size_offset,
    entry_v2_trailing_alignment, header_size, jumplist_lnk_clsid, link_clsid_text, opt_text,
    push_char, read_compound_stream, utf16_lossy, utf8_lossy,
};
use crate::shell_link::{opt_view, parse_shell_link, shell_link_of, ShellLink, ShellLinkView};
use crate::text::{ansi_field, ansi_field_at, copy_range, guid_string, guid_text, lower_hex_text, push_lower_hex, units_le};

verus! {

// ── Types ────────────────────────────────────────────────────────────────────

/// Which Jump List family a [`JumpList`] was parsed from.
#[non_exhaustive]
#[derive(Debug, Clone, Copy, PartialEq, Eq, Structural)]
pub enum JumpListKind {
    /// `*.automaticDestinations-ms` — a CFB compound file with a `DestList`
    /// MRU stream and one shell-link sub-stream per entry.
    Automatic,
    /// `*.customDestinations-ms` — flat category list of embedded shell links.
    Custom,
}

/// A parsed Jump List.
#[derive(Debug, Clone, PartialEq, Eq)]
pub struct JumpList {
    /// Which family the list came from.
    pub kind: JumpListKind,
    /// The owning application's `AppID` (lowercase hex), when the caller passed
    /// the source filename.
    pub app_id: Option<String>,
    /// The entries, in stream/category order.
    pub entries: Vec<JumpListEntry>,
}

/// The value a [`JumpList`] stands for.
pub struct JumpListView {
    pub kind: JumpListKind,
    pub app_id: Option<Seq<char>>,
    pub entries: Seq<JumpListEntryView>,
}

impl View for JumpList {
    type V = JumpListView;

    open spec fn view(&self) -> JumpListView {
        JumpListView {
            kind: self.kind,
            app_id: opt_text(self.app_id),
            entries: self.entries@.map_values(|e: JumpListEntry| e@),
        }
    }
}

/// One Jump List entry: an embedded shell link plus, for automatic
/// destinations, its `DestList` MRU metadata.
#[derive(Debug, Clone, PartialEq, Eq)]
pub struct JumpListEntry {
    /// The `DestList` MRU record, present only for automatic destinations.
    pub destlist: Option<DestListEntry>,
    /// The embedded `[MS-SHLLINK]` shell link.
    pub link: ShellLink,
}

/// The value a [`JumpListEntry`] stands for.
pub struct JumpListEntryView {
    pub destlist: Option<DestListEntryView>,
    pub link: ShellLinkView,
}

impl View for JumpListEntry {
    type V = JumpListEntryView;

    open spec fn view(&self) -> JumpListEntryView {
        JumpListEntryView { destlist: opt_view(self.destlist), link: self.link@ }
    }
}

/// A `DestList` stream entry — the per-target MRU metadata that accompanies an
/// embedded shell link in an automatic-destinations Jump List.
#[derive(Debug, Clone, PartialEq, Eq)]
pub struct DestListEntry {
    /// `DroidVolumeIdentifier` GUID, canonical form.
    pub droid_volume_guid: String,
    /// `DroidFileIdentifier` GUID, canonical form.
    pub droid_file_guid: String,
    /// `BirthDroidVolumeIdentifier` GUID (at creation), canonical form.
    pub birth_droid_volume_guid: String,
    /// `BirthDroidFileIdentifier` GUID (at creation), canonical form.
    pub birth_droid_file_guid: String,
    /// Origin hostname / NetBIOS name (NUL padding trimmed).
    pub hostname: String,
    /// Entry number — also the name of the LNK sub-stream (lowercase hex).
    pub entry_number: u32,
    /// Last-access time, Unix epoch seconds (0 when the FILETIME was 0).
    pub last_access: i64,
    /// Whether the entry is pinned (`PinStatus >= 0`).
    pub pinned: bool,
    /// Access count — present only in the v2+ (Windows 10/11) layout.
    pub access_count: Option<u32>,
    /// The target path recorded in the `DestList` (UTF-16, decoded lossily).
    pub path: String,
}

/// The value a [`DestListEntry`] stands for.
pub struct DestListEntryView {
    pub droid_volume_guid: Seq<char>,
    pub droid_file_guid: Seq<char>,
    pub birth_droid_volume_guid: Seq<char>,
    pub birth_droid_file_guid: Seq<char>,
    pub hostname: Seq<char>,
    pub entry_number: u32,
    pub last_access: i64,
    pub pinned: bool,
    pub access_count: Option<u32>,
    pub path: Seq<char>,
}

impl View for DestListEntry {
    type V = DestListEntryView;

    open spec fn view(&self) -> DestListEntryView {
        DestListEntryView {
            droid_volume_guid: self.droid_volume_guid@,
            droid_file_guid: self.droid_file_guid@,
            birth_droid_volume_guid: self.birth_droid_volume_guid@,
            birth_droid_file_guid: self.birth_droid_file_guid@,
            hostname: self.hostname@,
            entry_number: self.entry_number,
            last_access: self.last_access,
            pinned: self.pinned,
            access_count: self.access_count,
            path: self.path@,
        }
    }
}

// ── The AppID in a filename ──────────────────────────────────────────────────

/// Index of the last `c` in `s`, or -1.
pub open spec fn last_index_of(s: Seq<char>, c: char) -> int
    decreases s.len(),
{
    if s.len() == 0 {
        -1
    } else if s.last() == c {
        s.len() - 1
    } else {
        last_index_of(s.drop_last(), c)
    }
}

/// The part of `s` after its last `c` (all of `s` when there is none).
pub open spec fn after_last(s: Seq<char>, c: char) -> Seq<char> {
    s.subrange(last_index_of(s, c) + 1, s.len() as int)
}

/// Index of the first `c` in `s` at or after `i`, or `s.len()`.
pub open spec fn first_index_from(s: Seq<char>, c: char, i: int) -> int
    decreases s.len() - i,
{
    if i < 0 || i >= s.len() {
        s.len() as int
    } else if s[i] == c {
        i
    } else {
        first_index_from(s, c, i + 1)
    }
}

/// The part of `s` before its first `c` (all of `s` when there is none).
pub open spec fn before_first(s: Seq<char>, c: char) -> Seq<char> {
    s.take(first_index_from(s, c, 0))
}

/// Whether `c` is an ASCII hexadecimal digit.
pub open spec fn is_hex_char(c: char) -> bool {
    ('0' <= c && c <= '9') || ('a' <= c && c <= 'f') || ('A' <= c && c <= 'F')
}

/// `c` with an ASCII upper-case letter lowered.
pub open spec fn ascii_lower(c: char) -> char {
    if 'A' <= c && c <= 'Z' { ((c as int) + 32) as char } else { c }
}

/// The `AppID` of a Jump List filename such as
/// `1b4dd67f29cb1962.automaticDestinations-ms`: the last path component (after
/// `/`, then after `\`) up to its first `.`, lower-cased, when it is a
/// non-empty run of hexadecimal digits.
pub open spec fn app_id_of(name: Seq<char>) -> Option<Seq<char>> {
    let id = before_first(after_last(after_last(name, '/'), '\\'), '.');
    if id.len() > 0 && (forall|i: int| 0 <= i < id.len() ==> is_hex_char(#[trigger] id[i])) {
        Some(id.map_values(|c: char| ascii_lower(c)))
    } else {
        None
    }
}

/// The `AppID` a caller's optional filename yields.
pub open spec fn app_id_for(filename: Option<&str>) -> Option<Seq<char>> {
    match filename {
        Some(name) => app_id_of(name@),
        None => None,
    }
}

pub fn chars_of(s: &str) -> (r: Vec<char>)
    ensures
        r@ == s@,
{
    let n = s.unicode_len();
    let mut r: Vec<char> = Vec::new();
    let mut i: usize = 0;
    while i < n
        invariant
            n == s@.len(),
            i <= n,
            r@ == s@.take(i as int),
        decreases n - i,
    {
        r.push(s.get_char(i));
        i = i + 1;
        assert(r@ =~= s@.take(i as int));
    }
    assert(r@ =~= s@);
    r
}

fn after_last_char(v: &Vec<char>, c: char) -> (r: Vec<char>)
    ensures
        r@ == after_last(v@, c),
{
    let mut i = v.len();
    assert(v@.take(i as int) =~= v@);
    while i > 0 && v[i - 1] != c
        invariant
            i <= v@.len(),
            last_index_of(v@, c) == last_index_of(v@.take(i as int), c),
        decreases i,
    {
        assert(v@.take(i as int).drop_last() =~= v@.take(i - 1));
        i = i - 1;
    }
    proof {
        if i > 0 {
            assert(v@.take(i as int).last() == c);
        } else {
            assert(v@.take(0) =~= Seq::<char>::empty());
        }
    }
    let mut r: Vec<char> = Vec::new();
    let mut j = i;
    while j < v.len()
        invariant
            i <= j <= v@.len(),
            r@ == v@.subrange(i as int, j as int),
        decreases v@.len() - j,
    {
        r.push(v[j]);
        j = j + 1;
        assert(r@ =~= v@.subrange(i as int, j as int));
    }
    r
}

fn before_first_char(v: &Vec<char>, c: char) -> (r: Vec<char>)
    ensures
        r@ == before_first(v@, c),
{
    let mut r: Vec<char> = Vec::new();
    let mut i: usize = 0;
    while i < v.len() && v[i] != c
        invariant
            i <= v@.len(),
            r@ == v@.take(i as int),
            first_index_from(v@, c, 0) == first_index_from(v@, c, i as int),
        decreases v@.len() - i,
    {
        r.push(v[i]);
        i = i + 1;
        assert(r@ =~= v@.take(i as int));
    }
    r
}

fn is_hex_digit(c: char) -> (r: bool)
    ensures
        r == is_hex_char(c),
{
    ('0' <= c && c <= '9') || ('a' <= c && c <= 'f') || ('A' <= c && c <= 'F')
}

pub fn to_ascii_lower(c: char) -> (r: char)
    ensures
        r == ascii_lower(c),
{
    if 'A' <= c && c <= 'Z' {
        let b = c as u8;
        (b + 32) as char
    } else {
        c
    }
}

/// Extract the `AppID` (lowercase hex) from a Jump List filename such as
/// `1b4dd67f29cb1962.automaticDestinations-ms`.
fn appid_from_filename(name: &str) -> (r: Option<String>)
    ensures
        opt_text(r) == app_id_of(name@),
{
    let all = chars_of(name);
    let tail = after_last_char(&all, '/');
    let stem = after_last_char(&tail, '\\');
    let id = before_first_char(&stem, '.');
    if id.len() == 0 {
        return None;
    }
    let mut out = String::new();
    let mut i: usize = 0;
    while i < id.len()
        invariant
            id@ == before_first(after_last(after_last(name@, '/'), '\\'), '.'),
            i <= id@.len(),
            forall|k: int| 0 <= k < i ==> is_hex_char(#[trigger] id@[k]),
            out@ == id@.take(i as int).map_values(|c: char| ascii_lower(c)),
        decreases id@.len() - i,
    {
        if !is_hex_digit(id[i]) {
            assert(!is_hex_char(id@[i as int]));
            return None;
        }
        push_char(&mut out, to_ascii_lower(id[i]));
        i = i + 1;
        assert(out@ =~= id@.take(i as int).map_values(|c: char| ascii_lower(c)));
    }
    assert(id@.take(i as int) =~= id@);
    Some(out)
}

fn appid_for_filename(filename: Option<&str>) -> (r: Option<String>)
    ensures
        opt_text(r) == app_id_for(filename),
{
    match filename {
        Some(name) => appid_from_filename(name),
        None => None,
    }
}

// ── DestList ────────────────────────────────────────────────────────────────

/// The UTF-16LE code units of `count` characters at `off`; none when they do
/// not all lie inside `d`.
pub open spec fn path_units(d: Seq<u8>, off: int, count: int) -> Seq<u16> {
    if 0 <= off && off + 2 * count <= d.len() {
        units_le(d.subrange(off, off + 2 * count))
    } else {
        Seq::empty()
    }
}

/// The 16 bytes at `start` as a GUID string, or empty text when they do not
/// all lie inside `d`.
pub open spec fn guid_field(d: Seq<u8>, start: int) -> Seq<char> {
    if 0 <= start && start + 16 <= d.len() { guid_text(d.subrange(start, start + 16)) } else { Seq::empty() }
}

/// Offset of the path length in an entry (v2+ when `extended`).
pub open spec fn path_size_offset(extended: bool) -> int {
    if extended { 128 } else { 112 }
}

/// Offset of the path in an entry (v2+ when `extended`).
pub open spec fn path_offset(extended: bool) -> int {
    if extended { 130 } else { 114 }
}

/// The `DestList` entry anchored at `base`.
#[verifier::opaque]
pub open spec fn destlist_entry_at(d: Seq<u8>, base: int, extended: bool) -> DestListEntryView {
    DestListEntryView {
        droid_volume_guid: guid_field(d, base + 8),
        droid_file_guid: guid_field(d, base + 24),
        birth_droid_volume_guid: guid_field(d, base + 40),
        birth_droid_file_guid: guid_field(d, base + 56),
        hostname: ansi_field(d, base + 72, 16),
        entry_number: le_u32_at(d, base + 88),
        last_access: filetime_unix(le_u64_at(d, base + 100)) as i64,
        pinned: le_i32_at(d, base + 108) >= 0,
        access_count: if extended { Some(le_u32_at(d, base + 116)) } else { None },
        path: utf16_lossy(path_units(d, base + path_offset(extended), le_u16_at(d, base + path_size_offset(extended)) as int)),
    }
}

/// The offset of the entry after the one anchored at `base`: past the path
/// and, for v2+, the 4 bytes of alignment.
pub open spec fn destlist_entry_end(d: Seq<u8>, base: int, extended: bool) -> int {
    base + path_offset(extended) + 2 * (le_u16_at(d, base + path_size_offset(extended)) as int)
        + if extended { 4int } else { 0int }
}

/// The `DestList` entries from `off` on, while a pin status still fits.
pub open spec fn destlist_records(d: Seq<u8>, off: int, extended: bool) -> Seq<DestListEntryView>
    decreases (if off <= d.len() { d.len() - off + 1 } else { 0 }),
{
    if 0 <= off && off + 112 <= d.len() {
        seq![destlist_entry_at(d, off, extended)] + destlist_records(d, destlist_entry_end(d, off, extended), extended)
    } else {
        Seq::empty()
    }
}

/// Whether a `DestList` stream uses the v2+ entry layout (format version >= 2).
pub open spec fn destlist_extended(destlist: Seq<u8>) -> bool {
    le_u32_at(destlist, 0) >= 2
}

/// All entries of a `DestList` stream, after its 32-byte header.
pub open spec fn destlist_entries(destlist: Seq<u8>) -> Seq<DestListEntryView> {
    destlist_records(destlist, 32, destlist_extended(destlist))
}

/// `off + 2 * count`, saturating at the top of the `u128` range.
pub open spec fn units_end(off: u128, count: u128) -> u128 {
    if off + 2 * count > u128::MAX { u128::MAX } else { (off + 2 * count) as u128 }
}

/// Decode `count` UTF-16LE code units starting at `off`, lossily, with the
/// offset just past them (saturating); no units when they overrun `data`.
fn utf16le_lossy(data: &[u8], off: u128, count: u128) -> (r: (String, u128))
    ensures
        r.0@ == utf16_lossy(path_units(data@, off as int, count as int)),
        r.1 == units_end(off, count),
{
    let byte_len: u128 = if count > u128::MAX / 2 { u128::MAX } else { 2 * count };
    let end = off.saturating_add(byte_len);
    let bytes = if end <= data.len() as u128 {
        copy_range(data, off as usize, end as usize)
    } else {
        Vec::new()
    };
    let mut units: Vec<u16> = Vec::new();
    let mut i: usize = 0;
    let n = bytes.len() / 2;
    assert(2 * n <= bytes@.len());
    while i < n
        invariant
            n == bytes@.len() / 2,
            2 * n <= bytes@.len() <= usize::MAX,
            i <= n,
            units@ == units_le(bytes@).take(i as int),
        decreases n - i,
    {
        let j = i + i;
        let unit = bytes[j] as u16 + 256 * (bytes[j + 1] as u16);
        units.push(unit);
        i = i + 1;
        assert(units@ =~= units_le(bytes@).take(i as int));
    }
    assert(units@ =~= units_le(bytes@));
    assert(units_le(Seq::<u8>::empty()) =~= Seq::<u16>::empty());
    (decode_utf16_lossy(units.as_slice()), end)
}

/// The GUID string at `start`, or an empty string when it does not fit.
fn guid_field_at(data: &[u8], start: u128) -> (r: String)
    ensures
        r@ == guid_field(data@, start as int),
{
    if start <= data.len() as u128 && 16 <= data.len() as u128 - start {
        let g = guid_string(&data[start as usize..(start + 16) as usize]);
        match g {
            Some(text) => text,
            None => String::new(),
        }
    } else {
        String::new()
    }
}

/// Parse one `DestList` entry anchored at `base`: the decoded entry and the
/// offset of the next entry (past the path and, for v2+, the alignment).
fn parse_destlist_entry(data: &[u8], base: u128, extended: bool) -> (r: (DestListEntry, u128))
    requires
        base <= 0x1_0000_0000_0000_0000,
    ensures
        r.0@ == destlist_entry_at(data@, base as int, extended),
        r.1 as int == destlist_entry_end(data@, base as int, extended),
{
    reveal(destlist_entry_at);
    let droid_volume_guid = guid_field_at(data, base + entry_droid_volume_offset() as u128);
    let droid_file_guid = guid_field_at(data, base + entry_droid_file_offset() as u128);
    let birth_droid_volume_guid = guid_field_at(data, base + entry_birth_volume_offset() as u128);
    let birth_droid_file_guid = guid_field_at(data, base + entry_birth_file_offset() as u128);
    let hostname = ansi_field_at(data, base + entry_hostname_offset() as u128, entry_hostname_size() as u128);

    let entry_number = le_u32(data, base + entry_number_offset() as u128);
    let last_access = filetime_to_unix(le_u64(data, base + entry_last_access_offset() as u128));
    let pin_status = le_i32(data, base + entry_pin_status_offset() as u128);
    let pinned = pin_status >= 0;

    let (access_count, path_size_off, path_off, trailing) = if extended {
        (
            Some(le_u32(data, base + entry_v2_access_count_offset() as u128)),
            entry_v2_path_size_offset() as u128,
            entry_v2_path_offset() as u128,
            entry_v2_trailing_alignment() as u128,
        )
    } else {
        (None, entry_v1_path_size_offset() as u128, entry_v1_path_offset() as u128, 0)
    };

    let path_chars = le_u16(data, base + path_size_off) as u128;
    let (path, after_path) = utf16le_lossy(data, base + path_off, path_chars);
    let next = after_path + trailing;
    (
        DestListEntry {
            droid_volume_guid,
            droid_file_guid,
            birth_droid_volume_guid,
            birth_droid_file_guid,
            hostname,
            entry_number,
            last_access,
            pinned,
            access_count,
            path,
        },
        next,
    )
}

// ── Automatic destinations ──────────────────────────────────────────────────

proof fn lemma_records_step(d: Seq<u8>, off: int, extended: bool)
    requires
        0 <= off,
        off + 112 <= d.len(),
    ensures
        destlist_records(d, off, extended) == seq![destlist_entry_at(d, off, extended)]
            + destlist_records(d, destlist_entry_end(d, off, extended), extended),
{
}

/// Parse every entry of a `DestList` stream: one record after another from
/// the end of its 32-byte header, while a pin status still fits, in the v2+
/// layout when the stream's format version is 2 or more.
pub fn parse_destlist(destlist: &[u8]) -> (r: Vec<DestListEntry>)
    ensures
        r@.map_values(|e: DestListEntry| e@) == destlist_entries(destlist@),
{
    let len = destlist.len() as u128;
    let format_version = le_u32(destlist, destlist_format_version_offset() as u128);
    let extended = format_version >= 2;
    let ghost records = destlist_entries(destlist@);

    let mut out: Vec<DestListEntry> = Vec::new();
    let mut off: u128 = destlist_header_size() as u128;
    let pin_end = entry_pin_status_offset() as u128 + 4;
    assert(out@.map_values(|e: DestListEntry| e@) + destlist_records(destlist@, off as int, extended) =~= records);
    // Bound the walk by the buffer; each iteration makes forward progress.
    while off + pin_end <= len
        invariant
            len == destlist@.len() <= usize::MAX,
            pin_end == 112,
            extended == destlist_extended(destlist@),
            records == destlist_entries(destlist@),
            off <= len + 0x4_0000,
            out@.map_values(|e: DestListEntry| e@) + destlist_records(destlist@, off as int, extended) == records,
        decreases len + 0x4_0000 - off,
    {
        let (entry, next) = parse_destlist_entry(destlist, off, extended);
        proof {
            lemma_records_step(destlist@, off as int, extended);
        }
        let ghost prev = out@.map_values(|e: DestListEntry| e@);
        let ghost this = entry@;
        out.push(entry);
        assert(out@.map_values(|e: DestListEntry| e@) =~= prev.push(this));
        assert(prev + destlist_records(destlist@, off as int, extended)
            =~= prev.push(this) + destlist_records(destlist@, next as int, extended));
        off = next;
    }
    assert(destlist_records(destlist@, off as int, extended) =~= Seq::<DestListEntryView>::empty());
    assert(out@.map_values(|e: DestListEntry| e@) =~= records);
    out
}

/// A copy of a `DestList` record.
fn copy_record(e: &DestListEntry) -> (r: DestListEntry)
    ensures
        r@ == e@,
{
    DestListEntry {
        droid_volume_guid: e.droid_volume_guid.clone(),
        droid_file_guid: e.droid_file_guid.clone(),
        birth_droid_volume_guid: e.birth_droid_volume_guid.clone(),
        birth_droid_file_guid: e.birth_droid_file_guid.clone(),
        hostname: e.hostname.clone(),
        entry_number: e.entry_number,
        last_access: e.last_access,
        pinned: e.pinned,
        access_count: e.access_count,
        path: e.path.clone(),
    }
}

/// The shell-link stream a `DestList` record names: the sub-stream whose
/// name is the record's entry number in lowercase hexadecimal.
pub open spec fn record_stream(file: Seq<u8>, record: DestListEntryView) -> Option<Seq<u8>> {
    compound_stream(file, lower_hex_text(record.entry_number as nat))
}

/// The entries of an automatic-destinations file: a `DestList` record is
/// kept, with the link parsed from its stream, when that stream reads back
/// and holds a valid Shell Link.
#[verifier::opaque]
pub open spec fn automatic_entries(file: Seq<u8>, records: Seq<DestListEntryView>) -> Seq<JumpListEntryView>
    decreases records.len(),
{
    if records.len() == 0 {
        Seq::empty()
    } else {
        let rest = automatic_entries(file, records.drop_last());
        match record_stream(file, records.last()) {
            Some(lnk) => match shell_link_of(lnk) {
                Some(link) => rest.push(JumpListEntryView { destlist: Some(records.last()), link }),
                None => rest,
            },
            None => rest,
        }
    }
}

/// What [`parse_automatic_destinations`] gives for the bytes `file` and the
/// optional `filename`: nothing when no `DestList` stream reads back from
/// them, else the entries of its records.
pub open spec fn automatic_list_of(file: Seq<u8>, filename: Option<&str>) -> Option<JumpListView> {
    match compound_stream(file, "DestList"@) {
        Some(destlist) => Some(JumpListView {
            kind: JumpListKind::Automatic,
            app_id: app_id_for(filename),
            entries: automatic_entries(file, destlist_entries(destlist)),
        }),
        None => None,
    }
}

proof fn lemma_entries_push(file: Seq<u8>, records: Seq<DestListEntryView>, record: DestListEntryView)
    ensures
        automatic_entries(file, records.push(record)) == match record_stream(file, record) {
            Some(lnk) => match shell_link_of(lnk) {
                Some(link) => automatic_entries(file, records).push(
                    JumpListEntryView { destlist: Some(record), link },
                ),
                None => automatic_entries(file, records),
            },
            None => automatic_entries(file, records),
        },
{
    reveal(automatic_entries);
    assert(records.push(record).drop_last() =~= records);
}

/// Parse a `*.automaticDestinations-ms` Jump List from its bytes.
///
/// Opens the bytes as a CFB compound file, reads the `DestList` MRU stream,
/// and for each of its records reads the matching hex-named shell-link
/// sub-stream and decodes it with [`parse_shell_link`]; records whose stream
/// is missing or not a valid Shell Link are skipped. `app_id` is taken from
/// `filename`.
///
/// Returns `None` when the bytes are not a compound file or carry no
/// `DestList` stream.
pub fn parse_automatic_destinations(data: &[u8], filename: Option<&str>) -> (r: Option<JumpList>)
    ensures
        opt_view(r) == automatic_list_of(data@, filename),
        data@.len() < 512 || data@.subrange(0, 8) != compound_magic() ==> r is None,
{
    let destlist = match read_compound_stream(data, "DestList") {
        Some(v) => v,
        None => return None,
    };
    let records = parse_destlist(destlist.as_slice());
    let ghost rs = records@.map_values(|e: DestListEntry| e@);

    let mut entries: Vec<JumpListEntry> = Vec::new();
    let mut i: usize = 0;
    assert(rs.take(0) =~= Seq::<DestListEntryView>::empty());
    assert(automatic_entries(data@, rs.take(0)) =~= Seq::<JumpListEntryView>::empty()) by {
        reveal(automatic_entries);
    }
    while i < records.len()
        invariant
            rs == records@.map_values(|e: DestListEntry| e@),
            i <= records@.len(),
            entries@.map_values(|e: JumpListEntry| e@) == automatic_entries(data@, rs.take(i as int)),
        decreases records@.len() - i,
    {
        let record = &records[i];
        // The LNK sub-stream is named by the entry number in lowercase hex.
        let mut stream_name = String::new();
        push_lower_hex(&mut stream_name, record.entry_number);
        assert(stream_name@ =~= lower_hex_text(record.entry_number as nat));
        let lnk = read_compound_stream(data, stream_name.as_str());
        proof {
            lemma_entries_push(data@, rs.take(i as int), rs[i as int]);
            assert(rs.take(i + 1) =~= rs.take(i as int).push(rs[i as int]));
        }
        match lnk {
            Some(bytes) => match parse_shell_link(bytes.as_slice()) {
                Some(link) => {
                    entries.push(JumpListEntry { destlist: Some(copy_record(record)), link });
                },
                None => {},
            },
            None => {},
        }
        assert(entries@.map_values(|e: JumpListEntry| e@) =~= automatic_entries(data@, rs.take(i + 1)));
        i = i + 1;
    }
    assert(rs.take(i as int) =~= rs);
    Some(JumpList { kind: JumpListKind::Automatic, app_id: appid_for_filename(filename), entries })
}

// ── Custom destinations ─────────────────────────────────────────────────────

/// `t` with every `-` removed.
#[verifier::opaque]
pub open spec fn strip_dashes(t: Seq<char>) -> Seq<char>
    decreases t.len(),
{
    if t.len() == 0 {
        Seq::empty()
    } else if t.last() == '-' {
        strip_dashes(t.drop_last())
    } else {
        strip_dashes(t.drop_last()).push(t.last())
    }
}

/// The value of a hexadecimal digit, or -1.
pub open spec fn hex_value(c: char) -> int {
    if '0' <= c && c <= '9' {
        c as int - '0' as int
    } else if 'a' <= c && c <= 'f' {
        c as int - 'a' as int + 10
    } else if 'A' <= c && c <= 'F' {
        c as int - 'A' as int + 10
    } else {
        -1
    }
}

/// Byte `i` of a run of hexadecimal digit pairs; 0 when the pair is missing
/// or not two hexadecimal digits.
pub open spec fn hex_pair(h: Seq<char>, i: int) -> u8 {
    if 2 * i + 1 < h.len() && hex_value(h[2 * i]) >= 0 && hex_value(h[2 * i + 1]) >= 0 {
        (16 * hex_value(h[2 * i]) + hex_value(h[2 * i + 1])) as u8
    } else {
        0
    }
}

/// The 16 wire bytes of a GUID given in 8-4-4-4-12 text: the first three
/// groups little-endian, the last two in order.
pub open spec fn guid_wire_of(text: Seq<char>) -> Seq<u8> {
    let h = strip_dashes(text);
    seq![
        hex_pair(h, 3), hex_pair(h, 2), hex_pair(h, 1), hex_pair(h, 0),
        hex_pair(h, 5), hex_pair(h, 4), hex_pair(h, 7), hex_pair(h, 6),
        hex_pair(h, 8), hex_pair(h, 9), hex_pair(h, 10), hex_pair(h, 11),
        hex_pair(h, 12), hex_pair(h, 13), hex_pair(h, 14), hex_pair(h, 15),
    ]
}

/// The class-identifier bytes that prefix each embedded shell link.
pub open spec fn lnk_clsid_wire() -> Seq<u8> {
    guid_wire_of(link_clsid_text())
}

/// The footer signature `0xBABFFBAB` as its four little-endian bytes.
pub open spec fn footer_bytes() -> Seq<u8> {
    seq![0xABu8, 0xFBu8, 0xBFu8, 0xBAu8]
}

/// Whether a shell-object entry begins at `p`: the class-identifier prefix,
/// then a Shell Link header (`HeaderSize` 0x4C and the class identifier again).
pub open spec fn entry_prefix_at(d: Seq<u8>, p: int) -> bool {
    &&& 0 <= p && p + 36 <= d.len()
    &&& d.subrange(p, p + 16) == lnk_clsid_wire()
    &&& le_u32_at(d, p + 16) == 0x4C
    &&& d.subrange(p + 20, p + 36) == lnk_clsid_wire()
}

/// The shell-object entry starts found scanning from `i`: after a match the
/// scan skips the embedded header so its own class identifier is not taken
/// for the next entry.
pub open spec fn entry_starts_from(d: Seq<u8>, i: int) -> Seq<int>
    decreases (if i <= d.len() { d.len() - i + 1 } else { 0 }),
{
    if 0 <= i && i + 36 <= d.len() {
        if entry_prefix_at(d, i) {
            seq![i] + entry_starts_from(d, i + 92)
        } else {
            entry_starts_from(d, i + 1)
        }
    } else {
        Seq::empty()
    }
}

/// The first footer signature at or after `i` that ends by `hard_end`.
pub open spec fn footer_from(d: Seq<u8>, i: int, hard_end: int) -> Option<int>
    decreases hard_end - i,
{
    if 0 <= i && i + 4 <= hard_end && hard_end <= d.len() {
        if d.subrange(i, i + 4) == footer_bytes() {
            Some(i)
        } else {
            footer_from(d, i + 1, hard_end)
        }
    } else {
        None
    }
}

/// The footer signature within `start..hard_end`, when that range lies in `d`.
pub open spec fn footer_in(d: Seq<u8>, start: int, hard_end: int) -> Option<int> {
    if 0 <= start <= hard_end <= d.len() { footer_from(d, start, hard_end) } else { None }
}

/// The shell link embedded at entry `k` of `starts`: its bytes run from just
/// after the prefix to the next entry, the footer, or the end of `d`.
pub open spec fn custom_link_at(d: Seq<u8>, starts: Seq<int>, k: int) -> Option<ShellLinkView> {
    let lnk_start = starts[k] + 16;
    let hard_end = if k + 1 < starts.len() { starts[k + 1] } else { d.len() as int };
    let end = match footer_in(d, lnk_start, hard_end) {
        Some(e) => e,
        None => hard_end,
    };
    if 0 <= lnk_start <= end <= d.len() { shell_link_of(d.subrange(lnk_start, end)) } else { None }
}

/// The entries of the first `n` entry starts whose shell link is valid.
pub open spec fn custom_entries(d: Seq<u8>, starts: Seq<int>, n: int) -> Seq<JumpListEntryView>
    decreases n,
{
    if n <= 0 {
        Seq::empty()
    } else {
        let rest = custom_entries(d, starts, n - 1);
        match custom_link_at(d, starts, n - 1) {
            Some(link) => rest.push(JumpListEntryView { destlist: None, link }),
            None => rest,
        }
    }
}

/// The custom-destinations Jump List that `d` encodes, or `None` when its
/// format version is not 2.
pub open spec fn custom_list_of(d: Seq<u8>, filename: Option<&str>) -> Option<JumpListView> {
    if le_u32_at(d, 0) != 2 {
        None
    } else {
        let starts = entry_starts_from(d, 12);
        Some(JumpListView {
            kind: JumpListKind::Custom,
            app_id: app_id_for(filename),
            entries: custom_entries(d, starts, starts.len() as int),
        })
    }
}

fn hex_digit_value(c: char) -> (r: i32)
    ensures
        r as int == hex_value(c),
{
    if '0' <= c && c <= '9' {
        (c as u8 - 48) as i32
    } else if 'a' <= c && c <= 'f' {
        (c as u8 - 97 + 10) as i32
    } else if 'A' <= c && c <= 'F' {
        (c as u8 - 65 + 10) as i32
    } else {
        -1
    }
}

/// The `[MS-SHLLINK]` class identifier as its 16 little-endian wire bytes,
/// derived from `forensicnomicon::jumplist::LNK_CLSID`.
fn clsid_wire_bytes() -> (r: Vec<u8>)
    ensures
        r@ == lnk_clsid_wire(),
{
    let text = chars_of(jumplist_lnk_clsid());
    let mut hex: Vec<char> = Vec::new();
    assert(strip_dashes(text@.take(0)) =~= Seq::<char>::empty()) by {
        reveal(strip_dashes);
    }
    let mut i: usize = 0;
    while i < text.len()
        invariant
            i <= text@.len(),
            hex@ == strip_dashes(text@.take(i as int)),
        decreases text@.len() - i,
    {
        assert(text@.take(i + 1).drop_last() =~= text@.take(i as int));
        proof {
            reveal_with_fuel(strip_dashes, 1);
        }
        if text[i] != '-' {
            hex.push(text[i]);
        }
        i = i + 1;
    }
    assert(text@.take(i as int) =~= text@);
    let mut raw: Vec<u8> = Vec::new();
    let mut k: usize = 0;
    while k < 16
        invariant
            k <= 16,
            raw@.len() == k,
            forall|j: int| 0 <= j < k ==> raw@[j] == hex_pair(hex@, j),
        decreases 16 - k,
    {
        let mut value: u8 = 0;
        if k * 2 + 1 < hex.len() {
            let hi = hex_digit_value(hex[k * 2]);
            let lo = hex_digit_value(hex[k * 2 + 1]);
            if hi >= 0 && lo >= 0 {
                value = (16 * hi + lo) as u8;
            }
        }
        raw.push(value);
        k = k + 1;
    }
    let r = vec![
        raw[3], raw[2], raw[1], raw[0], raw[5], raw[4], raw[7], raw[6],
        raw[8], raw[9], raw[10], raw[11], raw[12], raw[13], raw[14], raw[15],
    ];
    assert(r@ =~= lnk_clsid_wire());
    r
}

/// Whether `data[at..at + 16]` equals `wire`.
fn bytes_equal_at(data: &[u8], at: usize, wire: &Vec<u8>) -> (r: bool)
    requires
        at + 16 <= data@.len(),
        wire@.len() == 16,
    ensures
        r == (data@.subrange(at as int, at + 16) == wire@),
{
    let mut i: usize = 0;
    let _len = data.len();
    while i < 16
        invariant
            at + 16 <= data@.len() <= usize::MAX,
            wire@.len() == 16,
            i <= 16,
            forall|j: int| 0 <= j < i ==> data@[at + j] == wire@[j],
        decreases 16 - i,
    {
        if data[at + i] != wire[i] {
            assert(data@.subrange(at as int, at + 16)[i as int] != wire@[i as int]);
            return false;
        }
        i = i + 1;
    }
    assert(data@.subrange(at as int, at + 16) =~= wire@);
    true
}

/// Whether a shell-object entry begins at `p`.
fn is_entry_prefix(data: &[u8], p: usize, wire: &Vec<u8>) -> (r: bool)
    requires
        p + 36 <= data@.len(),
        wire@ == lnk_clsid_wire(),
    ensures
        r == entry_prefix_at(data@, p as int),
{
    let _len = data.len();
    bytes_equal_at(data, p, wire) && le_u32(data, p as u128 + 16) == header_size()
        && bytes_equal_at(data, p + 20, wire)
}

/// Find the footer signature within `start..hard_end`, returning the offset
/// where it begins (so the shell-link slice ends there).
fn footer_before(data: &[u8], start: usize, hard_end: usize) -> (r: Option<usize>)
    ensures
        match r {
            Some(e) => footer_in(data@, start as int, hard_end as int) == Some(e as int),
            None => footer_in(data@, start as int, hard_end as int) is None,
        },
{
    if start > hard_end || hard_end > data.len() {
        return None;
    }
    let sig = custom_footer_signature();
    let s0 = (sig & 0xFF) as u8;
    let s1 = ((sig >> 8) & 0xFF) as u8;
    let s2 = ((sig >> 16) & 0xFF) as u8;
    let s3 = ((sig >> 24) & 0xFF) as u8;
    assert(s0 == 0xAB && s1 == 0xFB && s2 == 0xBF && s3 == 0xBA) by (bit_vector)
        requires sig == 0xBABF_FBABu32, s0 == (sig & 0xFF) as u8, s1 == ((sig >> 8) & 0xFF) as u8,
            s2 == ((sig >> 16) & 0xFF) as u8, s3 == ((sig >> 24) & 0xFF) as u8;
    let mut i = start;
    while hard_end - i >= 4
        invariant
            start <= i <= hard_end,
            hard_end <= data@.len() <= usize::MAX,
            s0 == 0xAB && s1 == 0xFB && s2 == 0xBF && s3 == 0xBA,
            footer_from(data@, i as int, hard_end as int) == footer_from(data@, start as int, hard_end as int),
        decreases hard_end - i,
    {
        if data[i] == s0 && data[i + 1] == s1 && data[i + 2] == s2 && data[i + 3] == s3 {
            assert(data@.subrange(i as int, i + 4) =~= footer_bytes());
            return Some(i);
        }
        assert(data@.subrange(i as int, i + 4)[0] == data@[i as int]);
        assert(data@.subrange(i as int, i + 4)[1] == data@[i + 1]);
        assert(data@.subrange(i as int, i + 4)[2] == data@[i + 2]);
        assert(data@.subrange(i as int, i + 4)[3] == data@[i + 3]);
        i = i + 1;
    }
    None
}

/// The entry starts of `starts` as integers.
pub open spec fn start_positions(starts: Seq<usize>) -> Seq<int> {
    starts.map_values(|p: usize| p as int)
}

/// Parse a `*.customDestinations-ms` Jump List from its bytes.
///
/// Validates the header (`FormatVersion == 2`), then splits the embedded
/// shell links by scanning for the class-identifier prefix and the
/// `0xBABFFBAB` footer — declared sizes are not trusted — and decodes each
/// with [`parse_shell_link`]. The entries are returned flat in file order.
///
/// Returns `None` when the header format version is not 2.
pub fn parse_custom_destinations(data: &[u8], filename: Option<&str>) -> (r: Option<JumpList>)
    ensures
        opt_view(r) == custom_list_of(data@, filename),
        r is None <==> le_u32_at(data@, 0) != 2,
{
    if le_u32(data, 0) != custom_format_version() {
        return None;
    }
    let wire = clsid_wire_bytes();
    let len = data.len();
    let ghost d = data@;
    let ghost all_starts = entry_starts_from(d, 12);

    // Find each shell-object-entry boundary (skip past the embedded header
    // after a match so its own class identifier is never taken for an entry).
    let mut starts: Vec<usize> = Vec::new();
    let mut i: u128 = 12;
    let skip = 16 + header_size() as u128;
    assert(start_positions(starts@) + entry_starts_from(d, i as int) =~= all_starts);
    while i + 36 <= len as u128
        invariant
            len == d.len() <= usize::MAX,
            d == data@,
            wire@ == lnk_clsid_wire(),
            skip == 92,
            12 <= i <= len + 92,
            start_positions(starts@) + entry_starts_from(d, i as int) == all_starts,
            forall|k: int| 0 <= k < starts@.len() ==> #[trigger] starts@[k] + 36 <= len,
        decreases len + 92 - i,
    {
        let ghost before = starts@;
        if is_entry_prefix(data, i as usize, &wire) {
            starts.push(i as usize);
            assert(start_positions(starts@) =~= start_positions(before) + seq![i as int]);
            i = i + skip;
        } else {
            i = i + 1;
        }
        assert(start_positions(starts@) + entry_starts_from(d, i as int) =~= all_starts);
    }
    assert(start_positions(starts@) =~= all_starts);

    let n = starts.len();
    let mut entries: Vec<JumpListEntry> = Vec::new();
    let mut idx: usize = 0;
    while idx < n
        invariant
            len == d.len() <= usize::MAX,
            d == data@,
            n == starts@.len(),
            start_positions(starts@) == all_starts,
            forall|k: int| 0 <= k < starts@.len() ==> #[trigger] starts@[k] + 36 <= len,
            idx <= n,
            entries@.map_values(|e: JumpListEntry| e@) == custom_entries(d, all_starts, idx as int),
        decreases n - idx,
    {
        // The LNK data begins right after the 16-byte prefix and runs to the
        // next entry prefix, the footer signature, or end-of-buffer.
        let prefix = starts[idx];
        let lnk_start = prefix + 16;
        let hard_end = if idx + 1 < n { starts[idx + 1] } else { len };
        let end = match footer_before(data, lnk_start, hard_end) {
            Some(e) => e,
            None => hard_end,
        };
        assert(all_starts[idx as int] == prefix as int);
        assert(idx + 1 < n ==> all_starts[idx + 1] == hard_end as int);
        let ghost prev = entries@.map_values(|e: JumpListEntry| e@);
        if lnk_start <= end && end <= len {
            let slice = &data[lnk_start..end];
            match parse_shell_link(slice) {
                Some(link) => {
                    entries.push(JumpListEntry { destlist: None, link });
                    assert(entries@.map_values(|e: JumpListEntry| e@) =~= custom_entries(d, all_starts, idx + 1));
                },
                None => {
                    assert(entries@.map_values(|e: JumpListEntry| e@) =~= custom_entries(d, all_starts, idx + 1));
                },
            }
        } else {
            assert(entries@.map_values(|e: JumpListEntry| e@) =~= custom_entries(d, all_starts, idx + 1));
        }
        idx = idx + 1;
    }

    let jl = JumpList { kind: JumpListKind::Custom, app_id: appid_for_filename(filename), entries };
    assert(jl@.entries == custom_entries(d, all_starts, all_starts.len() as int));
    Some(jl)
}

} // verus!

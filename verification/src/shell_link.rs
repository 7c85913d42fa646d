//! The `[MS-SHLLINK]` Shell Link reader: bytes in, a typed [`ShellLink`] out.
//!
//! Every read is bounds-checked and no length field is trusted: a truncated or
//! hostile body degrades to absent sub-structures, and only a wrong
//! `HeaderSize` or `LinkCLSID` makes the whole parse `None`.
use vstd::prelude::*;

use crate::bytes::{
    filetime_to_unix, filetime_unix, le_i32, le_i32_at, le_u16, le_u16_at, le_u32, le_u32_at,
    le_u64, le_u64_at,
};
use crate::deps::{
    flag_has_arguments, flag_has_icon_location, flag_has_link_info,
    flag_has_link_target_id_list, flag_has_name, flag_has_relative_path, flag_has_working_dir,
    flag_is_unicode, header_size, link_clsid, link_clsid_text, opt_text, terminal_block_size,
    tracker_block_signature, utf16_lossy, utf8_lossy, decode_utf8_lossy, all_ascii,
};
use crate::text::{
    lemma_utf16_lossy_empty, ansi_field, ansi_field_at, ansi_z, ansi_z_at, copy_range, decode_utf16le, guid_of, guid_string, guid_text, unicode_z,
    unicode_z_at, units_le,
};

verus! {

/// The view of an optional value.
pub open spec fn opt_view<T: View>(o: Option<T>) -> Option<T::V> {
    match o {
        Some(t) => Some(t@),
        None => None,
    }
}

/// An optional string, kept only when it is non-empty.
pub open spec fn nonempty(o: Option<Seq<char>>) -> Option<Seq<char>> {
    match o {
        Some(s) => if s.len() > 0 { Some(s) } else { None },
        None => None,
    }
}

/// Whether bit `bit` of `flags` is set.
pub open spec fn has_bit(flags: u32, bit: u32) -> bool {
    flags & bit != 0
}

// ── Types ────────────────────────────────────────────────────────────────────

/// A fully parsed Windows Shell Link.
#[derive(Debug, Clone, PartialEq, Eq)]
pub struct ShellLink {
    /// The fixed-size `ShellLinkHeader` (`[MS-SHLLINK]` §2.1).
    pub header: ShellLinkHeader,
    /// The raw `LinkTargetIDList` ItemID blob, when `HasLinkTargetIDList` is set.
    pub link_target_idlist: Option<LinkTargetIdList>,
    /// The `LinkInfo` block, when `HasLinkInfo` is set (`[MS-SHLLINK]` §2.3).
    pub link_info: Option<LinkInfo>,
    /// The decoded `StringData` block (`[MS-SHLLINK]` §2.4).
    pub string_data: StringData,
    /// The `TrackerDataBlock` from `ExtraData`, when present (`[MS-SHLLINK]` §2.5.10).
    pub tracker: Option<TrackerDataBlock>,
}

/// The `ShellLinkHeader` (`[MS-SHLLINK]` §2.1).
#[derive(Debug, Clone, PartialEq, Eq)]
pub struct ShellLinkHeader {
    /// `LinkFlags` bitfield (`[MS-SHLLINK]` §2.1.1).
    pub link_flags: u32,
    /// `FileAttributesFlags` of the target (`[MS-SHLLINK]` §2.1.2).
    pub file_attributes: u32,
    /// Target creation time, Unix epoch seconds (0 when the FILETIME was 0).
    pub creation_time: i64,
    /// Target last-access time, Unix epoch seconds (0 when the FILETIME was 0).
    pub access_time: i64,
    /// Target last-write time, Unix epoch seconds (0 when the FILETIME was 0).
    pub write_time: i64,
    /// Target file size in bytes (low 32 bits per the spec).
    pub file_size: u32,
    /// Icon index.
    pub icon_index: i32,
    /// `ShowCommand` (e.g. `SW_SHOWNORMAL` = 1).
    pub show_command: u32,
    /// `HotKey` flags.
    pub hotkey: u16,
}

impl ShellLinkHeader {
    /// Whether `LinkFlags` bit `flag` is set.
    pub fn has_flag(&self, flag: u32) -> (r: bool)
        ensures
            r == has_bit(self.link_flags, flag),
    {
        self.link_flags & flag != 0
    }
}

/// The raw `LinkTargetIDList` (`[MS-SHLLINK]` §2.2) — PIDL bytes kept verbatim.
#[derive(Debug, Clone, PartialEq, Eq)]
pub struct LinkTargetIdList {
    /// The `IDListSize`-delimited ItemID blob, raw.
    pub raw: Vec<u8>,
}

impl View for LinkTargetIdList {
    type V = Seq<u8>;

    open spec fn view(&self) -> Seq<u8> {
        self.raw@
    }
}

/// The `LinkInfo` block (`[MS-SHLLINK]` §2.3).
#[derive(Debug, Clone, PartialEq, Eq)]
pub struct LinkInfo {
    /// The `VolumeID`, when the local-volume bit of `LinkInfoFlags` is set.
    pub volume_id: Option<VolumeId>,
    /// The local base path, when present.
    pub local_base_path: Option<String>,
    /// The `CommonNetworkRelativeLink`, when the network bit is set.
    pub common_network_relative_link: Option<CommonNetworkRelativeLink>,
}

/// The value a [`LinkInfo`] stands for.
pub struct LinkInfoView {
    pub volume_id: Option<VolumeIdView>,
    pub local_base_path: Option<Seq<char>>,
    pub common_network_relative_link: Option<NetworkLinkView>,
}

impl View for LinkInfo {
    type V = LinkInfoView;

    open spec fn view(&self) -> LinkInfoView {
        LinkInfoView {
            volume_id: opt_view(self.volume_id),
            local_base_path: opt_text(self.local_base_path),
            common_network_relative_link: opt_view(self.common_network_relative_link),
        }
    }
}

/// The `VolumeID` (`[MS-SHLLINK]` §2.3.1).
#[derive(Debug, Clone, PartialEq, Eq)]
pub struct VolumeId {
    /// `DriveType` (e.g. `DRIVE_REMOVABLE` = 2, `DRIVE_FIXED` = 3).
    pub drive_type: u32,
    /// `DriveSerialNumber` — the join key to a peripheral device connection's
    /// volume serial.
    pub drive_serial_number: u32,
    /// The volume label, when decodable and non-empty.
    pub volume_label: Option<String>,
}

/// The value a [`VolumeId`] stands for.
pub struct VolumeIdView {
    pub drive_type: u32,
    pub drive_serial_number: u32,
    pub volume_label: Option<Seq<char>>,
}

impl View for VolumeId {
    type V = VolumeIdView;

    open spec fn view(&self) -> VolumeIdView {
        VolumeIdView {
            drive_type: self.drive_type,
            drive_serial_number: self.drive_serial_number,
            volume_label: opt_text(self.volume_label),
        }
    }
}

/// The `CommonNetworkRelativeLink` (`[MS-SHLLINK]` §2.3.2).
#[derive(Debug, Clone, PartialEq, Eq)]
pub struct CommonNetworkRelativeLink {
    /// The UNC share / network name.
    pub net_name: Option<String>,
    /// The local device the share was mapped to, when present.
    pub device_name: Option<String>,
}

/// The value a [`CommonNetworkRelativeLink`] stands for.
pub struct NetworkLinkView {
    pub net_name: Option<Seq<char>>,
    pub device_name: Option<Seq<char>>,
}

impl View for CommonNetworkRelativeLink {
    type V = NetworkLinkView;

    open spec fn view(&self) -> NetworkLinkView {
        NetworkLinkView { net_name: opt_text(self.net_name), device_name: opt_text(self.device_name) }
    }
}

/// The decoded `StringData` block (`[MS-SHLLINK]` §2.4).
///
/// Each field is present only when its `LinkFlags` bit is set and its text is
/// non-empty; the encoding follows `IsUnicode` (UTF-16LE) versus ANSI.
#[derive(Debug, Clone, Default, PartialEq, Eq)]
pub struct StringData {
    /// `NAME_STRING` — the link description (`HasName`).
    pub name: Option<String>,
    /// `RELATIVE_PATH` (`HasRelativePath`).
    pub relative_path: Option<String>,
    /// `WORKING_DIR` (`HasWorkingDir`).
    pub working_dir: Option<String>,
    /// `COMMAND_LINE_ARGUMENTS` (`HasArguments`).
    pub arguments: Option<String>,
    /// `ICON_LOCATION` (`HasIconLocation`).
    pub icon_location: Option<String>,
}

/// The value a [`StringData`] stands for.
pub struct StringDataView {
    pub name: Option<Seq<char>>,
    pub relative_path: Option<Seq<char>>,
    pub working_dir: Option<Seq<char>>,
    pub arguments: Option<Seq<char>>,
    pub icon_location: Option<Seq<char>>,
}

impl View for StringData {
    type V = StringDataView;

    open spec fn view(&self) -> StringDataView {
        StringDataView {
            name: opt_text(self.name),
            relative_path: opt_text(self.relative_path),
            working_dir: opt_text(self.working_dir),
            arguments: opt_text(self.arguments),
            icon_location: opt_text(self.icon_location),
        }
    }
}

/// The `TrackerDataBlock` (`[MS-SHLLINK]` §2.5.10) — origin machine + droid GUIDs.
#[derive(Debug, Clone, PartialEq, Eq)]
pub struct TrackerDataBlock {
    /// The NetBIOS name of the machine the link was created on.
    pub machine_id: String,
    /// The volume+object `Droid` GUID pair (current).
    pub droid: DroidGuids,
    /// The volume+object `DroidBirth` GUID pair (at creation).
    pub birth_droid: DroidGuids,
}

/// The value a [`TrackerDataBlock`] stands for.
pub struct TrackerView {
    pub machine_id: Seq<char>,
    pub droid: DroidGuidsView,
    pub birth_droid: DroidGuidsView,
}

impl View for TrackerDataBlock {
    type V = TrackerView;

    open spec fn view(&self) -> TrackerView {
        TrackerView { machine_id: self.machine_id@, droid: self.droid@, birth_droid: self.birth_droid@ }
    }
}

/// A `Droid` volume/object GUID pair, rendered in the canonical 8-4-4-4-12 form.
#[derive(Debug, Clone, PartialEq, Eq)]
pub struct DroidGuids {
    /// The volume identifier GUID.
    pub volume: String,
    /// The object (file) identifier GUID.
    pub object: String,
}

/// The value a [`DroidGuids`] stands for.
pub struct DroidGuidsView {
    pub volume: Seq<char>,
    pub object: Seq<char>,
}

impl View for DroidGuids {
    type V = DroidGuidsView;

    open spec fn view(&self) -> DroidGuidsView {
        DroidGuidsView { volume: self.volume@, object: self.object@ }
    }
}

/// The value a [`ShellLink`] stands for.
pub struct ShellLinkView {
    pub header: ShellLinkHeader,
    pub link_target_idlist: Option<Seq<u8>>,
    pub link_info: Option<LinkInfoView>,
    pub string_data: StringDataView,
    pub tracker: Option<TrackerView>,
}

impl View for ShellLink {
    type V = ShellLinkView;

    open spec fn view(&self) -> ShellLinkView {
        ShellLinkView {
            header: self.header,
            link_target_idlist: opt_view(self.link_target_idlist),
            link_info: opt_view(self.link_info),
            string_data: self.string_data@,
            tracker: opt_view(self.tracker),
        }
    }
}

// ── What the bytes say ───────────────────────────────────────────────────────

/// Whether `d` opens with a valid `ShellLinkHeader`: `HeaderSize` 0x4C, all
/// 0x4C header bytes present, and the 16 bytes at 4 rendering as the
/// `[MS-SHLLINK]` `LinkCLSID`.
pub open spec fn valid_header(d: Seq<u8>) -> bool {
    &&& le_u32_at(d, 0) == 0x4C
    &&& d.len() >= 0x4C
    &&& guid_text(d.subrange(4, 20)) == link_clsid_text()
}

/// The header fields at their fixed offsets.
pub open spec fn header_at(d: Seq<u8>) -> ShellLinkHeader {
    ShellLinkHeader {
        link_flags: le_u32_at(d, 20),
        file_attributes: le_u32_at(d, 24),
        creation_time: filetime_unix(le_u64_at(d, 28)) as i64,
        access_time: filetime_unix(le_u64_at(d, 36)) as i64,
        write_time: filetime_unix(le_u64_at(d, 44)) as i64,
        file_size: le_u32_at(d, 52),
        icon_index: le_i32_at(d, 56) as i32,
        show_command: le_u32_at(d, 60),
        hotkey: le_u16_at(d, 64),
    }
}

/// The `LinkTargetIDList` blob at `off` (empty when it overruns `d`).
pub open spec fn idlist_blob_at(d: Seq<u8>, off: int) -> Seq<u8> {
    let start = off + 2;
    let end = start + le_u16_at(d, off);
    if end <= d.len() { d.subrange(start, end) } else { Seq::empty() }
}

/// The offset just past the `LinkTargetIDList` at `off`.
pub open spec fn idlist_end(d: Seq<u8>, off: int) -> int {
    off + 2 + le_u16_at(d, off)
}

/// The offset just past the `LinkInfo` at `off`, by its declared size (at least 4).
pub open spec fn link_info_end(d: Seq<u8>, off: int) -> int {
    let size = le_u32_at(d, off) as int;
    off + if size > 4 { size } else { 4 }
}

/// The `VolumeID` anchored at `base`.
pub open spec fn volume_id_at(d: Seq<u8>, base: int) -> Option<VolumeIdView> {
    if le_u32_at(d, base) < 0x10 {
        None
    } else {
        let label_offset = le_u32_at(d, base + 12);
        let label = if label_offset == 0x14 {
            unicode_z_at(d, base + le_u32_at(d, base + 16))
        } else if label_offset != 0 {
            ansi_z_at(d, base + label_offset)
        } else {
            None
        };
        Some(VolumeIdView {
            drive_type: le_u32_at(d, base + 4),
            drive_serial_number: le_u32_at(d, base + 8),
            volume_label: nonempty(label),
        })
    }
}

/// The `CommonNetworkRelativeLink` anchored at `base`.
pub open spec fn network_link_at(d: Seq<u8>, base: int) -> Option<NetworkLinkView> {
    if le_u32_at(d, base) < 0x14 {
        None
    } else {
        let net_name_offset = le_u32_at(d, base + 8);
        let device_name_offset = le_u32_at(d, base + 12);
        Some(NetworkLinkView {
            net_name: if net_name_offset != 0 { ansi_z_at(d, base + net_name_offset) } else { None },
            device_name: if has_bit(le_u32_at(d, base + 4), 1) && device_name_offset != 0 {
                ansi_z_at(d, base + device_name_offset)
            } else {
                None
            },
        })
    }
}

/// The `LinkInfo` anchored at `base`.
pub open spec fn link_info_at(d: Seq<u8>, base: int) -> Option<LinkInfoView> {
    if le_u32_at(d, base) < 0x1C {
        None
    } else {
        let flags = le_u32_at(d, base + 8);
        let volume_id_offset = le_u32_at(d, base + 12);
        let local_base_path_offset = le_u32_at(d, base + 16);
        let network_offset = le_u32_at(d, base + 20);
        let unicode_path_offset = if le_u32_at(d, base + 4) >= 0x24 { le_u32_at(d, base + 28) } else { 0 };
        Some(LinkInfoView {
            volume_id: if has_bit(flags, 1) && volume_id_offset != 0 {
                volume_id_at(d, base + volume_id_offset)
            } else {
                None
            },
            local_base_path: if has_bit(flags, 1) {
                if unicode_path_offset != 0 {
                    unicode_z_at(d, base + unicode_path_offset)
                } else if local_base_path_offset != 0 {
                    ansi_z_at(d, base + local_base_path_offset)
                } else {
                    None
                }
            } else {
                None
            },
            common_network_relative_link: if has_bit(flags, 2) && network_offset != 0 {
                network_link_at(d, base + network_offset)
            } else {
                None
            },
        })
    }
}

/// The length in bytes of a `StringData` string of `count` characters.
pub open spec fn string_byte_len(count: int, unicode: bool) -> int {
    if unicode { 2 * count } else { count }
}

/// The size-counted `StringData` string at `off` (kept when decodable and
/// non-empty).
pub open spec fn sized_string_at(d: Seq<u8>, off: int, unicode: bool) -> Option<Seq<char>> {
    let body = off + 2;
    let end = body + string_byte_len(le_u16_at(d, off) as int, unicode);
    if end <= d.len() {
        let bytes = d.subrange(body, end);
        nonempty(Some(if unicode { utf16_lossy(units_le(bytes)) } else { utf8_lossy(bytes) }))
    } else {
        None
    }
}

/// The offset just past the size-counted string at `off`.
pub open spec fn sized_string_end(d: Seq<u8>, off: int, unicode: bool) -> int {
    off + 2 + string_byte_len(le_u16_at(d, off) as int, unicode)
}

/// The string for flag `bit` at `off`: present only when the flag is set.
pub open spec fn flagged_string_at(d: Seq<u8>, off: int, flags: u32, bit: u32) -> Option<Seq<char>> {
    if has_bit(flags, bit) { sized_string_at(d, off, has_bit(flags, 0x80)) } else { None }
}

/// The offset after the string for flag `bit` at `off` (unchanged when unset).
pub open spec fn flagged_string_end(d: Seq<u8>, off: int, flags: u32, bit: u32) -> int {
    if has_bit(flags, bit) { sized_string_end(d, off, has_bit(flags, 0x80)) } else { off }
}

/// The offsets of the five `StringData` strings, starting at `off`.
pub open spec fn string_offsets(d: Seq<u8>, off: int, flags: u32) -> Seq<int> {
    let o1 = flagged_string_end(d, off, flags, 0x4);
    let o2 = flagged_string_end(d, o1, flags, 0x8);
    let o3 = flagged_string_end(d, o2, flags, 0x10);
    let o4 = flagged_string_end(d, o3, flags, 0x20);
    let o5 = flagged_string_end(d, o4, flags, 0x40);
    seq![off, o1, o2, o3, o4, o5]
}

/// The `StringData` block starting at `off`.
pub open spec fn string_data_at(d: Seq<u8>, off: int, flags: u32) -> StringDataView {
    let o = string_offsets(d, off, flags);
    StringDataView {
        name: flagged_string_at(d, o[0], flags, 0x4),
        relative_path: flagged_string_at(d, o[1], flags, 0x8),
        working_dir: flagged_string_at(d, o[2], flags, 0x10),
        arguments: flagged_string_at(d, o[3], flags, 0x20),
        icon_location: flagged_string_at(d, o[4], flags, 0x40),
    }
}

/// The `TrackerDataBlock` anchored at `base`: present when its 96 bytes are.
/// The machine ID is the 16-byte NetBIOS name field at +16, up to its first
/// NUL; the droid and birth-droid GUID pairs follow at +32 and +64.
pub open spec fn tracker_block_at(d: Seq<u8>, base: int) -> Option<TrackerView> {
    if 0 <= base && base + 96 <= d.len() {
        Some(TrackerView {
            machine_id: ansi_field(d, base + 16, 16),
            droid: DroidGuidsView {
                volume: guid_text(d.subrange(base + 32, base + 48)),
                object: guid_text(d.subrange(base + 48, base + 64)),
            },
            birth_droid: DroidGuidsView {
                volume: guid_text(d.subrange(base + 64, base + 80)),
                object: guid_text(d.subrange(base + 80, base + 96)),
            },
        })
    } else {
        None
    }
}

/// The first `TrackerDataBlock` of the `ExtraData` chain from `off`: blocks are
/// `{size, signature, payload}`; a size below 4 or fewer than 8 bytes left
/// ends the chain.
pub open spec fn tracker_from(d: Seq<u8>, off: int) -> Option<TrackerView>
    decreases (if off <= d.len() { d.len() - off + 1 } else { 0 }),
{
    if 0 <= off && off + 8 <= d.len() {
        let size = le_u32_at(d, off);
        if size < 4 {
            None
        } else if le_u32_at(d, off + 4) == 0xA000_0003 {
            tracker_block_at(d, off)
        } else {
            tracker_from(d, off + size)
        }
    } else {
        None
    }
}

/// Where the `StringData` block of a link with a valid header begins: after
/// the header, the `LinkTargetIDList` and the `LinkInfo` its flags announce.
pub open spec fn string_data_start(d: Seq<u8>) -> int {
    let flags = header_at(d).link_flags;
    let off1 = if has_bit(flags, 0x1) { idlist_end(d, 0x4C) } else { 0x4C };
    if has_bit(flags, 0x2) { link_info_end(d, off1) } else { off1 }
}

/// What is known of the string for flag `bit` at `off` whatever the lossy
/// decoding does: it is present exactly when the flag is set, its character
/// count is non-zero and its characters lie inside `d`; and an ANSI string of
/// ASCII bytes reads as those very characters.
pub open spec fn counted_string_read(d: Seq<u8>, off: int, flags: u32, bit: u32) -> bool {
    let end = sized_string_end(d, off, has_bit(flags, 0x80));
    &&& flagged_string_at(d, off, flags, bit) is Some <==> has_bit(flags, bit) && le_u16_at(d, off) > 0 && end <= d.len()
    &&& (has_bit(flags, bit) && !has_bit(flags, 0x80) && end <= d.len() && all_ascii(d.subrange(off + 2, end)))
        ==> flagged_string_at(d, off, flags, bit) == nonempty(Some(d.subrange(off + 2, end).map_values(|b: u8| b as char)))
}

/// Whether each `StringData` string of `d` is read as its count says (see
/// [`counted_string_read`]).
pub open spec fn strings_read_as_counted(d: Seq<u8>) -> bool {
    let flags = header_at(d).link_flags;
    let o = string_offsets(d, string_data_start(d), flags);
    &&& counted_string_read(d, o[0], flags, 0x4)
    &&& counted_string_read(d, o[1], flags, 0x8)
    &&& counted_string_read(d, o[2], flags, 0x10)
    &&& counted_string_read(d, o[3], flags, 0x20)
    &&& counted_string_read(d, o[4], flags, 0x40)
}

/// The Shell Link that `d` encodes, or `None` when its header is not valid.
#[verifier::opaque]
pub open spec fn shell_link_of(d: Seq<u8>) -> Option<ShellLinkView> {
    if !valid_header(d) {
        None
    } else {
        let header = header_at(d);
        let flags = header.link_flags;
        let off0 = 0x4C;
        let off1 = if has_bit(flags, 0x1) { idlist_end(d, off0) } else { off0 };
        let off2 = if has_bit(flags, 0x2) { link_info_end(d, off1) } else { off1 };
        Some(ShellLinkView {
            header,
            link_target_idlist: if has_bit(flags, 0x1) { Some(idlist_blob_at(d, off0)) } else { None },
            link_info: if has_bit(flags, 0x2) { link_info_at(d, off1) } else { None },
            string_data: string_data_at(d, off2, flags),
            tracker: tracker_from(d, string_offsets(d, off2, flags)[5]),
        })
    }
}

// ── The reader ──────────────────────────────────────────────────────────────

/// Keep `o` when its text is non-empty.
fn keep_nonempty(o: Option<String>) -> (r: Option<String>)
    ensures
        opt_text(r) == nonempty(opt_text(o)),
{
    match o {
        Some(s) => if s.as_str().is_empty() { None } else { Some(s) },
        None => None,
    }
}

/// Parse a Shell Link from its bytes.
///
/// Returns `None` when the `ShellLinkHeader` is not a valid `[MS-SHLLINK]`
/// header (wrong `HeaderSize` or `LinkCLSID`, or fewer than its 0x4C bytes).
/// Every other field read is
/// bounds-checked, so a short or garbled body degrades to absent
/// sub-structures.
#[verifier::spinoff_prover]
#[verifier::rlimit(40)]
pub fn parse_shell_link(data: &[u8]) -> (r: Option<ShellLink>)
    ensures
        opt_view(r) == shell_link_of(data@),
        r is Some <==> valid_header(data@),
        r is Some ==> strings_read_as_counted(data@),
{
    proof {
        reveal(shell_link_of);
    }
    if le_u32(data, 0) != header_size() {
        return None;
    }
    // A header cut short is malformed: no partial header is returned.
    if data.len() < header_size() as usize {
        return None;
    }
    let clsid = match guid_string(&data[4..20]) {
        Some(g) => g,
        None => return None,
    };
    if clsid != link_clsid().to_owned() {
        return None;
    }
    let header = ShellLinkHeader {
        link_flags: le_u32(data, 20),
        file_attributes: le_u32(data, 24),
        creation_time: filetime_to_unix(le_u64(data, 28)),
        access_time: filetime_to_unix(le_u64(data, 36)),
        write_time: filetime_to_unix(le_u64(data, 44)),
        file_size: le_u32(data, 52),
        icon_index: le_i32(data, 56),
        show_command: le_u32(data, 60),
        hotkey: le_u16(data, 64),
    };
    let ghost d = data@;
    let ghost flags = header.link_flags;
    assert(header == header_at(d));

    // The variable-length sections begin immediately after the 0x4C header.
    let mut off: u128 = header_size() as u128;

    // §2.2 LinkTargetIDList — IDListSize-prefixed PIDL blob (kept raw).
    let link_target_idlist = if header.has_flag(flag_has_link_target_id_list()) {
        let id_list_size = le_u16(data, off) as u128;
        let blob_start = off + 2;
        let blob_end = blob_start + id_list_size;
        let raw = if blob_end <= data.len() as u128 {
            copy_range(data, blob_start as usize, blob_end as usize)
        } else {
            Vec::new()
        };
        assert(raw@ == idlist_blob_at(d, off as int));
        off = blob_end;
        Some(LinkTargetIdList { raw })
    } else {
        None
    };
    let ghost off1 = off as int;

    // §2.3 LinkInfo — its own LinkInfoSize-prefixed self-contained structure.
    let link_info = if header.has_flag(flag_has_link_info()) {
        let info = parse_link_info(data, off);
        let size = le_u32(data, off) as u128;
        off = off + if size > 4 { size } else { 4 };
        info
    } else {
        None
    };

    // §2.4 StringData — a run of size-counted strings, each honoring IsUnicode.
    let ghost o = string_offsets(d, off as int, flags);
    assert(off as int == string_data_start(d));
    let is_unicode = header.has_flag(flag_is_unicode());
    let (name, off) = read_flagged_string(data, off, &header, flag_has_name(), is_unicode);
    let (relative_path, off) = read_flagged_string(data, off, &header, flag_has_relative_path(), is_unicode);
    let (working_dir, off) = read_flagged_string(data, off, &header, flag_has_working_dir(), is_unicode);
    let (arguments, off) = read_flagged_string(data, off, &header, flag_has_arguments(), is_unicode);
    let (icon_location, off) = read_flagged_string(data, off, &header, flag_has_icon_location(), is_unicode);
    let string_data = StringData { name, relative_path, working_dir, arguments, icon_location };

    // §2.5 ExtraData — only the TrackerDataBlock is dispatched.
    let tracker = parse_extra_data_tracker(data, off);

    let link = ShellLink { header, link_target_idlist, link_info, string_data, tracker };
    assert(link@ == shell_link_of(d).unwrap()) by {
        reveal(shell_link_of);
    }
    Some(link)
}

/// Read the `StringData` string for `flag` at `off`, when the flag is set.
fn read_flagged_string(
    data: &[u8],
    off: u128,
    header: &ShellLinkHeader,
    flag: u32,
    is_unicode: bool,
) -> (r: (Option<String>, u128))
    requires
        off + 0x2_0002 <= u128::MAX,
        is_unicode == has_bit(header.link_flags, 0x80),
    ensures
        opt_text(r.0) == flagged_string_at(data@, off as int, header.link_flags, flag),
        r.1 as int == flagged_string_end(data@, off as int, header.link_flags, flag),
        r.1 <= off + 0x2_0000,
        counted_string_read(data@, off as int, header.link_flags, flag),
{
    if header.has_flag(flag) {
        read_sized_string(data, off, is_unicode)
    } else {
        (None, off)
    }
}

/// Read a §2.4 size-counted string: a u16 CountCharacters then the chars.
fn read_sized_string(data: &[u8], off: u128, is_unicode: bool) -> (r: (Option<String>, u128))
    requires
        off + 0x2_0002 <= u128::MAX,
    ensures
        opt_text(r.0) == sized_string_at(data@, off as int, is_unicode),
        r.1 as int == sized_string_end(data@, off as int, is_unicode),
        r.1 <= off + 0x2_0000,
        r.0 is Some <==> le_u16_at(data@, off as int) > 0 && r.1 <= data@.len(),
        !is_unicode && r.1 <= data@.len() && all_ascii(data@.subrange(off + 2, r.1 as int))
            ==> opt_text(r.0) == nonempty(Some(data@.subrange(off + 2, r.1 as int).map_values(|b: u8| b as char))),
{
    let count = le_u16(data, off) as u128;
    let body = off + 2;
    let byte_len = if is_unicode { 2 * count } else { count };
    let end = body + byte_len;
    let value = if end <= data.len() as u128 {
        let bytes = copy_range(data, body as usize, end as usize);
        let text = if is_unicode {
            proof {
                lemma_utf16_lossy_empty(units_le(bytes@));
            }
            decode_utf16le(bytes.as_slice())
        } else {
            decode_utf8_lossy(bytes.as_slice())
        };
        keep_nonempty(Some(text))
    } else {
        None
    };
    (value, end)
}

/// Parse the §2.3 LinkInfo block anchored at `base`.
fn parse_link_info(data: &[u8], base: u128) -> (r: Option<LinkInfo>)
    ensures
        opt_view(r) == link_info_at(data@, base as int),
{
    let size = le_u32(data, base);
    if size < 0x1C {
        return None;
    }
    // A non-zero size was read in full, so the block starts inside `data`.
    let len = data.len() as u128;
    assert(base + 4 <= len);
    let header_size = le_u32(data, base + 4);
    let flags = le_u32(data, base + 8);
    let volume_id_offset = le_u32(data, base + 12) as u128;
    let local_base_path_offset = le_u32(data, base + 16) as u128;
    let network_offset = le_u32(data, base + 20) as u128;
    // Optional Unicode offsets appear only when the header is >= 0x24.
    let unicode_path_offset = if header_size >= 0x24 { le_u32(data, base + 28) as u128 } else { 0 };

    let volume_id = if flags & 1 != 0 && volume_id_offset != 0 {
        parse_volume_id(data, base + volume_id_offset)
    } else {
        None
    };
    let local_base_path = if flags & 1 != 0 {
        if unicode_path_offset != 0 {
            unicode_z(data, base + unicode_path_offset)
        } else if local_base_path_offset != 0 {
            ansi_z(data, base + local_base_path_offset)
        } else {
            None
        }
    } else {
        None
    };
    let common_network_relative_link = if flags & 2 != 0 && network_offset != 0 {
        parse_cnrl(data, base + network_offset)
    } else {
        None
    };
    Some(LinkInfo { volume_id, local_base_path, common_network_relative_link })
}

/// Parse the §2.3.1 VolumeID anchored at `base`.
fn parse_volume_id(data: &[u8], base: u128) -> (r: Option<VolumeId>)
    ensures
        opt_view(r) == volume_id_at(data@, base as int),
{
    let size = le_u32(data, base);
    if size < 0x10 {
        return None;
    }
    // A non-zero size was read in full, so the block starts inside `data`.
    let len = data.len() as u128;
    assert(base + 4 <= len);
    let drive_type = le_u32(data, base + 4);
    let drive_serial_number = le_u32(data, base + 8);
    let label_offset = le_u32(data, base + 12);
    // VolumeLabelOffset == 0x14 signals the Unicode label offset lives at +0x10.
    let label = if label_offset == 0x14 {
        let unicode_offset = le_u32(data, base + 16) as u128;
        unicode_z(data, base + unicode_offset)
    } else if label_offset != 0 {
        ansi_z(data, base + label_offset as u128)
    } else {
        None
    };
    Some(VolumeId { drive_type, drive_serial_number, volume_label: keep_nonempty(label) })
}

/// Parse the §2.3.2 CommonNetworkRelativeLink anchored at `base`.
fn parse_cnrl(data: &[u8], base: u128) -> (r: Option<CommonNetworkRelativeLink>)
    ensures
        opt_view(r) == network_link_at(data@, base as int),
{
    let size = le_u32(data, base);
    if size < 0x14 {
        return None;
    }
    // A non-zero size was read in full, so the block starts inside `data`.
    let len = data.len() as u128;
    assert(base + 4 <= len);
    let flags = le_u32(data, base + 4);
    let net_name_offset = le_u32(data, base + 8) as u128;
    let device_name_offset = le_u32(data, base + 12) as u128;
    let net_name = if net_name_offset != 0 { ansi_z(data, base + net_name_offset) } else { None };
    let device_name = if flags & 1 != 0 && device_name_offset != 0 {
        ansi_z(data, base + device_name_offset)
    } else {
        None
    };
    Some(CommonNetworkRelativeLink { net_name, device_name })
}

/// Walk the §2.5 ExtraData chain from `start` and return its TrackerDataBlock.
fn parse_extra_data_tracker(data: &[u8], start: u128) -> (r: Option<TrackerDataBlock>)
    ensures
        opt_view(r) == tracker_from(data@, start as int),
{
    let len = data.len() as u128;
    if start > len {
        return None;
    }
    let mut off = start;
    loop
        invariant
            len == data@.len() <= usize::MAX,
            off <= len + 0x1_0000_0000,
            tracker_from(data@, off as int) == tracker_from(data@, start as int),
        decreases len + 0x1_0000_0000 - off,
    {
        if off + 8 > len {
            return None;
        }
        let block_size = le_u32(data, off);
        if block_size < terminal_block_size() {
            return None;
        }
        if le_u32(data, off + 4) == tracker_block_signature() {
            return parse_tracker_block(data, off);
        }
        off = off + block_size as u128;
    }
}

/// The 16 bytes at `start` as a GUID string, when present.
fn guid_at(data: &[u8], start: u128) -> (r: Option<String>)
    ensures
        start + 16 <= data@.len() ==> opt_text(r) == Some(guid_text(data@.subrange(start as int, start + 16))),
        start + 16 > data@.len() ==> r is None,
{
    if start <= data.len() as u128 && 16 <= data.len() as u128 - start {
        let g = guid_string(&data[start as usize..(start + 16) as usize]);
        assert(data@.subrange(start as int, start + 16).len() == 16);
        g
    } else {
        None
    }
}

/// Parse the §2.5.10 TrackerDataBlock anchored at `base`.
fn parse_tracker_block(data: &[u8], base: u128) -> (r: Option<TrackerDataBlock>)
    ensures
        opt_view(r) == tracker_block_at(data@, base as int),
{
    // +16 MachineID[16], +32 Droid (2 GUIDs), +64 DroidBirth (2 GUIDs).
    if base > data.len() as u128 || data.len() as u128 - base < 96 {
        return None;
    }
    let machine_id = ansi_field_at(data, base + 16, 16);
    let volume = match guid_at(data, base + 32) { Some(g) => g, None => return None };
    let object = match guid_at(data, base + 48) { Some(g) => g, None => return None };
    let birth_volume = match guid_at(data, base + 64) { Some(g) => g, None => return None };
    let birth_object = match guid_at(data, base + 80) { Some(g) => g, None => return None };
    Some(TrackerDataBlock {
        machine_id,
        droid: DroidGuids { volume, object },
        birth_droid: DroidGuids { volume: birth_volume, object: birth_object },
    })
}

} // verus!

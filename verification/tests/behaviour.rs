//! Concrete checks of the library's contracts: exact renderings, edge cases of
//! the readers, and the library-wide properties on sample values.

use std::io::{Cursor, Write};

use forensicnomicon::shlink;
use lnk_forensic::bytes::FILETIME_UNIX_DELTA_100NS;
use lnk_forensic::{
    audit, audit_findings, audit_jumplist, drive_type, parse_automatic_destinations,
    parse_custom_destinations, parse_shell_link, source, Category, JumpList, JumpListAnomaly,
    JumpListEntry, JumpListKind, LnkAnomaly, Severity, DestListEntry,
};
use lnk_forensic::jumplist::parse_destlist;

const CLSID_BYTES: [u8; 16] = [
    0x01, 0x14, 0x02, 0x00, 0x00, 0x00, 0x00, 0x00, 0xC0, 0x00, 0x00, 0x00, 0x00, 0x00, 0x00, 0x46,
];

fn filetime_bytes(unix_secs: i64) -> [u8; 8] {
    (((unix_secs * 10_000_000) + FILETIME_UNIX_DELTA_100NS) as u64).to_le_bytes()
}

/// A valid 0x4C header with the given flags and FILETIME fields.
fn header_with_times(link_flags: u32, times: [[u8; 8]; 3]) -> Vec<u8> {
    let mut h = Vec::new();
    h.extend_from_slice(&0x4Cu32.to_le_bytes());
    h.extend_from_slice(&CLSID_BYTES);
    h.extend_from_slice(&link_flags.to_le_bytes());
    h.extend_from_slice(&0x20u32.to_le_bytes());
    for t in times {
        h.extend_from_slice(&t);
    }
    h.extend_from_slice(&0xFFFF_FFFFu32.to_le_bytes()); // FileSize
    h.extend_from_slice(&(-3i32).to_le_bytes()); // IconIndex
    h.extend_from_slice(&7u32.to_le_bytes()); // ShowCommand
    h.extend_from_slice(&0x0641u16.to_le_bytes()); // HotKey
    h.extend_from_slice(&[0u8; 10]);
    assert_eq!(h.len(), 0x4C);
    h
}

fn header(link_flags: u32) -> Vec<u8> {
    header_with_times(
        link_flags,
        [filetime_bytes(1_600_000_000), filetime_bytes(1_600_000_100), filetime_bytes(1_600_000_200)],
    )
}

fn guid_le(s: &str) -> Vec<u8> {
    let hex: String = s.chars().filter(|c| *c != '-').collect();
    let raw: Vec<u8> = (0..16)
        .map(|i| u8::from_str_radix(&hex[i * 2..i * 2 + 2], 16).unwrap())
        .collect();
    let mut out = vec![raw[3], raw[2], raw[1], raw[0], raw[5], raw[4], raw[7], raw[6]];
    out.extend_from_slice(&raw[8..16]);
    out
}

fn tracker_block(machine: &str) -> Vec<u8> {
    let mut b = Vec::new();
    b.extend_from_slice(&0x60u32.to_le_bytes());
    b.extend_from_slice(&shlink::EXTRA_TRACKER_DATA_BLOCK.to_le_bytes());
    b.extend_from_slice(&0x58u32.to_le_bytes());
    b.extend_from_slice(&0u32.to_le_bytes());
    let mut m = [0u8; 16];
    for (i, c) in machine.bytes().take(15).enumerate() {
        m[i] = c;
    }
    b.extend_from_slice(&m);
    b.extend_from_slice(&guid_le("0123abcd-4567-89ef-0123-456789abcdef"));
    b.extend_from_slice(&guid_le("fedcba98-7654-3210-fedc-ba9876543210"));
    b.extend_from_slice(&guid_le("00000000-0000-0000-0000-000000000001"));
    b.extend_from_slice(&guid_le("ffffffff-ffff-ffff-ffff-ffffffffffff"));
    b
}

fn removable_lnk(serial: u32, base: &str) -> Vec<u8> {
    let mut d = header(shlink::LINK_FLAG_HAS_LINK_INFO);
    let mut vol = Vec::new();
    vol.extend_from_slice(&0x11u32.to_le_bytes());
    vol.extend_from_slice(&drive_type::REMOVABLE.to_le_bytes());
    vol.extend_from_slice(&serial.to_le_bytes());
    vol.extend_from_slice(&0x10u32.to_le_bytes());
    vol.push(0);
    let mut bz: Vec<u8> = base.bytes().collect();
    bz.push(0);
    let total = 0x1C + vol.len() + bz.len();
    let mut li = Vec::new();
    li.extend_from_slice(&(total as u32).to_le_bytes());
    li.extend_from_slice(&0x1Cu32.to_le_bytes());
    li.extend_from_slice(&1u32.to_le_bytes());
    li.extend_from_slice(&0x1Cu32.to_le_bytes());
    li.extend_from_slice(&((0x1C + vol.len()) as u32).to_le_bytes());
    li.extend_from_slice(&[0u8; 8]);
    li.extend_from_slice(&vol);
    li.extend_from_slice(&bz);
    d.extend_from_slice(&li);
    d.extend_from_slice(&[0u8; 4]);
    d
}

// ── The reader ───────────────────────────────────────────────────────────────

#[test]
fn header_fields_decode_little_endian_and_signed() {
    let link = parse_shell_link(&header(0x1234_0000)).unwrap();
    assert_eq!(link.header.link_flags, 0x1234_0000);
    assert_eq!(link.header.file_attributes, 0x20);
    assert_eq!(link.header.file_size, 0xFFFF_FFFF);
    assert_eq!(link.header.icon_index, -3);
    assert_eq!(link.header.show_command, 7);
    assert_eq!(link.header.hotkey, 0x0641);
    assert!(link.header.has_flag(0x0004_0000));
    assert!(!link.header.has_flag(0x0001_0000));
    assert!(link.link_target_idlist.is_none());
    assert!(link.link_info.is_none());
    assert!(link.tracker.is_none());
}

#[test]
fn filetime_before_the_unix_epoch_round_trips() {
    let t = -1_000_000_000i64; // 1938
    let link = parse_shell_link(&header_with_times(0, [filetime_bytes(t), [0u8; 8], filetime_bytes(1)])).unwrap();
    assert_eq!(link.header.creation_time, t);
    assert_eq!(link.header.access_time, 0);
    assert_eq!(link.header.write_time, 1);
}

#[test]
fn filetime_above_i64_range_wraps_and_rounds_toward_zero() {
    let link = parse_shell_link(&header_with_times(0, [[0xFF; 8], filetime_bytes(0), [1, 0, 0, 0, 0, 0, 0, 0]])).unwrap();
    // 0xFFFF_FFFF_FFFF_FFFF reads as -1 tick: (-1 - delta) / 10^7 toward zero.
    assert_eq!(link.header.creation_time, -11_644_473_600);
    assert_eq!(link.header.access_time, 0);
    // One tick after 1601: (1 - delta) / 10^7 toward zero.
    assert_eq!(link.header.write_time, -11_644_473_599);
}

#[test]
fn truncated_header_is_rejected() {
    let data = header(0);
    assert!(parse_shell_link(&data[..19]).is_none());
    assert!(parse_shell_link(&data[..20]).is_none());
    assert!(parse_shell_link(&data[..0x4B]).is_none());
    assert!(parse_shell_link(&data[..0x4C]).is_some());
}

#[test]
fn garbage_after_a_valid_header_still_parses() {
    let mut data = header(0xFFFF_FFFF);
    data.extend_from_slice(&[0xA5; 37]);
    let link = parse_shell_link(&data).unwrap();
    assert_eq!(link.header.link_flags, 0xFFFF_FFFF);
    // The IDList claims 0xA5A5 bytes that are not there: kept empty.
    assert_eq!(link.link_target_idlist.unwrap().raw, Vec::<u8>::new());
    assert!(link.link_info.is_none());
    assert!(link.tracker.is_none());
}

#[test]
fn empty_sized_string_is_absent() {
    let mut data = header(shlink::LINK_FLAG_HAS_NAME | shlink::LINK_FLAG_HAS_ARGUMENTS);
    data.extend_from_slice(&0u16.to_le_bytes());
    data.extend_from_slice(&3u16.to_le_bytes());
    data.extend_from_slice(b"-x ");
    data.extend_from_slice(&[0u8; 4]);
    let link = parse_shell_link(&data).unwrap();
    assert_eq!(link.string_data.name, None);
    assert_eq!(link.string_data.arguments.as_deref(), Some("-x "));
}

#[test]
fn tracker_guids_render_upper_case_canonical() {
    let mut data = header(0);
    data.extend_from_slice(&tracker_block("BOX"));
    let t = parse_shell_link(&data).unwrap().tracker.unwrap();
    assert_eq!(t.machine_id, "BOX");
    assert_eq!(t.droid.volume, "0123ABCD-4567-89EF-0123-456789ABCDEF");
    assert_eq!(t.droid.object, "FEDCBA98-7654-3210-FEDC-BA9876543210");
    assert_eq!(t.birth_droid.volume, "00000000-0000-0000-0000-000000000001");
    assert_eq!(t.birth_droid.object, "FFFFFFFF-FFFF-FFFF-FFFF-FFFFFFFFFFFF");
}

#[test]
fn truncated_tracker_block_is_absent() {
    let mut data = header(0);
    let block = tracker_block("BOX");
    data.extend_from_slice(&block[..95]);
    assert!(parse_shell_link(&data).unwrap().tracker.is_none());
}

// ── The audit ────────────────────────────────────────────────────────────────

#[test]
fn removable_note_renders_type_serial_and_quoted_path() {
    let a = LnkAnomaly::RemovableMediaTarget {
        drive_type: 2,
        drive_serial: 0x00AB_CDEF,
        path: Some("E:\\x \"y\".exe".to_string()),
    };
    assert_eq!(
        a.note(),
        "the link target resolves to a removable/external volume (drive_type 2, drive serial \
         0x00ABCDEF, path \"E:\\\\x \\\"y\\\".exe\"); consistent with a file opened from external \
         media (MITRE T1052.001 / T1091). The volume serial is the join key to a peripheral device \
         connection"
    );
    let plain = LnkAnomaly::RemovableMediaTarget { drive_type: 2, drive_serial: 0, path: None };
    assert!(plain.note().contains("(drive_type 2, drive serial 0x00000000); consistent with"));
}

#[test]
fn network_and_tracker_notes_render_exactly() {
    let n = LnkAnomaly::NetworkTarget { net_name: Some("\\\\NAS\\pub".to_string()) };
    assert_eq!(
        n.note(),
        "the link carries a network relative link to \\\\NAS\\pub; consistent with a file opened \
         from a network share (MITRE T1021)"
    );
    let none = LnkAnomaly::NetworkTarget { net_name: None };
    assert!(none.note().starts_with("the link carries a network relative link; consistent with"));
    let t = LnkAnomaly::TrackerMachine { machine_id: "ANALYST-PC".to_string() };
    assert_eq!(
        t.note(),
        "the tracker block records the origin machine \"ANALYST-PC\"; consistent with the link \
         having been authored on that machine (attribution)"
    );
}

#[test]
fn audit_finding_carries_grade_code_and_mitre() {
    let link = parse_shell_link(&removable_lnk(0x0BAD_F00D, "F:\\a")).unwrap();
    let a = audit(&link);
    assert_eq!(a.len(), 1);
    assert_eq!(
        a[0],
        LnkAnomaly::RemovableMediaTarget {
            drive_type: 2,
            drive_serial: 0x0BAD_F00D,
            path: Some("F:\\a".to_string()),
        }
    );
    let f = audit_findings(&link, "scope-1");
    assert_eq!(f.len(), 1);
    assert_eq!(f[0].severity, Some(Severity::Medium));
    assert_eq!(f[0].category, Category::Threat);
    assert_eq!(f[0].code, "LNK-REMOVABLE-MEDIA-TARGET");
    assert_eq!(f[0].mitre, &["T1052.001", "T1091"][..]);
    assert_eq!(f[0].note, a[0].note());
    assert_eq!(f[0].source, source("scope-1"));
    assert_eq!(f[0].source.version.as_deref(), Some("0.1.0"));
}

fn destlist(hostname: &str, pinned: bool, access_count: Option<u32>, last_access: i64) -> DestListEntry {
    DestListEntry {
        droid_volume_guid: String::new(),
        droid_file_guid: String::new(),
        birth_droid_volume_guid: String::new(),
        birth_droid_file_guid: String::new(),
        hostname: hostname.to_string(),
        entry_number: 1,
        last_access,
        pinned,
        access_count,
        path: "C:\\t.txt".to_string(),
    }
}

fn list(app_id: Option<&str>, dl: DestListEntry) -> JumpList {
    let link = parse_shell_link(&header(0)).unwrap();
    JumpList {
        kind: JumpListKind::Automatic,
        app_id: app_id.map(str::to_string),
        entries: vec![JumpListEntry { destlist: Some(dl), link }],
    }
}

fn jl_codes(jl: &JumpList, host: Option<&str>) -> Vec<&'static str> {
    audit_jumplist(jl, host, "s").iter().map(|f| f.code).collect()
}

#[test]
fn cross_machine_ignores_ascii_case_and_empty_hostnames() {
    let same = list(None, destlist("other-pc", false, None, 0));
    assert!(jl_codes(&same, Some("OTHER-PC")).is_empty());
    let other = list(None, destlist("OTHER-PC", false, None, 0));
    assert_eq!(jl_codes(&other, Some("HOST")), vec!["JUMPLIST-CROSS-MACHINE"]);
    assert!(jl_codes(&other, None).is_empty());
    let blank = list(None, destlist("", false, None, 0));
    assert!(jl_codes(&blank, Some("HOST")).is_empty());
}

#[test]
fn jumplist_findings_come_in_order() {
    let jl = list(Some("5d696d521de238c3"), destlist("A", true, Some(3), 0));
    assert_eq!(
        jl_codes(&jl, Some("B")),
        vec![
            "JUMPLIST-APPID-IDENTIFIED",
            "JUMPLIST-PINNED-TARGET",
            "JUMPLIST-CROSS-MACHINE",
            "JUMPLIST-MRU-RECENCY"
        ]
    );
    let findings = audit_jumplist(&jl, Some("B"), "s");
    assert_eq!(
        findings[0].note,
        "the Jump List AppID 5d696d521de238c3 is consistent with the application \"Chrome\""
    );
    assert_eq!(findings[0].severity, Some(Severity::Info));
    assert_eq!(findings[1].severity, Some(Severity::Low));
    assert_eq!(findings[3].category, Category::History);
}

#[test]
fn unknown_app_id_and_quiet_entry_give_nothing() {
    let jl = list(Some("0000000000000000"), destlist("", false, None, 0));
    assert!(audit_jumplist(&jl, Some("X"), "s").is_empty());
}

#[test]
fn mru_note_renders_unknown_count_and_negative_time() {
    let a = JumpListAnomaly::MruRecency { path: "E:\\a".to_string(), access_count: None, last_access: -5 };
    assert_eq!(
        a.note(),
        "the Jump List records MRU recency for \"E:\\\\a\" (access count unknown, last access -5); \
         consistent with the application's own usage history for this target"
    );
    let b = JumpListAnomaly::MruRecency { path: "p".to_string(), access_count: Some(1207), last_access: 1_700_000_000 };
    assert!(b.note().contains("(access count 1207, last access 1700000000)"));
    assert_eq!(a.code(), "JUMPLIST-MRU-RECENCY");
    assert!(a.mitre().is_empty());
}

#[test]
fn pinned_and_cross_machine_notes_render_exactly() {
    let p = JumpListAnomaly::PinnedTarget { path: "C:\\a".to_string() };
    assert_eq!(
        p.note(),
        "the Jump List entry for \"C:\\\\a\" is pinned; consistent with the user having deliberately \
         fixed this target to the application's Jump List"
    );
    let c = JumpListAnomaly::CrossMachine { hostname: "A".to_string(), acquisition_host: "B".to_string() };
    assert_eq!(
        c.note(),
        "the Jump List entry records origin hostname \"A\", which has no match to the acquisition \
         host \"B\"; consistent with the target having been accessed from, or the artifact having \
         originated on, a different machine"
    );
    assert_eq!(c.category(), Category::Provenance);
}

// ── Jump List readers ───────────────────────────────────────────────────────

#[test]
fn custom_app_id_comes_from_last_path_component_lowercased() {
    let mut data = Vec::new();
    data.extend_from_slice(&2u32.to_le_bytes());
    data.extend_from_slice(&[0u8; 8]);
    let jl = parse_custom_destinations(&data, Some("C:\\Users\\x/AppData\\5D696D521DE238C3.customDestinations-ms")).unwrap();
    assert_eq!(jl.kind, JumpListKind::Custom);
    assert_eq!(jl.app_id.as_deref(), Some("5d696d521de238c3"));
    assert!(jl.entries.is_empty());
    let none = parse_custom_destinations(&data, Some("dir.with.dots/.customDestinations-ms")).unwrap();
    assert_eq!(none.app_id, None);
}

#[test]
fn custom_entry_whose_link_clsid_is_broken_is_no_boundary() {
    let mut data = Vec::new();
    data.extend_from_slice(&2u32.to_le_bytes());
    data.extend_from_slice(&[0u8; 8]);
    data.extend_from_slice(&CLSID_BYTES);
    data.extend_from_slice(&removable_lnk(1, "A:\\"));
    data.extend_from_slice(&CLSID_BYTES);
    let mut lnk = removable_lnk(0x5555_5555, "B:\\");
    lnk[4] = 0x02; // the LinkCLSID at +4 of this link no longer matches
    data.extend_from_slice(&lnk);
    let jl = parse_custom_destinations(&data, None).unwrap();
    assert_eq!(jl.entries.len(), 1);
    assert_eq!(jl.entries[0].destlist, None);
    assert_eq!(jl.entries[0].link.link_info.as_ref().unwrap().volume_id.as_ref().unwrap().drive_serial_number, 1);
}

fn compound(streams: &[(&str, &[u8])]) -> Vec<u8> {
    let mut comp = cfb::CompoundFile::create(Cursor::new(Vec::new())).unwrap();
    for (name, bytes) in streams {
        comp.create_stream(name).unwrap().write_all(bytes).unwrap();
    }
    comp.flush().unwrap();
    comp.into_inner().into_inner()
}

fn destlist_v1_entry(entry_number: u32, path: &str) -> Vec<u8> {
    let mut e = vec![0u8; 88];
    e.extend_from_slice(&entry_number.to_le_bytes());
    e.extend_from_slice(&[0u8; 8]);
    e.extend_from_slice(&[0u8; 8]); // last access FILETIME 0
    e.extend_from_slice(&0i32.to_le_bytes()); // pinned
    let units: Vec<u16> = path.encode_utf16().collect();
    e.extend_from_slice(&(units.len() as u16).to_le_bytes());
    for u in units {
        e.extend_from_slice(&u.to_le_bytes());
    }
    e
}

#[test]
fn automatic_stream_names_are_lower_hex_and_short_tail_ends_walk() {
    let lnk = removable_lnk(0xABCD_0001, "Q:\\q");
    let mut dl = vec![0u8; 32];
    dl[0] = 1; // v1 layout
    dl.extend_from_slice(&destlist_v1_entry(0xAB, "Q:\\q"));
    dl.extend_from_slice(&[0u8; 111]); // too short for another entry
    let bytes = compound(&[("DestList", &dl), ("ab", &lnk)]);
    let jl = parse_automatic_destinations(&bytes, None).unwrap();
    assert_eq!(jl.entries.len(), 1);
    let d = jl.entries[0].destlist.as_ref().unwrap();
    assert_eq!(d.entry_number, 0xAB);
    assert!(d.pinned);
    assert_eq!(d.last_access, 0);
    assert_eq!(d.hostname, "");
    assert_eq!(d.droid_volume_guid, "00000000-0000-0000-0000-000000000000");
    assert_eq!(d.path, "Q:\\q");
}

#[test]
fn automatic_without_destlist_is_rejected() {
    let bytes = compound(&[("1", &removable_lnk(1, "A:\\"))]);
    assert!(parse_automatic_destinations(&bytes, None).is_none());
}

#[test]
fn destlist_records_follow_the_format_version() {
    // v1: path length at 112, path at 114, no access count, no alignment.
    let mut dl = vec![0u8; 32];
    dl[0] = 1;
    dl.extend_from_slice(&destlist_v1_entry(7, "C:\\a"));
    dl.extend_from_slice(&destlist_v1_entry(9, "D:\\bc"));
    let records = parse_destlist(&dl);
    assert_eq!(records.len(), 2);
    assert_eq!(records[0].entry_number, 7);
    assert_eq!(records[0].path, "C:\\a");
    assert_eq!(records[0].access_count, None);
    assert_eq!(records[1].entry_number, 9);
    assert_eq!(records[1].path, "D:\\bc");

    // v2+: the access count at 116 and the path at 130, 4 bytes of alignment after it.
    let mut e = vec![0u8; 88];
    e.extend_from_slice(&0x2Au32.to_le_bytes()); // entry number at 88
    e.extend_from_slice(&[0u8; 16]); // up to the pin status at 108
    e.extend_from_slice(&(-1i32).to_le_bytes()); // not pinned
    e.extend_from_slice(&[0u8; 4]);
    e.extend_from_slice(&5u32.to_le_bytes()); // access count at 116
    e.extend_from_slice(&[0u8; 8]);
    e.extend_from_slice(&1u16.to_le_bytes()); // path length at 128
    e.extend_from_slice(&(b'Z' as u16).to_le_bytes());
    e.extend_from_slice(&[0u8; 4]);
    let mut dl2 = vec![0u8; 32];
    dl2[0] = 3;
    dl2.extend_from_slice(&e);
    dl2.extend_from_slice(&e);
    let records = parse_destlist(&dl2);
    assert_eq!(records.len(), 2);
    for r in &records {
        assert_eq!(r.entry_number, 0x2A);
        assert!(!r.pinned);
        assert_eq!(r.access_count, Some(5));
        assert_eq!(r.path, "Z");
    }

    // A stream with only its header holds no records.
    assert!(parse_destlist(&[0u8; 32]).is_empty());
    assert!(parse_destlist(&[]).is_empty());
}

#[test]
fn app_id_finding_comes_once_and_every_finding_carries_the_source() {
    let mut jl = list(Some("5d696d521de238c3"), destlist("A", true, None, 0));
    let second = list(None, destlist("B", true, Some(1), 0)).entries.remove(0);
    jl.entries.push(second);
    let findings = audit_jumplist(&jl, None, "case-7");
    let codes: Vec<&str> = findings.iter().map(|f| f.code).collect();
    assert_eq!(
        codes,
        vec![
            "JUMPLIST-APPID-IDENTIFIED",
            "JUMPLIST-PINNED-TARGET",
            "JUMPLIST-PINNED-TARGET",
            "JUMPLIST-MRU-RECENCY"
        ]
    );
    for f in &findings {
        assert_eq!(f.source, source("case-7"));
    }
}

#[test]
fn destlist_path_decodes_pairs_and_replaces_lone_surrogates() {
    let units: [u16; 5] = [0xD83D, 0xDE00, 0xD800, 0x0041, 0xDC00];
    let mut e = vec![0u8; 112];
    e.extend_from_slice(&(units.len() as u16).to_le_bytes());
    for u in units {
        e.extend_from_slice(&u.to_le_bytes());
    }
    let mut dl = vec![0u8; 32];
    dl[0] = 1;
    dl.extend_from_slice(&e);
    let records = parse_destlist(&dl);
    assert_eq!(records.len(), 1);
    assert_eq!(records[0].path, "\u{1F600}\u{FFFD}A\u{FFFD}");
}

#[test]
fn tracker_machine_id_stops_at_its_sixteen_byte_field() {
    let mut data = header(0);
    data.extend_from_slice(&0x60u32.to_le_bytes());
    data.extend_from_slice(&shlink::EXTRA_TRACKER_DATA_BLOCK.to_le_bytes());
    data.extend_from_slice(&0x58u32.to_le_bytes());
    data.extend_from_slice(&0u32.to_le_bytes());
    data.extend_from_slice(b"ABCDEFGHIJKLMNOP"); // all 16 bytes used, no NUL
    data.extend_from_slice(&[0x41u8; 64]); // droid GUIDs of 'A' bytes
    data.extend_from_slice(&0u32.to_le_bytes());
    let link = parse_shell_link(&data).unwrap();
    let t = link.tracker.unwrap();
    assert_eq!(t.machine_id, "ABCDEFGHIJKLMNOP");
    assert_eq!(t.droid.volume, "41414141-4141-4141-4141-414141414141");
}

#[test]
fn sized_ansi_string_is_present_exactly_when_counted() {
    // HasName with an ASCII name, then HasRelativePath with a zero count.
    let mut data = header(0x4 | 0x8);
    data.extend_from_slice(&3u16.to_le_bytes());
    data.extend_from_slice(b"abc");
    data.extend_from_slice(&0u16.to_le_bytes());
    let link = parse_shell_link(&data).unwrap();
    assert_eq!(link.string_data.name.as_deref(), Some("abc"));
    assert_eq!(link.string_data.relative_path, None);
}

#[test]
fn notes_name_their_fields_and_claim_no_verdict() {
    let notes = vec![
        LnkAnomaly::RemovableMediaTarget { drive_type: 2, drive_serial: 0xDEF1_0000, path: Some("E:\\x".to_string()) }.note(),
        LnkAnomaly::NetworkTarget { net_name: Some("\\\\srv\\share".to_string()) }.note(),
        LnkAnomaly::TrackerMachine { machine_id: "ws-01".to_string() }.note(),
        JumpListAnomaly::MruRecency { path: "C:\\a".to_string(), access_count: None, last_access: -5 }.note(),
    ];
    assert!(notes[1].contains("\\\\srv\\share"));
    assert!(notes[2].contains("ws-01"));
    for n in &notes {
        let l = n.to_ascii_lowercase();
        assert!(l.contains("consistent with"));
        assert!(!l.contains("proves") && !l.contains("confirms") && !l.contains("definitely"));
    }
}

#[test]
fn no_host_audit_is_the_hosted_audit_without_cross_machine() {
    let mut jl = list(Some("5d696d521de238c3"), destlist("A", true, Some(2), 0));
    let second = list(None, destlist("host", false, None, 0)).entries.remove(0);
    jl.entries.push(second);
    let hosted: Vec<_> = audit_jumplist(&jl, Some("HOST"), "s")
        .into_iter()
        .filter(|f| f.code != "JUMPLIST-CROSS-MACHINE")
        .collect();
    assert_eq!(audit_jumplist(&jl, None, "s"), hosted);
    assert!(audit_jumplist(&jl, Some("HOST"), "s").iter().any(|f| f.code == "JUMPLIST-CROSS-MACHINE"));
}

#[test]
fn bytes_that_are_not_a_compound_file_give_no_jump_list() {
    assert!(parse_automatic_destinations(&[], None).is_none());
    assert!(parse_automatic_destinations(&[0xD0u8; 600], None).is_none());
    let mut magic_only = vec![0xD0, 0xCF, 0x11, 0xE0, 0xA1, 0xB1, 0x1A, 0xE1];
    magic_only.resize(100, 0);
    assert!(parse_automatic_destinations(&magic_only, None).is_none());
}

#[test]
fn notes_with_escaped_fields_claim_no_verdict() {
    let notes = vec![
        LnkAnomaly::RemovableMediaTarget { drive_type: 2, drive_serial: 1, path: Some("F:\\nc.exe\t\"q\"\u{7}".to_string()) }.note(),
        JumpListAnomaly::PinnedTarget { path: "C:\\dir\\x\u{301}".to_string() }.note(),
        JumpListAnomaly::CrossMachine { hostname: "a\\b".to_string(), acquisition_host: "c\nd".to_string() }.note(),
    ];
    assert!(notes[0].contains("\\\\nc.exe\\t\\\"q\\\"\\u{7}"));
    for n in &notes {
        let l = n.to_ascii_lowercase();
        assert!(l.contains("consistent with"));
        assert!(!l.contains("proves") && !l.contains("confirms") && !l.contains("definitely"));
    }
}

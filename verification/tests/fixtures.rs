//! End-to-end validation against spec-exact, hand-authored `.lnk` and Jump
//! List fixtures, built byte-for-byte per `[MS-SHLLINK]` and the libyal
//! dtformats Jump-lists layout.

use std::io::{Cursor, Write};

use forensicnomicon::jumplist::appid_name;
use lnk_forensic::{
    audit, audit_findings, audit_jumplist, drive_type, parse_automatic_destinations,
    parse_custom_destinations, parse_shell_link, JumpListKind, LnkAnomaly,
};

const HEADER_SIZE: u32 = 0x4C;
const CLSID: [u8; 16] = [
    0x01, 0x14, 0x02, 0x00, 0x00, 0x00, 0x00, 0x00, 0xC0, 0x00, 0x00, 0x00, 0x00, 0x00, 0x00, 0x46,
];
const FT_DELTA: i64 = 116_444_736_000_000_000;
const HAS_LINK_INFO: u32 = 1 << 1;
const HAS_NAME: u32 = 1 << 2;
const TRACKER_SIG: u32 = 0xA000_0003;

fn ft(unix: i64) -> [u8; 8] {
    (((unix * 10_000_000) + FT_DELTA) as u64).to_le_bytes()
}

fn lnk_header(flags: u32, attrs: u32) -> Vec<u8> {
    let mut h = Vec::new();
    h.extend_from_slice(&HEADER_SIZE.to_le_bytes());
    h.extend_from_slice(&CLSID);
    h.extend_from_slice(&flags.to_le_bytes());
    h.extend_from_slice(&attrs.to_le_bytes());
    h.extend_from_slice(&ft(1_600_000_000));
    h.extend_from_slice(&ft(1_600_000_100));
    h.extend_from_slice(&ft(1_600_000_200));
    h.extend_from_slice(&123_456u32.to_le_bytes());
    h.extend_from_slice(&7i32.to_le_bytes());
    h.extend_from_slice(&1u32.to_le_bytes());
    h.extend_from_slice(&0u16.to_le_bytes());
    h.extend_from_slice(&[0u8; 2]);
    h.extend_from_slice(&[0u8; 4]);
    h.extend_from_slice(&[0u8; 4]);
    assert_eq!(h.len(), 0x4C);
    h
}

fn guid_le(s: &str) -> Vec<u8> {
    let hex: String = s.chars().filter(|c| *c != '-').collect();
    let raw: Vec<u8> = (0..16)
        .map(|i| u8::from_str_radix(&hex[i * 2..i * 2 + 2], 16).unwrap())
        .collect();
    let mut o = Vec::new();
    o.extend_from_slice(&[raw[3], raw[2], raw[1], raw[0]]);
    o.extend_from_slice(&[raw[5], raw[4]]);
    o.extend_from_slice(&[raw[7], raw[6]]);
    o.extend_from_slice(&raw[8..16]);
    o
}

fn tracker(machine: &str, vol: &str, obj: &str) -> Vec<u8> {
    let mut b = Vec::new();
    b.extend_from_slice(&0x60u32.to_le_bytes());
    b.extend_from_slice(&TRACKER_SIG.to_le_bytes());
    b.extend_from_slice(&0x58u32.to_le_bytes());
    b.extend_from_slice(&0u32.to_le_bytes());
    let mut m = [0u8; 16];
    for (i, c) in machine.bytes().take(15).enumerate() {
        m[i] = c;
    }
    b.extend_from_slice(&m);
    b.extend_from_slice(&guid_le(vol));
    b.extend_from_slice(&guid_le(obj));
    b.extend_from_slice(&guid_le(vol));
    b.extend_from_slice(&guid_le(obj));
    assert_eq!(b.len(), 0x60);
    b
}

/// The removable-media fixture: `removable_media.lnk`.
fn removable_media_lnk() -> Vec<u8> {
    let mut d = lnk_header(HAS_LINK_INFO | HAS_NAME, 1 << 5);
    let label = "KINGSTON USB";
    let mut lz: Vec<u8> = label.bytes().collect();
    lz.push(0);
    let mut vol = Vec::new();
    let vsize = 0x10 + lz.len();
    vol.extend_from_slice(&(vsize as u32).to_le_bytes());
    vol.extend_from_slice(&2u32.to_le_bytes());
    vol.extend_from_slice(&0xDEAD_BEEFu32.to_le_bytes());
    vol.extend_from_slice(&0x10u32.to_le_bytes());
    vol.extend_from_slice(&lz);
    let base = "E:\\payload.exe";
    let mut bz: Vec<u8> = base.bytes().collect();
    bz.push(0);
    let hs = 0x1Cu32;
    let voff = hs;
    let lbpoff = hs + vol.len() as u32;
    let total = lbpoff as usize + bz.len();
    let mut li = Vec::new();
    li.extend_from_slice(&(total as u32).to_le_bytes());
    li.extend_from_slice(&hs.to_le_bytes());
    li.extend_from_slice(&0x1u32.to_le_bytes());
    li.extend_from_slice(&voff.to_le_bytes());
    li.extend_from_slice(&lbpoff.to_le_bytes());
    li.extend_from_slice(&0u32.to_le_bytes());
    li.extend_from_slice(&0u32.to_le_bytes());
    li.extend_from_slice(&vol);
    li.extend_from_slice(&bz);
    d.extend_from_slice(&li);
    let name = "Removable shortcut";
    d.extend_from_slice(&(name.len() as u16).to_le_bytes());
    d.extend_from_slice(name.as_bytes());
    d.extend_from_slice(&tracker(
        "ANALYST-PC",
        "11111111-2222-3333-4444-555555555555",
        "66666666-7777-8888-9999-aaaaaaaaaaaa",
    ));
    d.extend_from_slice(&[0, 0, 0, 0]);
    d
}

/// The network-share fixture: `network_share.lnk`.
fn network_share_lnk() -> Vec<u8> {
    let mut d = lnk_header(HAS_LINK_INFO, 0);
    let net = "\\\\SERVER\\share";
    let mut nz: Vec<u8> = net.bytes().collect();
    nz.push(0);
    let dev = "Z:";
    let mut dz: Vec<u8> = dev.bytes().collect();
    dz.push(0);
    let ch = 0x14u32;
    let noff = ch;
    let doff = ch + nz.len() as u32;
    let csize = doff as usize + dz.len();
    let mut cnrl = Vec::new();
    cnrl.extend_from_slice(&(csize as u32).to_le_bytes());
    cnrl.extend_from_slice(&0x1u32.to_le_bytes());
    cnrl.extend_from_slice(&noff.to_le_bytes());
    cnrl.extend_from_slice(&doff.to_le_bytes());
    cnrl.extend_from_slice(&0u32.to_le_bytes());
    cnrl.extend_from_slice(&nz);
    cnrl.extend_from_slice(&dz);
    let hs = 0x1Cu32;
    let coff = hs;
    let soff = coff + cnrl.len() as u32;
    let total = soff as usize + 1;
    let mut li = Vec::new();
    li.extend_from_slice(&(total as u32).to_le_bytes());
    li.extend_from_slice(&hs.to_le_bytes());
    li.extend_from_slice(&0x2u32.to_le_bytes());
    li.extend_from_slice(&0u32.to_le_bytes());
    li.extend_from_slice(&0u32.to_le_bytes());
    li.extend_from_slice(&coff.to_le_bytes());
    li.extend_from_slice(&soff.to_le_bytes());
    li.extend_from_slice(&cnrl);
    li.push(0);
    d.extend_from_slice(&li);
    d.extend_from_slice(&[0, 0, 0, 0]);
    d
}

const FOOTER: u32 = 0xBABF_FBAB;

fn jumplist_header(flags: u32, attrs: u32) -> Vec<u8> {
    let mut h = Vec::new();
    h.extend_from_slice(&HEADER_SIZE.to_le_bytes());
    h.extend_from_slice(&CLSID);
    h.extend_from_slice(&flags.to_le_bytes());
    h.extend_from_slice(&attrs.to_le_bytes());
    h.extend_from_slice(&ft(1_600_000_000));
    h.extend_from_slice(&ft(1_600_000_100));
    h.extend_from_slice(&ft(1_600_000_200));
    h.extend_from_slice(&0u32.to_le_bytes());
    h.extend_from_slice(&0i32.to_le_bytes());
    h.extend_from_slice(&1u32.to_le_bytes());
    h.extend_from_slice(&0u16.to_le_bytes());
    h.extend_from_slice(&[0u8; 2]);
    h.extend_from_slice(&[0u8; 4]);
    h.extend_from_slice(&[0u8; 4]);
    assert_eq!(h.len(), 0x4C);
    h
}

/// A removable-media LNK: LinkInfo + VolumeID(DRIVE_REMOVABLE, serial) + path.
fn removable_lnk(serial: u32, base: &str) -> Vec<u8> {
    let mut d = jumplist_header(HAS_LINK_INFO, 1 << 5);
    let label = "KINGSTON USB";
    let mut lz: Vec<u8> = label.bytes().collect();
    lz.push(0);
    let mut vol = Vec::new();
    let vsize = 0x10 + lz.len();
    vol.extend_from_slice(&(vsize as u32).to_le_bytes());
    vol.extend_from_slice(&2u32.to_le_bytes()); // DRIVE_REMOVABLE
    vol.extend_from_slice(&serial.to_le_bytes());
    vol.extend_from_slice(&0x10u32.to_le_bytes());
    vol.extend_from_slice(&lz);
    let mut bz: Vec<u8> = base.bytes().collect();
    bz.push(0);
    let hs = 0x1Cu32;
    let voff = hs;
    let lbpoff = hs + vol.len() as u32;
    let total = lbpoff as usize + bz.len();
    let mut li = Vec::new();
    li.extend_from_slice(&(total as u32).to_le_bytes());
    li.extend_from_slice(&hs.to_le_bytes());
    li.extend_from_slice(&0x1u32.to_le_bytes());
    li.extend_from_slice(&voff.to_le_bytes());
    li.extend_from_slice(&lbpoff.to_le_bytes());
    li.extend_from_slice(&0u32.to_le_bytes());
    li.extend_from_slice(&0u32.to_le_bytes());
    li.extend_from_slice(&vol);
    li.extend_from_slice(&bz);
    d.extend_from_slice(&li);
    d.extend_from_slice(&[0, 0, 0, 0]); // ExtraData terminal
    d
}


/// A DestList v2 (Windows 10) entry: pinned, hostname OTHER-PC, access count 7.
fn destlist_entry_v2(entry_number: u32, hostname: &str, pinned: bool, access: u32, path: &str) -> Vec<u8> {
    let mut e = vec![0u8; 8];
    e.extend_from_slice(&guid_le("11111111-2222-3333-4444-555555555555"));
    e.extend_from_slice(&guid_le("66666666-7777-8888-9999-aaaaaaaaaaaa"));
    e.extend_from_slice(&guid_le("11111111-2222-3333-4444-555555555555"));
    e.extend_from_slice(&guid_le("66666666-7777-8888-9999-aaaaaaaaaaaa"));
    let mut host = [0u8; 16];
    for (i, c) in hostname.bytes().take(15).enumerate() {
        host[i] = c;
    }
    e.extend_from_slice(&host);
    e.extend_from_slice(&entry_number.to_le_bytes());
    e.extend_from_slice(&0u32.to_le_bytes());
    e.extend_from_slice(&0u32.to_le_bytes());
    e.extend_from_slice(&ft(1_700_000_000));
    let pin: i32 = if pinned { 0 } else { -1 };
    e.extend_from_slice(&pin.to_le_bytes());
    e.extend_from_slice(&1u32.to_le_bytes()); // status
    e.extend_from_slice(&access.to_le_bytes()); // access count
    e.extend_from_slice(&[0u8; 8]); // unknown
    let units: Vec<u16> = path.encode_utf16().collect();
    e.extend_from_slice(&(units.len() as u16).to_le_bytes());
    for u in &units {
        e.extend_from_slice(&u.to_le_bytes());
    }
    e.extend_from_slice(&[0u8; 4]); // alignment
    e
}

fn destlist_stream(entry: &[u8]) -> Vec<u8> {
    let mut s = Vec::new();
    s.extend_from_slice(&3u32.to_le_bytes()); // format version 3 (Win10)
    s.extend_from_slice(&1u32.to_le_bytes()); // entry count
    s.extend_from_slice(&1u32.to_le_bytes()); // pinned count
    s.extend_from_slice(&0u32.to_le_bytes());
    s.extend_from_slice(&1u32.to_le_bytes()); // last entry number
    s.extend_from_slice(&0u32.to_le_bytes());
    s.extend_from_slice(&1u32.to_le_bytes()); // last revision
    s.extend_from_slice(&0u32.to_le_bytes());
    s.extend_from_slice(entry);
    s
}

/// The automatic-destinations fixture: `pinned_removable.automaticDestinations-ms`.
fn automatic_fixture() -> Vec<u8> {
    let lnk = removable_lnk(0xDEAD_BEEF, "E:\\report.docx");
    let entry = destlist_entry_v2(1, "OTHER-PC", true, 7, "E:\\report.docx");
    let destlist = destlist_stream(&entry);

    let mut comp = cfb::CompoundFile::create(Cursor::new(Vec::new())).unwrap();
    comp.create_stream("DestList").unwrap().write_all(&destlist).unwrap();
    comp.create_stream("1").unwrap().write_all(&lnk).unwrap();
    comp.flush().unwrap();
    comp.into_inner().into_inner()
}

/// The custom-destinations fixture: `tasks.customDestinations-ms`.
fn custom_fixture() -> Vec<u8> {
    let lnk = removable_lnk(0xDEAD_BEEF, "E:\\report.docx");
    let mut data = Vec::new();
    data.extend_from_slice(&2u32.to_le_bytes()); // format version 2
    data.extend_from_slice(&1u32.to_le_bytes()); // category count
    data.extend_from_slice(&0u32.to_le_bytes()); // unknown
    data.extend_from_slice(&2u32.to_le_bytes()); // category type 2 (user tasks)
    data.extend_from_slice(&1u32.to_le_bytes()); // number of entries
    data.extend_from_slice(&CLSID); // shell-object CLSID prefix
    data.extend_from_slice(&lnk);
    data.extend_from_slice(&FOOTER.to_le_bytes()); // footer signature
    data
}


#[test]
fn removable_fixture_parses_volume_serial_and_local_base_path() {
    let link = parse_shell_link(&removable_media_lnk()).expect("valid [MS-SHLLINK] header");
    let info = link.link_info.as_ref().expect("HasLinkInfo set");
    let vol = info.volume_id.as_ref().expect("VolumeID present");
    assert_eq!(vol.drive_type, drive_type::REMOVABLE);
    assert_eq!(
        vol.drive_serial_number, 0xDEAD_BEEF,
        "drive serial surfaced"
    );
    assert_eq!(vol.volume_label.as_deref(), Some("KINGSTON USB"));
    assert_eq!(info.local_base_path.as_deref(), Some("E:\\payload.exe"));
    // The TrackerDataBlock records the origin machine.
    assert_eq!(
        link.tracker.as_ref().expect("tracker present").machine_id,
        "ANALYST-PC"
    );
}

#[test]
fn removable_fixture_audit_fires_removable_media_finding_with_serial() {
    let link = parse_shell_link(&removable_media_lnk()).unwrap();
    let anomalies = audit(&link);
    let codes: Vec<&str> = anomalies.iter().map(LnkAnomaly::code).collect();
    assert!(
        codes.contains(&"LNK-REMOVABLE-MEDIA-TARGET"),
        "removable-media target not detected; got {codes:?}"
    );
    assert!(
        codes.contains(&"LNK-TRACKER-MACHINE"),
        "tracker-machine attribution not detected; got {codes:?}"
    );

    // The drive serial — the join key to a peripheral DeviceConnection — is
    // surfaced first-class on the removable-media anomaly.
    let serial = anomalies.iter().find_map(|a| match a {
        LnkAnomaly::RemovableMediaTarget { drive_serial, .. } => Some(*drive_serial),
        _ => None,
    });
    assert_eq!(serial, Some(0xDEAD_BEEF), "volume serial join key surfaced");

    // Findings render as graded, hedged observations.
    let findings = audit_findings(&link, "volume: E:");
    assert!(findings
        .iter()
        .any(|f| f.code == "LNK-REMOVABLE-MEDIA-TARGET"));
    for f in &findings {
        assert!(
            f.note.to_ascii_lowercase().contains("consistent with"),
            "must hedge: {}",
            f.note
        );
    }
}

#[test]
fn network_fixture_fires_network_target() {
    let link = parse_shell_link(&network_share_lnk()).expect("valid [MS-SHLLINK] header");
    let cnrl = link
        .link_info
        .as_ref()
        .expect("HasLinkInfo")
        .common_network_relative_link
        .as_ref()
        .expect("CommonNetworkRelativeLink present");
    assert_eq!(cnrl.net_name.as_deref(), Some("\\\\SERVER\\share"));

    let codes: Vec<&str> = audit(&link).iter().map(LnkAnomaly::code).collect();
    assert!(
        codes.contains(&"LNK-NETWORK-TARGET"),
        "network target not detected; got {codes:?}"
    );
}

#[test]
fn automatic_fixture_parses_destlist_and_embedded_removable_lnk() {
    let jl =
        parse_automatic_destinations(&automatic_fixture(), Some("1b4dd67f29cb1962.automaticDestinations-ms"))
            .expect("valid CFB automatic-destinations");

    assert_eq!(jl.kind, JumpListKind::Automatic);
    assert_eq!(jl.app_id.as_deref(), Some("1b4dd67f29cb1962"));
    assert_eq!(jl.entries.len(), 1);

    let e = &jl.entries[0];
    let dl = e.destlist.as_ref().expect("destlist metadata");
    assert_eq!(dl.entry_number, 1);
    assert_eq!(dl.hostname, "OTHER-PC");
    assert!(dl.pinned, "the entry is pinned");
    assert_eq!(dl.access_count, Some(7));
    assert_eq!(dl.path, "E:\\report.docx");

    // The embedded LNK surfaces the removable VolumeID serial join key.
    let vol = e
        .link
        .link_info
        .as_ref()
        .unwrap()
        .volume_id
        .as_ref()
        .unwrap();
    assert_eq!(vol.drive_type, drive_type::REMOVABLE);
    assert_eq!(vol.drive_serial_number, 0xDEAD_BEEF);
}

#[test]
fn automatic_fixture_audit_fires_pinned_appid_and_removable() {
    let jl =
        parse_automatic_destinations(&automatic_fixture(), Some("1b4dd67f29cb1962.automaticDestinations-ms"))
            .unwrap();

    // The AppID resolves to Windows Explorer.
    assert_eq!(appid_name("1b4dd67f29cb1962"), Some("Windows Explorer"));

    let findings = audit_jumplist(&jl, Some("ACQUISITION-HOST"), "jumplist: explorer");
    let codes: Vec<&str> = findings.iter().map(|f| f.code.as_ref()).collect();

    assert!(
        codes.contains(&"JUMPLIST-APPID-IDENTIFIED"),
        "got {codes:?}"
    );
    assert!(codes.contains(&"JUMPLIST-PINNED-TARGET"), "got {codes:?}");
    // OTHER-PC != ACQUISITION-HOST → cross-machine.
    assert!(codes.contains(&"JUMPLIST-CROSS-MACHINE"), "got {codes:?}");
    assert!(codes.contains(&"JUMPLIST-MRU-RECENCY"), "got {codes:?}");
    // The embedded LNK audit is reused — removable finding surfaces for free.
    assert!(
        codes.contains(&"LNK-REMOVABLE-MEDIA-TARGET"),
        "embedded LNK audit not reused; got {codes:?}"
    );

    // Every finding is a hedged observation, never a verdict.
    for f in &findings {
        let note = f.note.to_ascii_lowercase();
        assert!(note.contains("consistent with"), "must hedge: {note}");
        for forbidden in ["proves", "confirms"] {
            assert!(!note.contains(forbidden), "must not assert: {note}");
        }
    }
}

#[test]
fn custom_fixture_parses_and_audits_embedded_lnk() {
    let jl = parse_custom_destinations(&custom_fixture(), Some("5d696d521de238c3.customDestinations-ms"))
        .expect("valid custom-destinations");

    assert_eq!(jl.kind, JumpListKind::Custom);
    assert_eq!(jl.app_id.as_deref(), Some("5d696d521de238c3"));
    assert_eq!(jl.entries.len(), 1, "one embedded LNK split out");

    let vol = jl.entries[0]
        .link
        .link_info
        .as_ref()
        .unwrap()
        .volume_id
        .as_ref()
        .unwrap();
    assert_eq!(vol.drive_serial_number, 0xDEAD_BEEF);

    // The AppID resolves to Chrome; the embedded removable LNK audits for free.
    assert_eq!(appid_name("5d696d521de238c3"), Some("Chrome"));
    let findings = audit_jumplist(&jl, None, "jumplist: chrome tasks");
    let codes: Vec<&str> = findings.iter().map(|f| f.code.as_ref()).collect();
    assert!(
        codes.contains(&"JUMPLIST-APPID-IDENTIFIED"),
        "got {codes:?}"
    );
    assert!(
        codes.contains(&"LNK-REMOVABLE-MEDIA-TARGET"),
        "embedded LNK audit not reused; got {codes:?}"
    );
}

//! Graded anomaly auditor over Shell Links and Jump Lists.
//!
//! Every anomaly is an observation ("consistent with …"); the examiner draws
//! the conclusions. MITRE techniques are narrated as consistency, never as a
//! verdict.
use vstd::prelude::*;

use crate::deps::{
    application_for, debug_quote, debug_text, known_application, opt_text, push_text,
};
use crate::drive_type;
use crate::jumplist::{
    ascii_lower, chars_of, to_ascii_lower, DestListEntryView, JumpList, JumpListEntryView,
    JumpListView,
};
use crate::shell_link::{ShellLink, ShellLinkView};
use crate::text::{
    decimal_text, padded_hex32_text, push_decimal, push_padded_hex32, push_signed_decimal,
    signed_decimal_text,
};

use crate::wording::{
    claims_no_verdict, jumplist_fields_quiet, lemma_jumplist_note_quiet, lemma_lnk_note_quiet,
    lemma_network_note_names_share, lemma_tracker_note_names_machine, lnk_fields_quiet, plain_text,
};

verus! {

// ── Grades ───────────────────────────────────────────────────────────────────

/// How serious a finding is.
#[derive(Debug, Clone, Copy, PartialEq, Eq, Structural)]
pub enum Severity {
    Info,
    Low,
    Medium,
    High,
    Critical,
}

/// What kind of evidence a finding is.
#[derive(Debug, Clone, Copy, PartialEq, Eq, Structural)]
pub enum Category {
    Integrity,
    Structure,
    Residue,
    Provenance,
    History,
    Concealment,
    Threat,
}

/// Who emitted a finding, over what.
#[derive(Debug, Clone, PartialEq, Eq)]
pub struct Source {
    /// The analyzer's name.
    pub analyzer: String,
    /// What the analyzer looked at.
    pub scope: String,
    /// The analyzer's version.
    pub version: Option<String>,
}

/// The value a [`Source`] stands for.
pub struct SourceView {
    pub analyzer: Seq<char>,
    pub scope: Seq<char>,
    pub version: Option<Seq<char>>,
}

impl View for Source {
    type V = SourceView;

    open spec fn view(&self) -> SourceView {
        SourceView { analyzer: self.analyzer@, scope: self.scope@, version: opt_text(self.version) }
    }
}

impl Source {
    /// A copy of this source.
    pub fn duplicate(&self) -> (r: Source)
        ensures
            r@ == self@,
    {
        Source {
            analyzer: self.analyzer.clone(),
            scope: self.scope.clone(),
            version: match &self.version {
                Some(v) => Some(v.clone()),
                None => None,
            },
        }
    }
}

/// A graded finding: an anomaly's grade, code and note, stamped with its
/// source.
#[derive(Debug, Clone, PartialEq, Eq)]
pub struct Finding {
    /// The severity grade.
    pub severity: Option<Severity>,
    /// The evidence category.
    pub category: Category,
    /// The stable, published anomaly code.
    pub code: &'static str,
    /// The hedged observation, in words.
    pub note: String,
    /// Who emitted the finding.
    pub source: Source,
    /// The MITRE ATT&CK techniques the observation is consistent with.
    pub mitre: &'static [&'static str],
}

/// The value a [`Finding`] stands for.
pub struct FindingView {
    pub severity: Option<Severity>,
    pub category: Category,
    pub code: Seq<char>,
    pub note: Seq<char>,
    pub source: SourceView,
    pub mitre: Seq<Seq<char>>,
}

/// The texts of a list of string slices.
pub open spec fn texts(v: Seq<&'static str>) -> Seq<Seq<char>> {
    v.map_values(|s: &'static str| s@)
}

impl View for Finding {
    type V = FindingView;

    open spec fn view(&self) -> FindingView {
        FindingView {
            severity: self.severity,
            category: self.category,
            code: self.code@,
            note: self.note@,
            source: self.source@,
            mitre: texts(self.mitre@),
        }
    }
}

/// Whether `t` occurs in `s`.
pub open spec fn contains_text(s: Seq<char>, t: Seq<char>) -> bool {
    exists|i: int| 0 <= i && i + t.len() <= s.len() && #[trigger] s.subrange(i, i + t.len()) == t
}

/// The hedge every note carries.
pub open spec fn hedge() -> Seq<char> {
    "consistent with"@
}

/// The analyzer's name.
pub open spec fn analyzer_name() -> Seq<char> {
    "lnk-forensic"@
}

/// The analyzer's version.
pub open spec fn analyzer_version() -> Seq<char> {
    "0.1.0"@
}

/// The source stamp for `scope`.
pub open spec fn source_of(scope: Seq<char>) -> SourceView {
    SourceView { analyzer: analyzer_name(), scope, version: Some(analyzer_version()) }
}

/// The [`Source`] stamp for findings this analyzer emits.
pub fn source(scope: &str) -> (r: Source)
    ensures
        r@ == source_of(scope@),
{
    Source {
        analyzer: "lnk-forensic".to_owned(),
        scope: scope.to_owned(),
        version: Some("0.1.0".to_owned()),
    }
}

// ── Shell Link anomalies ─────────────────────────────────────────────────────

/// A graded Shell Link anomaly.
#[derive(Debug, Clone, PartialEq, Eq)]
pub enum LnkAnomaly {
    /// The link's `VolumeID` describes a removable/external volume — the target
    /// file was opened from external media. MITRE T1052.001 / T1091.
    ///
    /// `drive_serial` is the join key to a peripheral device connection.
    RemovableMediaTarget {
        /// The `VolumeID.DriveType` value.
        drive_type: u32,
        /// The `VolumeID.DriveSerialNumber`.
        drive_serial: u32,
        /// The local base path on the removable volume, when known.
        path: Option<String>,
    },
    /// The link carries a `CommonNetworkRelativeLink` — the target was opened
    /// from a network share. MITRE T1021.
    NetworkTarget {
        /// The UNC / network share name, when known.
        net_name: Option<String>,
    },
    /// The `TrackerDataBlock` records the origin machine's NetBIOS name.
    TrackerMachine {
        /// The recorded origin machine NetBIOS name.
        machine_id: String,
    },
}

/// The value an [`LnkAnomaly`] stands for.
pub enum LnkAnomalyView {
    RemovableMediaTarget { drive_type: u32, drive_serial: u32, path: Option<Seq<char>> },
    NetworkTarget { net_name: Option<Seq<char>> },
    TrackerMachine { machine_id: Seq<char> },
}

impl View for LnkAnomaly {
    type V = LnkAnomalyView;

    open spec fn view(&self) -> LnkAnomalyView {
        match self {
            LnkAnomaly::RemovableMediaTarget { drive_type, drive_serial, path } => LnkAnomalyView::RemovableMediaTarget {
                drive_type: *drive_type,
                drive_serial: *drive_serial,
                path: opt_text(*path),
            },
            LnkAnomaly::NetworkTarget { net_name } => LnkAnomalyView::NetworkTarget { net_name: opt_text(*net_name) },
            LnkAnomaly::TrackerMachine { machine_id } => LnkAnomalyView::TrackerMachine { machine_id: machine_id@ },
        }
    }
}

/// The published code of a Shell Link anomaly.
pub open spec fn lnk_code(a: LnkAnomalyView) -> Seq<char> {
    match a {
        LnkAnomalyView::RemovableMediaTarget { .. } => "LNK-REMOVABLE-MEDIA-TARGET"@,
        LnkAnomalyView::NetworkTarget { .. } => "LNK-NETWORK-TARGET"@,
        LnkAnomalyView::TrackerMachine { .. } => "LNK-TRACKER-MACHINE"@,
    }
}

/// The severity of a Shell Link anomaly.
pub open spec fn lnk_severity(a: LnkAnomalyView) -> Option<Severity> {
    match a {
        LnkAnomalyView::RemovableMediaTarget { .. } => Some(Severity::Medium),
        LnkAnomalyView::NetworkTarget { .. } => Some(Severity::Low),
        LnkAnomalyView::TrackerMachine { .. } => Some(Severity::Info),
    }
}

/// The category of a Shell Link anomaly.
pub open spec fn lnk_category(a: LnkAnomalyView) -> Category {
    match a {
        LnkAnomalyView::TrackerMachine { .. } => Category::Provenance,
        _ => Category::Threat,
    }
}

/// The MITRE techniques a Shell Link anomaly is consistent with.
pub open spec fn lnk_mitre(a: LnkAnomalyView) -> Seq<Seq<char>> {
    match a {
        LnkAnomalyView::RemovableMediaTarget { .. } => seq!["T1052.001"@, "T1091"@],
        LnkAnomalyView::NetworkTarget { .. } => seq!["T1021"@],
        LnkAnomalyView::TrackerMachine { .. } => Seq::empty(),
    }
}

/// The note of a Shell Link anomaly.
pub open spec fn lnk_note(a: LnkAnomalyView) -> Seq<char> {
    match a {
        LnkAnomalyView::RemovableMediaTarget { drive_type, drive_serial, path } => {
            "the link target resolves to a removable/external volume (drive_type "@
                + decimal_text(drive_type as nat) + ", drive serial "@ + padded_hex32_text(drive_serial)
                + match path {
                Some(p) => ", path "@ + debug_text(p),
                None => Seq::empty(),
            } + "); "@ + hedge()
                + " a file opened from external media (MITRE T1052.001 / T1091). The volume serial is the join key to a peripheral device connection"@
        },
        LnkAnomalyView::NetworkTarget { net_name } => {
            "the link carries a network relative link"@ + match net_name {
                Some(n) => " to "@ + n,
                None => Seq::empty(),
            } + "; "@ + hedge() + " a file opened from a network share (MITRE T1021)"@
        },
        LnkAnomalyView::TrackerMachine { machine_id } => {
            "the tracker block records the origin machine "@ + debug_text(machine_id) + "; "@ + hedge()
                + " the link having been authored on that machine (attribution)"@
        },
    }
}

/// The graded finding a Shell Link anomaly gives, stamped with `source`.
pub open spec fn lnk_finding(a: LnkAnomalyView, source: SourceView) -> FindingView {
    FindingView {
        severity: lnk_severity(a),
        category: lnk_category(a),
        code: lnk_code(a),
        note: lnk_note(a),
        source,
        mitre: lnk_mitre(a),
    }
}

impl LnkAnomaly {
    /// The stable, published anomaly code (scheme-prefixed SCREAMING-KEBAB).
    pub fn code(&self) -> (r: &'static str)
        ensures
            r@ == lnk_code(self@),
    {
        match self {
            LnkAnomaly::RemovableMediaTarget { .. } => "LNK-REMOVABLE-MEDIA-TARGET",
            LnkAnomaly::NetworkTarget { .. } => "LNK-NETWORK-TARGET",
            LnkAnomaly::TrackerMachine { .. } => "LNK-TRACKER-MACHINE",
        }
    }

    /// The severity grade.
    pub fn severity(&self) -> (r: Option<Severity>)
        ensures
            r == lnk_severity(self@),
    {
        match self {
            LnkAnomaly::RemovableMediaTarget { .. } => Some(Severity::Medium),
            LnkAnomaly::NetworkTarget { .. } => Some(Severity::Low),
            LnkAnomaly::TrackerMachine { .. } => Some(Severity::Info),
        }
    }

    /// The evidence category.
    pub fn category(&self) -> (r: Category)
        ensures
            r == lnk_category(self@),
    {
        match self {
            LnkAnomaly::RemovableMediaTarget { .. } | LnkAnomaly::NetworkTarget { .. } => Category::Threat,
            LnkAnomaly::TrackerMachine { .. } => Category::Provenance,
        }
    }

    /// The MITRE ATT&CK techniques the anomaly is consistent with.
    pub fn mitre(&self) -> (r: &'static [&'static str])
        ensures
            texts(r@) == lnk_mitre(self@),
    {
        let r: &'static [&'static str] = match self {
            LnkAnomaly::RemovableMediaTarget { .. } => &["T1052.001", "T1091"],
            LnkAnomaly::NetworkTarget { .. } => &["T1021"],
            LnkAnomaly::TrackerMachine { .. } => &[],
        };
        assert(texts(r@) =~= lnk_mitre(self@));
        r
    }

    /// The hedged observation, in words. When no field it embeds uses a
    /// verdict word ("proves", "confirms", "definitely", in any case), neither
    /// does the note, `Debug` escapes included; it names the share it is
    /// about, and a machine ID of plain printable ASCII as written.
    pub fn note(&self) -> (r: String)
        ensures
            r@ == lnk_note(self@),
            lnk_fields_quiet(self@) ==> claims_no_verdict(r@),
            self@ matches LnkAnomalyView::NetworkTarget { net_name: Some(n) } ==> contains_text(r@, n),
            self@ matches LnkAnomalyView::TrackerMachine { machine_id }
                ==> (plain_text(machine_id) ==> contains_text(r@, machine_id)),
    {
        let mut s = String::new();
        match self {
            LnkAnomaly::RemovableMediaTarget { drive_type, drive_serial, path } => {
                push_text(&mut s, "the link target resolves to a removable/external volume (drive_type ");
                push_decimal(&mut s, *drive_type as u64);
                push_text(&mut s, ", drive serial ");
                push_padded_hex32(&mut s, *drive_serial);
                match path {
                    Some(p) => {
                        push_text(&mut s, ", path ");
                        let quoted = debug_quote(p.as_str());
                        push_text(&mut s, quoted.as_str());
                    },
                    None => {},
                }
                push_text(&mut s, "); ");
                push_text(&mut s, "consistent with");
                push_text(&mut s, " a file opened from external media (MITRE T1052.001 / T1091). The volume serial is the join key to a peripheral device connection");
            },
            LnkAnomaly::NetworkTarget { net_name } => {
                push_text(&mut s, "the link carries a network relative link");
                match net_name {
                    Some(n) => {
                        push_text(&mut s, " to ");
                        push_text(&mut s, n.as_str());
                    },
                    None => {},
                }
                push_text(&mut s, "; ");
                push_text(&mut s, "consistent with");
                push_text(&mut s, " a file opened from a network share (MITRE T1021)");
            },
            LnkAnomaly::TrackerMachine { machine_id } => {
                push_text(&mut s, "the tracker block records the origin machine ");
                let quoted = debug_quote(machine_id.as_str());
                push_text(&mut s, quoted.as_str());
                push_text(&mut s, "; ");
                push_text(&mut s, "consistent with");
                push_text(&mut s, " the link having been authored on that machine (attribution)");
            },
        }
        assert(s@ =~= lnk_note(self@));
        proof {
            if lnk_fields_quiet(self@) {
                lemma_lnk_note_quiet(self@);
            }
            match self@ {
                LnkAnomalyView::NetworkTarget { net_name: Some(n) } => lemma_network_note_names_share(n),
                LnkAnomalyView::TrackerMachine { machine_id } => {
                    if plain_text(machine_id) {
                        lemma_tracker_note_names_machine(machine_id);
                    }
                },
                _ => {},
            }
        }
        s
    }

    /// The graded finding this anomaly gives, stamped with `source`.
    pub fn to_finding(&self, source: Source) -> (r: Finding)
        ensures
            r@ == lnk_finding(self@, source@),
            lnk_fields_quiet(self@) ==> claims_no_verdict(r.note@),
    {
        Finding {
            severity: self.severity(),
            category: self.category(),
            code: self.code(),
            note: self.note(),
            source,
            mitre: self.mitre(),
        }
    }
}

// ── Auditing a Shell Link ───────────────────────────────────────────────────

/// Whether a `VolumeID` describes external/removable media: the explicit
/// `DRIVE_REMOVABLE` type. The serial does not decide it; it is surfaced as
/// the join key whatever the type.
pub open spec fn removable_volume(drive_type: u32) -> bool {
    drive_type == 2
}

/// The anomalies a Shell Link shows, in order: a removable-media target (a
/// `VolumeID` of removable type), a network target (a
/// `CommonNetworkRelativeLink`), and the tracker's origin machine (when its
/// name is non-empty).
pub open spec fn audit_of(link: ShellLinkView) -> Seq<LnkAnomalyView> {
    let removable = match link.link_info {
        Some(info) => match info.volume_id {
            Some(vol) => if removable_volume(vol.drive_type) {
                seq![LnkAnomalyView::RemovableMediaTarget {
                    drive_type: vol.drive_type,
                    drive_serial: vol.drive_serial_number,
                    path: info.local_base_path,
                }]
            } else {
                Seq::empty()
            },
            None => Seq::empty(),
        },
        None => Seq::empty(),
    };
    let network = match link.link_info {
        Some(info) => match info.common_network_relative_link {
            Some(net) => seq![LnkAnomalyView::NetworkTarget { net_name: net.net_name }],
            None => Seq::empty(),
        },
        None => Seq::empty(),
    };
    let tracker = match link.tracker {
        Some(t) => if t.machine_id.len() > 0 {
            seq![LnkAnomalyView::TrackerMachine { machine_id: t.machine_id }]
        } else {
            Seq::empty()
        },
        None => Seq::empty(),
    };
    removable + network + tracker
}

/// The views of a list of anomalies.
pub open spec fn anomaly_views(v: Seq<LnkAnomaly>) -> Seq<LnkAnomalyView> {
    v.map_values(|a: LnkAnomaly| a@)
}

/// The views of a list of findings.
pub open spec fn finding_views(v: Seq<Finding>) -> Seq<FindingView> {
    v.map_values(|f: Finding| f@)
}

/// The findings a list of Shell Link anomalies gives, stamped with `source`.
pub open spec fn lnk_findings(anomalies: Seq<LnkAnomalyView>, source: SourceView) -> Seq<FindingView> {
    anomalies.map_values(|a: LnkAnomalyView| lnk_finding(a, source))
}

fn clone_text(o: &Option<String>) -> (r: Option<String>)
    ensures
        opt_text(r) == opt_text(*o),
{
    match o {
        Some(s) => Some(s.clone()),
        None => None,
    }
}

/// Whether a `VolumeID` describes external/removable media.
///
/// A `DRIVE_REMOVABLE` drive type is the explicit signal; a non-zero serial
/// alone does not prove removability, so only the type decides. The serial is
/// always surfaced as the cross-artifact join key regardless of type.
fn is_removable_volume(drive_type: u32, _drive_serial: u32) -> (r: bool)
    ensures
        r == removable_volume(drive_type),
{
    drive_type == drive_type::REMOVABLE
}

/// Audit a [`ShellLink`] into a typed [`LnkAnomaly`] stream.
pub fn audit(link: &ShellLink) -> (r: Vec<LnkAnomaly>)
    ensures
        anomaly_views(r@) == audit_of(link@),
{
    let mut out: Vec<LnkAnomaly> = Vec::new();
    let ghost l = link@;
    match &link.link_info {
        Some(info) => {
            match &info.volume_id {
                Some(vol) => {
                    if is_removable_volume(vol.drive_type, vol.drive_serial_number) {
                        out.push(LnkAnomaly::RemovableMediaTarget {
                            drive_type: vol.drive_type,
                            drive_serial: vol.drive_serial_number,
                            path: clone_text(&info.local_base_path),
                        });
                    }
                },
                None => {},
            }
            match &info.common_network_relative_link {
                Some(net) => {
                    out.push(LnkAnomaly::NetworkTarget { net_name: clone_text(&net.net_name) });
                },
                None => {},
            }
        },
        None => {},
    }
    match &link.tracker {
        Some(tracker) => {
            if !tracker.machine_id.as_str().is_empty() {
                out.push(LnkAnomaly::TrackerMachine { machine_id: tracker.machine_id.clone() });
            }
        },
        None => {},
    }
    assert(anomaly_views(out@) =~= audit_of(l));
    out
}

/// Stamp each anomaly as a finding of `src`, appending to `out`.
fn push_lnk_findings(out: &mut Vec<Finding>, anomalies: &Vec<LnkAnomaly>, src: &Source)
    ensures
        finding_views(final(out)@) == finding_views(old(out)@) + lnk_findings(anomaly_views(anomalies@), src@),
{
    let mut i: usize = 0;
    while i < anomalies.len()
        invariant
            i <= anomalies@.len(),
            finding_views(out@) == finding_views(old(out)@) + lnk_findings(anomaly_views(anomalies@.take(i as int)), src@),
        decreases anomalies@.len() - i,
    {
        let f = anomalies[i].to_finding(src.duplicate());
        let ghost prev = out@;
        let ghost a = anomalies@[i as int];
        out.push(f);
        i = i + 1;
        assert(finding_views(out@) =~= finding_views(prev).push(lnk_finding(a@, src@)));
        assert(anomalies@.take(i as int) =~= anomalies@.take(i - 1).push(a));
        assert(anomaly_views(anomalies@.take(i as int)) =~= anomaly_views(anomalies@.take(i - 1)).push(a@));
        assert(lnk_findings(anomaly_views(anomalies@.take(i as int)), src@) =~= lnk_findings(anomaly_views(anomalies@.take(i - 1)), src@).push(lnk_finding(a@, src@)));
        assert(finding_views(out@) =~= finding_views(old(out)@) + lnk_findings(anomaly_views(anomalies@.take(i as int)), src@));
    }
    assert(anomalies@.take(i as int) =~= anomalies@);
}

/// Audit a Shell Link and convert directly to graded [`Finding`]s stamped
/// with the [`source`] of `scope`.
pub fn audit_findings(link: &ShellLink, scope: &str) -> (r: Vec<Finding>)
    ensures
        finding_views(r@) == lnk_findings(audit_of(link@), source_of(scope@)),
{
    let src = source(scope);
    let anomalies = audit(link);
    let mut out: Vec<Finding> = Vec::new();
    push_lnk_findings(&mut out, &anomalies, &src);
    assert(finding_views(out@) =~= lnk_findings(audit_of(link@), source_of(scope@)));
    out
}

// ── Jump List anomalies ─────────────────────────────────────────────────────

/// A graded Jump List anomaly, layered on top of the per-link [`LnkAnomaly`]
/// findings.
#[derive(Debug, Clone, PartialEq, Eq)]
pub enum JumpListAnomaly {
    /// A `DestList` entry is pinned — the user deliberately fixed this target
    /// to the application's Jump List.
    PinnedTarget {
        /// The pinned target path recorded in the `DestList`.
        path: String,
    },
    /// A `DestList` entry's origin hostname has no match to the acquisition host.
    CrossMachine {
        /// The origin hostname recorded in the `DestList`.
        hostname: String,
        /// The acquisition host the hostname was compared against.
        acquisition_host: String,
    },
    /// A `DestList` entry records MRU recency: a last-access time and an
    /// access count.
    MruRecency {
        /// The target path.
        path: String,
        /// Access count (Windows 10/11 `DestList`), when present.
        access_count: Option<u32>,
        /// Last-access time, Unix epoch seconds.
        last_access: i64,
    },
    /// The Jump List's `AppID` resolves to a known application.
    AppIdIdentified {
        /// The `AppID` (lowercase hex).
        app_id: String,
        /// The resolved application name.
        application: &'static str,
    },
}

/// The value a [`JumpListAnomaly`] stands for.
pub enum JumpListAnomalyView {
    PinnedTarget { path: Seq<char> },
    CrossMachine { hostname: Seq<char>, acquisition_host: Seq<char> },
    MruRecency { path: Seq<char>, access_count: Option<u32>, last_access: i64 },
    AppIdIdentified { app_id: Seq<char>, application: Seq<char> },
}

impl View for JumpListAnomaly {
    type V = JumpListAnomalyView;

    open spec fn view(&self) -> JumpListAnomalyView {
        match self {
            JumpListAnomaly::PinnedTarget { path } => JumpListAnomalyView::PinnedTarget { path: path@ },
            JumpListAnomaly::CrossMachine { hostname, acquisition_host } => JumpListAnomalyView::CrossMachine {
                hostname: hostname@,
                acquisition_host: acquisition_host@,
            },
            JumpListAnomaly::MruRecency { path, access_count, last_access } => JumpListAnomalyView::MruRecency {
                path: path@,
                access_count: *access_count,
                last_access: *last_access,
            },
            JumpListAnomaly::AppIdIdentified { app_id, application } => JumpListAnomalyView::AppIdIdentified {
                app_id: app_id@,
                application: application@,
            },
        }
    }
}

/// The published code of a Jump List anomaly.
pub open spec fn jumplist_code(a: JumpListAnomalyView) -> Seq<char> {
    match a {
        JumpListAnomalyView::PinnedTarget { .. } => "JUMPLIST-PINNED-TARGET"@,
        JumpListAnomalyView::CrossMachine { .. } => "JUMPLIST-CROSS-MACHINE"@,
        JumpListAnomalyView::MruRecency { .. } => "JUMPLIST-MRU-RECENCY"@,
        JumpListAnomalyView::AppIdIdentified { .. } => "JUMPLIST-APPID-IDENTIFIED"@,
    }
}

/// The severity of a Jump List anomaly.
pub open spec fn jumplist_severity(a: JumpListAnomalyView) -> Option<Severity> {
    match a {
        JumpListAnomalyView::PinnedTarget { .. } => Some(Severity::Low),
        JumpListAnomalyView::CrossMachine { .. } => Some(Severity::Low),
        JumpListAnomalyView::MruRecency { .. } => Some(Severity::Info),
        JumpListAnomalyView::AppIdIdentified { .. } => Some(Severity::Info),
    }
}

/// The category of a Jump List anomaly.
pub open spec fn jumplist_category(a: JumpListAnomalyView) -> Category {
    match a {
        JumpListAnomalyView::MruRecency { .. } => Category::History,
        _ => Category::Provenance,
    }
}

/// The access count as text, or `unknown`.
pub open spec fn count_text(c: Option<u32>) -> Seq<char> {
    match c {
        Some(n) => decimal_text(n as nat),
        None => "unknown"@,
    }
}

/// The note of a Jump List anomaly.
pub open spec fn jumplist_note(a: JumpListAnomalyView) -> Seq<char> {
    match a {
        JumpListAnomalyView::PinnedTarget { path } => {
            "the Jump List entry for "@ + debug_text(path) + " is pinned; "@ + hedge()
                + " the user having deliberately fixed this target to the application's Jump List"@
        },
        JumpListAnomalyView::CrossMachine { hostname, acquisition_host } => {
            "the Jump List entry records origin hostname "@ + debug_text(hostname)
                + ", which has no match to the acquisition host "@ + debug_text(acquisition_host) + "; "@
                + hedge()
                + " the target having been accessed from, or the artifact having originated on, a different machine"@
        },
        JumpListAnomalyView::MruRecency { path, access_count, last_access } => {
            "the Jump List records MRU recency for "@ + debug_text(path) + " (access count "@
                + count_text(access_count) + ", last access "@ + signed_decimal_text(last_access as int)
                + "); "@ + hedge() + " the application's own usage history for this target"@
        },
        JumpListAnomalyView::AppIdIdentified { app_id, application } => {
            "the Jump List AppID "@ + app_id + " is "@ + hedge() + " the application "@
                + debug_text(application)
        },
    }
}

/// The graded finding a Jump List anomaly gives, stamped with `source`.
pub open spec fn jumplist_finding(a: JumpListAnomalyView, source: SourceView) -> FindingView {
    FindingView {
        severity: jumplist_severity(a),
        category: jumplist_category(a),
        code: jumplist_code(a),
        note: jumplist_note(a),
        source,
        mitre: Seq::empty(),
    }
}

impl JumpListAnomaly {
    /// The stable, published anomaly code.
    pub fn code(&self) -> (r: &'static str)
        ensures
            r@ == jumplist_code(self@),
    {
        match self {
            JumpListAnomaly::PinnedTarget { .. } => "JUMPLIST-PINNED-TARGET",
            JumpListAnomaly::CrossMachine { .. } => "JUMPLIST-CROSS-MACHINE",
            JumpListAnomaly::MruRecency { .. } => "JUMPLIST-MRU-RECENCY",
            JumpListAnomaly::AppIdIdentified { .. } => "JUMPLIST-APPID-IDENTIFIED",
        }
    }

    /// The severity grade.
    pub fn severity(&self) -> (r: Option<Severity>)
        ensures
            r == jumplist_severity(self@),
    {
        match self {
            JumpListAnomaly::PinnedTarget { .. } | JumpListAnomaly::CrossMachine { .. } => Some(Severity::Low),
            JumpListAnomaly::MruRecency { .. } | JumpListAnomaly::AppIdIdentified { .. } => Some(Severity::Info),
        }
    }

    /// The evidence category.
    pub fn category(&self) -> (r: Category)
        ensures
            r == jumplist_category(self@),
    {
        match self {
            JumpListAnomaly::MruRecency { .. } => Category::History,
            JumpListAnomaly::PinnedTarget { .. }
            | JumpListAnomaly::CrossMachine { .. }
            | JumpListAnomaly::AppIdIdentified { .. } => Category::Provenance,
        }
    }

    /// The MITRE ATT&CK techniques the anomaly is consistent with (none).
    pub fn mitre(&self) -> (r: &'static [&'static str])
        ensures
            r@.len() == 0,
    {
        &[]
    }

    /// The hedged observation, in words. When no field it embeds uses a
    /// verdict word ("proves", "confirms", "definitely", in any case), neither
    /// does the note, `Debug` escapes included.
    pub fn note(&self) -> (r: String)
        ensures
            r@ == jumplist_note(self@),
            jumplist_fields_quiet(self@) ==> claims_no_verdict(r@),
    {
        let mut s = String::new();
        match self {
            JumpListAnomaly::PinnedTarget { path } => {
                push_text(&mut s, "the Jump List entry for ");
                let quoted = debug_quote(path.as_str());
                push_text(&mut s, quoted.as_str());
                push_text(&mut s, " is pinned; ");
                push_text(&mut s, "consistent with");
                push_text(&mut s, " the user having deliberately fixed this target to the application's Jump List");
            },
            JumpListAnomaly::CrossMachine { hostname, acquisition_host } => {
                push_text(&mut s, "the Jump List entry records origin hostname ");
                let quoted = debug_quote(hostname.as_str());
                push_text(&mut s, quoted.as_str());
                push_text(&mut s, ", which has no match to the acquisition host ");
                let quoted_host = debug_quote(acquisition_host.as_str());
                push_text(&mut s, quoted_host.as_str());
                push_text(&mut s, "; ");
                push_text(&mut s, "consistent with");
                push_text(&mut s, " the target having been accessed from, or the artifact having originated on, a different machine");
            },
            JumpListAnomaly::MruRecency { path, access_count, last_access } => {
                push_text(&mut s, "the Jump List records MRU recency for ");
                let quoted = debug_quote(path.as_str());
                push_text(&mut s, quoted.as_str());
                push_text(&mut s, " (access count ");
                match access_count {
                    Some(c) => push_decimal(&mut s, *c as u64),
                    None => push_text(&mut s, "unknown"),
                }
                push_text(&mut s, ", last access ");
                push_signed_decimal(&mut s, *last_access);
                push_text(&mut s, "); ");
                push_text(&mut s, "consistent with");
                push_text(&mut s, " the application's own usage history for this target");
            },
            JumpListAnomaly::AppIdIdentified { app_id, application } => {
                push_text(&mut s, "the Jump List AppID ");
                push_text(&mut s, app_id.as_str());
                push_text(&mut s, " is ");
                push_text(&mut s, "consistent with");
                push_text(&mut s, " the application ");
                let quoted = debug_quote(application);
                push_text(&mut s, quoted.as_str());
            },
        }
        assert(s@ =~= jumplist_note(self@));
        proof {
            if jumplist_fields_quiet(self@) {
                lemma_jumplist_note_quiet(self@);
            }
        }
        s
    }

    /// The graded finding this anomaly gives, stamped with `source`.
    pub fn to_finding(&self, source: Source) -> (r: Finding)
        ensures
            r@ == jumplist_finding(self@, source@),
            jumplist_fields_quiet(self@) ==> claims_no_verdict(r.note@),
    {
        let f = Finding {
            severity: self.severity(),
            category: self.category(),
            code: self.code(),
            note: self.note(),
            source,
            mitre: self.mitre(),
        };
        assert(texts(f.mitre@) =~= Seq::empty());
        f
    }
}

// ── Auditing a Jump List ────────────────────────────────────────────────────

/// Whether `a` and `b` match ignoring ASCII case.
pub open spec fn ascii_case_equal(a: Seq<char>, b: Seq<char>) -> bool {
    &&& a.len() == b.len()
    &&& forall|i: int| 0 <= i < a.len() ==> ascii_lower(#[trigger] a[i]) == ascii_lower(b[i])
}

/// The text of an optional string slice.
pub open spec fn opt_str(o: Option<&str>) -> Option<Seq<char>> {
    match o {
        Some(s) => Some(s@),
        None => None,
    }
}

/// The findings of the Jump List's `AppID`: one when it resolves to a known
/// application.
pub open spec fn app_id_findings(app_id: Option<Seq<char>>, source: SourceView) -> Seq<FindingView> {
    match app_id {
        Some(id) => match known_application(id) {
            Some(application) => seq![jumplist_finding(JumpListAnomalyView::AppIdIdentified { app_id: id, application }, source)],
            None => Seq::empty(),
        },
        None => Seq::empty(),
    }
}

/// The findings of one `DestList` record: pinned, then cross-machine (a
/// non-empty hostname that does not match the acquisition host, when one is
/// given), then MRU recency (an access count, or a last access after the epoch).
pub open spec fn destlist_findings(dl: DestListEntryView, host: Option<Seq<char>>, source: SourceView) -> Seq<FindingView> {
    let pinned = if dl.pinned {
        seq![jumplist_finding(JumpListAnomalyView::PinnedTarget { path: dl.path }, source)]
    } else {
        Seq::empty()
    };
    let cross = match host {
        Some(h) => if dl.hostname.len() > 0 && !ascii_case_equal(dl.hostname, h) {
            seq![jumplist_finding(JumpListAnomalyView::CrossMachine { hostname: dl.hostname, acquisition_host: h }, source)]
        } else {
            Seq::empty()
        },
        None => Seq::empty(),
    };
    let recency = if dl.access_count is Some || dl.last_access > 0 {
        seq![jumplist_finding(JumpListAnomalyView::MruRecency {
            path: dl.path,
            access_count: dl.access_count,
            last_access: dl.last_access,
        }, source)]
    } else {
        Seq::empty()
    };
    pinned + cross + recency
}

/// The findings of one Jump List entry: its link's audit, then its `DestList`
/// record's findings.
pub open spec fn entry_findings(e: JumpListEntryView, host: Option<Seq<char>>, source: SourceView) -> Seq<FindingView> {
    lnk_findings(audit_of(e.link), source) + match e.destlist {
        Some(dl) => destlist_findings(dl, host, source),
        None => Seq::empty(),
    }
}

/// The findings of a run of entries, in order.
pub open spec fn entries_findings(entries: Seq<JumpListEntryView>, host: Option<Seq<char>>, source: SourceView) -> Seq<FindingView>
    decreases entries.len(),
{
    if entries.len() == 0 {
        Seq::empty()
    } else {
        entries_findings(entries.drop_last(), host, source) + entry_findings(entries.last(), host, source)
    }
}

/// The findings of a Jump List: the `AppID`'s, then each entry's.
pub open spec fn jumplist_findings(jl: JumpListView, host: Option<Seq<char>>, source: SourceView) -> Seq<FindingView> {
    app_id_findings(jl.app_id, source) + entries_findings(jl.entries, host, source)
}

/// Whether two strings match ignoring ASCII case.
fn eq_ignore_ascii_case(a: &Vec<char>, b: &Vec<char>) -> (r: bool)
    ensures
        r == ascii_case_equal(a@, b@),
{
    if a.len() != b.len() {
        return false;
    }
    let mut i: usize = 0;
    while i < a.len()
        invariant
            a@.len() == b@.len(),
            i <= a@.len(),
            forall|k: int| 0 <= k < i ==> ascii_lower(#[trigger] a@[k]) == ascii_lower(b@[k]),
        decreases a@.len() - i,
    {
        if to_ascii_lower(a[i]) != to_ascii_lower(b[i]) {
            assert(ascii_lower(a@[i as int]) != ascii_lower(b@[i as int]));
            return false;
        }
        i = i + 1;
    }
    true
}

/// Stamp one Jump List anomaly as a finding of `src`, appending it to `out`.
fn push_jumplist_finding(out: &mut Vec<Finding>, a: JumpListAnomaly, src: &Source)
    ensures
        finding_views(final(out)@) == finding_views(old(out)@).push(jumplist_finding(a@, src@)),
{
    let f = a.to_finding(src.duplicate());
    out.push(f);
    assert(finding_views(out@) =~= finding_views(old(out)@).push(jumplist_finding(a@, src@)));
}

/// Append the findings of one `DestList` record.
fn push_destlist_findings(
    out: &mut Vec<Finding>,
    dl: &crate::jumplist::DestListEntry,
    host: Option<&str>,
    host_chars: &Option<Vec<char>>,
    src: &Source,
)
    requires
        match host {
            Some(h) => host_chars matches Some(c) && c@ == h@,
            None => host_chars is None,
        },
    ensures
        finding_views(final(out)@) == finding_views(old(out)@) + destlist_findings(dl@, opt_str(host), src@),
{
    let ghost start = finding_views(out@);
    if dl.pinned {
        push_jumplist_finding(out, JumpListAnomaly::PinnedTarget { path: dl.path.clone() }, src);
    }
    let ghost after_pinned = finding_views(out@);
    match host {
        Some(h) => {
            let hostname_chars = chars_of(dl.hostname.as_str());
            let same = match host_chars {
                Some(c) => eq_ignore_ascii_case(&hostname_chars, c),
                None => false,
            };
            if !dl.hostname.as_str().is_empty() && !same {
                push_jumplist_finding(out, JumpListAnomaly::CrossMachine {
                    hostname: dl.hostname.clone(),
                    acquisition_host: h.to_owned(),
                }, src);
            }
        },
        None => {},
    }
    let ghost after_cross = finding_views(out@);
    if dl.access_count.is_some() || dl.last_access > 0 {
        push_jumplist_finding(out, JumpListAnomaly::MruRecency {
            path: dl.path.clone(),
            access_count: dl.access_count,
            last_access: dl.last_access,
        }, src);
    }
    assert(finding_views(out@) =~= finding_views(old(out)@) + destlist_findings(dl@, opt_str(host), src@));
}

/// Audit a [`JumpList`] into graded [`Finding`]s.
///
/// Runs [`audit`] over every embedded shell link (so removable-media, network
/// and tracker findings come for free), then adds the Jump-List-level
/// findings: a resolved `AppID` (once, first), and per `DestList` record the
/// pinned target, the cross-machine origin hostname (compared against
/// `acquisition_host`; `None` skips that check) and the MRU recency.
pub fn audit_jumplist(jl: &JumpList, acquisition_host: Option<&str>, scope: &str) -> (r: Vec<Finding>)
    ensures
        finding_views(r@) == jumplist_findings(jl@, opt_str(acquisition_host), source_of(scope@)),
{
    let src = source(scope);
    let mut out: Vec<Finding> = Vec::new();

    // The AppID is a property of the whole list — emit it once.
    match &jl.app_id {
        Some(app_id) => match application_for(app_id.as_str()) {
            Some(application) => {
                push_jumplist_finding(&mut out, JumpListAnomaly::AppIdIdentified {
                    app_id: app_id.clone(),
                    application,
                }, &src);
            },
            None => {},
        },
        None => {},
    }
    let ghost head = finding_views(out@);
    assert(head =~= app_id_findings(jl@.app_id, src@));

    let host_chars = match acquisition_host {
        Some(h) => Some(chars_of(h)),
        None => None,
    };
    let ghost entries = jl@.entries;
    let mut i: usize = 0;
    assert(entries.take(0) =~= Seq::<JumpListEntryView>::empty());
    while i < jl.entries.len()
        invariant
            entries == jl@.entries,
            entries.len() == jl.entries@.len(),
            i <= entries.len(),
            src@ == source_of(scope@),
            match acquisition_host {
                Some(h) => host_chars matches Some(c) && c@ == h@,
                None => host_chars is None,
            },
            finding_views(out@) == head + entries_findings(entries.take(i as int), opt_str(acquisition_host), src@),
        decreases entries.len() - i,
    {
        let entry = &jl.entries[i];
        let ghost before = finding_views(out@);
        // Reuse the per-link audit — removable/network/tracker for free.
        let anomalies = audit(&entry.link);
        push_lnk_findings(&mut out, &anomalies, &src);
        match &entry.destlist {
            Some(dl) => push_destlist_findings(&mut out, dl, acquisition_host, &host_chars, &src),
            None => {},
        }
        assert(entries[i as int] == entry@);
        assert(entries.take(i + 1).drop_last() =~= entries.take(i as int));
        assert(finding_views(out@) =~= before + entry_findings(entries[i as int], opt_str(acquisition_host), src@));
        i = i + 1;
    }
    assert(entries.take(i as int) =~= entries);
    out
}

} // verus!

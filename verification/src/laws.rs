//! Properties of the library as a whole, stated over the specifications its
//! functions are proved against.
use vstd::prelude::*;

use crate::audit::{
    audit_of, contains_text, entries_findings, entry_findings, hedge, jumplist_findings,
    jumplist_note, lnk_code, lnk_findings, lnk_note, source_of, FindingView, JumpListAnomalyView,
    LnkAnomalyView, SourceView, app_id_findings, ascii_case_equal, destlist_findings,
    jumplist_finding,
};
use crate::bytes::{div_toward_zero, filetime_unix, wrap_i64, FILETIME_UNIX_DELTA_100NS};
use crate::bytes::le_u32_at;
use crate::jumplist::{
    after_last, app_id_of, ascii_lower, automatic_entries, automatic_list_of, before_first,
    custom_entries, custom_list_of, destlist_entries, entry_starts_from, guid_wire_of, hex_pair,
    hex_value, is_hex_char, strip_dashes,
    record_stream, DestListEntryView, JumpListEntryView, JumpListView,
};
use crate::deps::compound_stream;
use crate::shell_link::{shell_link_of, valid_header, ShellLinkView};
use crate::text::{guid_text, hex_byte_upper, hex_digit_upper};

verus! {

/// A FILETIME of zero, the "not set" sentinel, maps to Unix time 0.
pub proof fn law_zero_filetime_is_epoch()
    ensures
        filetime_unix(0) == 0,
{
}

/// Converting back: the FILETIME of a Unix time `t` (whole seconds, counted
/// in 100-ns ticks from 1601) maps to `t` again, whenever that FILETIME is a
/// positive signed 64-bit value.
pub proof fn law_filetime_round_trip(t: int)
    requires
        0 < t * 10_000_000 + FILETIME_UNIX_DELTA_100NS <= i64::MAX,
    ensures
        filetime_unix((t * 10_000_000 + FILETIME_UNIX_DELTA_100NS) as u64) == t,
{
    let ft = t * 10_000_000 + FILETIME_UNIX_DELTA_100NS;
    assert(ft < 0x8000_0000_0000_0000);
    assert(wrap_i64(ft - FILETIME_UNIX_DELTA_100NS) == t * 10_000_000);
    if t >= 0 {
        assert((t * 10_000_000) / 10_000_000 == t) by (nonlinear_arith);
    } else {
        assert((-(t * 10_000_000)) / 10_000_000 == -t) by (nonlinear_arith);
    }
    assert(div_toward_zero(t * 10_000_000, 10_000_000) == t);
}

proof fn lemma_hedge_in_middle(a: Seq<char>, b: Seq<char>)
    ensures
        contains_text(a + hedge() + b, hedge()),
{
    let s = a + hedge() + b;
    assert(s.subrange(a.len() as int, a.len() + hedge().len() as int) =~= hedge());
}

/// Every Shell Link anomaly's note is a hedged observation: it says
/// "consistent with".
pub proof fn law_lnk_note_hedged(a: LnkAnomalyView)
    ensures
        contains_text(lnk_note(a), hedge()),
{
    match a {
        LnkAnomalyView::RemovableMediaTarget { drive_type, drive_serial, path } => {
            let n = lnk_note(a);
            let tail = " a file opened from external media (MITRE T1052.001 / T1091). The volume serial is the join key to a peripheral device connection"@;
            let head = n.subrange(0, n.len() - tail.len() - hedge().len());
            assert(n =~= head + hedge() + tail);
            lemma_hedge_in_middle(head, tail);
        },
        LnkAnomalyView::NetworkTarget { net_name } => {
            let n = lnk_note(a);
            let tail = " a file opened from a network share (MITRE T1021)"@;
            let head = n.subrange(0, n.len() - tail.len() - hedge().len());
            assert(n =~= head + hedge() + tail);
            lemma_hedge_in_middle(head, tail);
        },
        LnkAnomalyView::TrackerMachine { machine_id } => {
            let n = lnk_note(a);
            let tail = " the link having been authored on that machine (attribution)"@;
            let head = n.subrange(0, n.len() - tail.len() - hedge().len());
            assert(n =~= head + hedge() + tail);
            lemma_hedge_in_middle(head, tail);
        },
    }
}

/// Every Jump List anomaly's note is a hedged observation: it says
/// "consistent with".
pub proof fn law_jumplist_note_hedged(a: JumpListAnomalyView)
    ensures
        contains_text(jumplist_note(a), hedge()),
{
    let n = jumplist_note(a);
    let tail = match a {
        JumpListAnomalyView::PinnedTarget { .. } => " the user having deliberately fixed this target to the application's Jump List"@,
        JumpListAnomalyView::CrossMachine { .. } => " the target having been accessed from, or the artifact having originated on, a different machine"@,
        JumpListAnomalyView::MruRecency { .. } => " the application's own usage history for this target"@,
        JumpListAnomalyView::AppIdIdentified { application, .. } => " the application "@ + crate::deps::debug_text(application),
    };
    let head = n.subrange(0, n.len() - tail.len() - hedge().len());
    assert(n =~= head + hedge() + tail);
    lemma_hedge_in_middle(head, tail);
}

/// Whether every finding's note says "consistent with".
pub open spec fn all_hedged(findings: Seq<FindingView>) -> bool {
    forall|i: int| 0 <= i < findings.len() ==> contains_text(#[trigger] findings[i].note, hedge())
}

proof fn lemma_hedged_concat(a: Seq<FindingView>, b: Seq<FindingView>)
    requires
        all_hedged(a),
        all_hedged(b),
    ensures
        all_hedged(a + b),
{
    let c = a + b;
    assert forall|i: int| 0 <= i < c.len() implies contains_text(#[trigger] c[i].note, hedge()) by {
        if i < a.len() {
            assert(c[i] == a[i]);
        } else {
            assert(c[i] == b[i - a.len()]);
        }
    }
}

/// Every finding that auditing a Shell Link gives is a hedged observation.
pub proof fn law_link_findings_hedged(link: ShellLinkView, source: SourceView)
    ensures
        all_hedged(lnk_findings(audit_of(link), source)),
{
    let f = lnk_findings(audit_of(link), source);
    assert forall|i: int| 0 <= i < f.len() implies contains_text(#[trigger] f[i].note, hedge()) by {
        law_lnk_note_hedged(audit_of(link)[i]);
    }
}

proof fn lemma_destlist_findings_hedged(dl: crate::jumplist::DestListEntryView, host: Option<Seq<char>>, source: SourceView)
    ensures
        all_hedged(destlist_findings(dl, host, source)),
{
    let f = destlist_findings(dl, host, source);
    assert forall|i: int| 0 <= i < f.len() implies contains_text(#[trigger] f[i].note, hedge()) by {
        let pinned = JumpListAnomalyView::PinnedTarget { path: dl.path };
        let recency = JumpListAnomalyView::MruRecency { path: dl.path, access_count: dl.access_count, last_access: dl.last_access };
        law_jumplist_note_hedged(pinned);
        law_jumplist_note_hedged(recency);
        match host {
            Some(h) => {
                law_jumplist_note_hedged(JumpListAnomalyView::CrossMachine { hostname: dl.hostname, acquisition_host: h });
            },
            None => {},
        }
    }
}

proof fn lemma_entries_findings_hedged(entries: Seq<JumpListEntryView>, host: Option<Seq<char>>, source: SourceView)
    ensures
        all_hedged(entries_findings(entries, host, source)),
    decreases entries.len(),
{
    if entries.len() > 0 {
        lemma_entries_findings_hedged(entries.drop_last(), host, source);
        let e = entries.last();
        law_link_findings_hedged(e.link, source);
        match e.destlist {
            Some(dl) => lemma_destlist_findings_hedged(dl, host, source),
            None => {},
        }
        let tail = match e.destlist {
            Some(dl) => destlist_findings(dl, host, source),
            None => Seq::empty(),
        };
        lemma_hedged_concat(lnk_findings(audit_of(e.link), source), tail);
        lemma_hedged_concat(entries_findings(entries.drop_last(), host, source), entry_findings(e, host, source));
    }
}

/// Every finding that auditing a Jump List gives is a hedged observation.
pub proof fn law_jumplist_findings_hedged(jl: JumpListView, host: Option<Seq<char>>, source: SourceView)
    ensures
        all_hedged(jumplist_findings(jl, host, source)),
{
    let head = app_id_findings(jl.app_id, source);
    assert forall|i: int| 0 <= i < head.len() implies contains_text(#[trigger] head[i].note, hedge()) by {
        match jl.app_id {
            Some(id) => match crate::deps::known_application(id) {
                Some(application) => law_jumplist_note_hedged(JumpListAnomalyView::AppIdIdentified { app_id: id, application }),
                None => {},
            },
            None => {},
        }
    }
    lemma_entries_findings_hedged(jl.entries, host, source);
    lemma_hedged_concat(head, entries_findings(jl.entries, host, source));
}

/// Whether `p` holds of every finding.
pub open spec fn all_findings(findings: Seq<FindingView>, p: spec_fn(FindingView) -> bool) -> bool {
    forall|i: int| 0 <= i < findings.len() ==> p(#[trigger] findings[i])
}

proof fn lemma_all_concat(a: Seq<FindingView>, b: Seq<FindingView>, p: spec_fn(FindingView) -> bool)
    requires
        all_findings(a, p),
        all_findings(b, p),
    ensures
        all_findings(a + b, p),
{
    let c = a + b;
    assert forall|i: int| 0 <= i < c.len() implies p(#[trigger] c[i]) by {
        if i < a.len() {
            assert(c[i] == a[i]);
        } else {
            assert(c[i] == b[i - a.len()]);
        }
    }
}

/// A property of every entry-level finding — those of each link's audit and
/// of each `DestList` record — holds of all the findings of a run of entries.
proof fn lemma_entries_all(
    entries: Seq<JumpListEntryView>,
    host: Option<Seq<char>>,
    source: SourceView,
    p: spec_fn(FindingView) -> bool,
)
    requires
        forall|link: ShellLinkView| all_findings(#[trigger] lnk_findings(audit_of(link), source), p),
        forall|dl: DestListEntryView| all_findings(#[trigger] destlist_findings(dl, host, source), p),
    ensures
        all_findings(entries_findings(entries, host, source), p),
    decreases entries.len(),
{
    if entries.len() > 0 {
        lemma_entries_all(entries.drop_last(), host, source, p);
        let e = entries.last();
        assert(all_findings(lnk_findings(audit_of(e.link), source), p));
        let tail = match e.destlist {
            Some(dl) => destlist_findings(dl, host, source),
            None => Seq::empty(),
        };
        if let Some(dl) = e.destlist {
            assert(all_findings(destlist_findings(dl, host, source), p));
        }
        lemma_all_concat(lnk_findings(audit_of(e.link), source), tail, p);
        lemma_all_concat(entries_findings(entries.drop_last(), host, source), entry_findings(e, host, source), p);
    }
}

/// Every finding a Shell Link audit gives is stamped with the source it was
/// given.
pub proof fn law_link_findings_carry_source(link: ShellLinkView, source: SourceView)
    ensures
        all_findings(lnk_findings(audit_of(link), source), |f: FindingView| f.source == source),
{
}

/// Every finding a Jump List audit gives is stamped with the source it was
/// given.
pub proof fn law_jumplist_findings_carry_source(jl: JumpListView, host: Option<Seq<char>>, source: SourceView)
    ensures
        all_findings(jumplist_findings(jl, host, source), |f: FindingView| f.source == source),
{
    let p = |f: FindingView| f.source == source;
    assert forall|dl: DestListEntryView| all_findings(#[trigger] destlist_findings(dl, host, source), p) by {}
    lemma_entries_all(jl.entries, host, source, p);
    lemma_all_concat(app_id_findings(jl.app_id, source), entries_findings(jl.entries, host, source), p);
}

/// The stable codes of the anomalies are pairwise distinct where it matters:
/// no other code is the cross-machine or the `AppID` code.
proof fn lemma_codes_distinct()
    ensures
        forall|a: LnkAnomalyView| #[trigger] lnk_code(a) != "JUMPLIST-CROSS-MACHINE"@ && lnk_code(a) != "JUMPLIST-APPID-IDENTIFIED"@,
        "JUMPLIST-PINNED-TARGET"@ != "JUMPLIST-CROSS-MACHINE"@,
        "JUMPLIST-MRU-RECENCY"@ != "JUMPLIST-CROSS-MACHINE"@,
        "JUMPLIST-APPID-IDENTIFIED"@ != "JUMPLIST-CROSS-MACHINE"@,
        "JUMPLIST-PINNED-TARGET"@ != "JUMPLIST-APPID-IDENTIFIED"@,
        "JUMPLIST-MRU-RECENCY"@ != "JUMPLIST-APPID-IDENTIFIED"@,
{
    reveal_strlit("LNK-REMOVABLE-MEDIA-TARGET");
    reveal_strlit("LNK-NETWORK-TARGET");
    reveal_strlit("LNK-TRACKER-MACHINE");
    reveal_strlit("JUMPLIST-PINNED-TARGET");
    reveal_strlit("JUMPLIST-CROSS-MACHINE");
    reveal_strlit("JUMPLIST-MRU-RECENCY");
    reveal_strlit("JUMPLIST-APPID-IDENTIFIED");
    assert("JUMPLIST-PINNED-TARGET"@[9] != "JUMPLIST-CROSS-MACHINE"@[9]);
    assert("LNK-REMOVABLE-MEDIA-TARGET"@.len() == 26);
    assert("LNK-NETWORK-TARGET"@.len() == 18);
    assert("LNK-TRACKER-MACHINE"@.len() == 19);
    assert("JUMPLIST-CROSS-MACHINE"@.len() == 22);
    assert("JUMPLIST-MRU-RECENCY"@.len() == 20);
    assert("JUMPLIST-APPID-IDENTIFIED"@.len() == 25);
    assert forall|a: LnkAnomalyView| #[trigger] lnk_code(a) != "JUMPLIST-CROSS-MACHINE"@ && lnk_code(a) != "JUMPLIST-APPID-IDENTIFIED"@ by {
        match a {
            LnkAnomalyView::RemovableMediaTarget { .. } => {},
            LnkAnomalyView::NetworkTarget { .. } => {},
            LnkAnomalyView::TrackerMachine { .. } => {},
        }
    }
}

/// With no acquisition host the cross-machine comparison is skipped: no
/// finding of the Jump List audit carries the `JUMPLIST-CROSS-MACHINE` code.
pub proof fn law_no_host_no_cross_machine(jl: JumpListView, source: SourceView)
    ensures
        all_findings(jumplist_findings(jl, None, source), |f: FindingView| f.code != "JUMPLIST-CROSS-MACHINE"@),
{
    let p = |f: FindingView| f.code != "JUMPLIST-CROSS-MACHINE"@;
    lemma_codes_distinct();
    assert forall|link: ShellLinkView| all_findings(#[trigger] lnk_findings(audit_of(link), source), p) by {
        let f = lnk_findings(audit_of(link), source);
        assert forall|i: int| 0 <= i < f.len() implies p(#[trigger] f[i]) by {
            assert(f[i].code == lnk_code(audit_of(link)[i]));
        }
    }
    assert forall|dl: DestListEntryView| all_findings(#[trigger] destlist_findings(dl, None, source), p) by {}
    lemma_entries_all(jl.entries, None, source, p);
    lemma_all_concat(app_id_findings(jl.app_id, source), entries_findings(jl.entries, None, source), p);
}

/// Whether a finding is not a cross-machine finding.
pub open spec fn not_cross_machine() -> spec_fn(FindingView) -> bool {
    |f: FindingView| f.code != "JUMPLIST-CROSS-MACHINE"@
}

proof fn lemma_filter_keeps_all(x: Seq<FindingView>, p: spec_fn(FindingView) -> bool)
    requires
        all_findings(x, p),
    ensures
        x.filter(p) == x,
    decreases x.len(),
{
    reveal(Seq::filter);
    if x.len() > 0 {
        assert(all_findings(x.drop_last(), p)) by {
            assert forall|i: int| 0 <= i < x.drop_last().len() implies p(#[trigger] x.drop_last()[i]) by {
                assert(x.drop_last()[i] == x[i]);
            }
        }
        lemma_filter_keeps_all(x.drop_last(), p);
        assert(p(x[x.len() - 1]));
        assert(x.drop_last().push(x.last()) =~= x);
    }
}

proof fn lemma_link_findings_not_cross(link: ShellLinkView, source: SourceView)
    ensures
        all_findings(lnk_findings(audit_of(link), source), not_cross_machine()),
{
    lemma_codes_distinct();
    let f = lnk_findings(audit_of(link), source);
    assert forall|i: int| 0 <= i < f.len() implies not_cross_machine()(#[trigger] f[i]) by {
        assert(f[i].code == lnk_code(audit_of(link)[i]));
    }
}

proof fn lemma_destlist_without_host(dl: DestListEntryView, h: Seq<char>, source: SourceView)
    ensures
        destlist_findings(dl, None, source) == destlist_findings(dl, Some(h), source).filter(not_cross_machine()),
{
    let p = not_cross_machine();
    lemma_codes_distinct();
    reveal_with_fuel(Seq::filter, 2);
    let pinned = if dl.pinned {
        seq![jumplist_finding(JumpListAnomalyView::PinnedTarget { path: dl.path }, source)]
    } else {
        Seq::empty()
    };
    let cross = if dl.hostname.len() > 0 && !ascii_case_equal(dl.hostname, h) {
        seq![jumplist_finding(JumpListAnomalyView::CrossMachine { hostname: dl.hostname, acquisition_host: h }, source)]
    } else {
        Seq::empty()
    };
    let recency = if dl.access_count is Some || dl.last_access > 0 {
        seq![jumplist_finding(JumpListAnomalyView::MruRecency {
            path: dl.path,
            access_count: dl.access_count,
            last_access: dl.last_access,
        }, source)]
    } else {
        Seq::empty()
    };
    assert(destlist_findings(dl, Some(h), source) == pinned + cross + recency);
    assert(destlist_findings(dl, None, source) =~= pinned + recency);
    Seq::filter_distributes_over_add(pinned + cross, recency, p);
    Seq::filter_distributes_over_add(pinned, cross, p);
    assert(pinned.filter(p) == pinned);
    assert(cross.filter(p) =~= Seq::<FindingView>::empty());
    assert(recency.filter(p) == recency);
    assert(pinned + Seq::<FindingView>::empty() =~= pinned);
}

proof fn lemma_entries_without_host(entries: Seq<JumpListEntryView>, h: Seq<char>, source: SourceView)
    ensures
        entries_findings(entries, None, source) == entries_findings(entries, Some(h), source).filter(not_cross_machine()),
    decreases entries.len(),
{
    let p = not_cross_machine();
    if entries.len() == 0 {
        reveal(Seq::filter);
    } else {
        lemma_entries_without_host(entries.drop_last(), h, source);
        let e = entries.last();
        let links = lnk_findings(audit_of(e.link), source);
        lemma_link_findings_not_cross(e.link, source);
        lemma_filter_keeps_all(links, p);
        let tail_host = match e.destlist {
            Some(dl) => destlist_findings(dl, Some(h), source),
            None => Seq::empty(),
        };
        if let Some(dl) = e.destlist {
            lemma_destlist_without_host(dl, h, source);
        } else {
            reveal(Seq::filter);
            assert(tail_host.filter(p) == tail_host);
        }
        Seq::filter_distributes_over_add(links, tail_host, p);
        Seq::filter_distributes_over_add(entries_findings(entries.drop_last(), Some(h), source), entry_findings(e, Some(h), source), p);
    }
}

/// Passing no acquisition host skips exactly the cross-machine comparison:
/// the audit is then the audit with a host, its cross-machine findings
/// removed and the rest kept in order.
pub proof fn law_no_host_is_hosted_without_cross_machine(jl: JumpListView, h: Seq<char>, source: SourceView)
    ensures
        jumplist_findings(jl, None, source) == jumplist_findings(jl, Some(h), source).filter(not_cross_machine()),
{
    let p = not_cross_machine();
    lemma_codes_distinct();
    let head = app_id_findings(jl.app_id, source);
    assert(all_findings(head, p));
    lemma_filter_keeps_all(head, p);
    lemma_entries_without_host(jl.entries, h, source);
    Seq::filter_distributes_over_add(head, entries_findings(jl.entries, Some(h), source), p);
}

/// The `AppID` is a property of the whole list: its finding comes at most
/// once, and only as the first finding of a Jump List audit.
pub proof fn law_app_id_finding_first_and_once(jl: JumpListView, host: Option<Seq<char>>, source: SourceView)
    ensures
        forall|i: int| 0 <= i < jumplist_findings(jl, host, source).len()
            && (#[trigger] jumplist_findings(jl, host, source)[i]).code == "JUMPLIST-APPID-IDENTIFIED"@ ==> i == 0,
{
    let p = |f: FindingView| f.code != "JUMPLIST-APPID-IDENTIFIED"@;
    lemma_codes_distinct();
    assert forall|link: ShellLinkView| all_findings(#[trigger] lnk_findings(audit_of(link), source), p) by {
        let f = lnk_findings(audit_of(link), source);
        assert forall|i: int| 0 <= i < f.len() implies p(#[trigger] f[i]) by {
            assert(f[i].code == lnk_code(audit_of(link)[i]));
        }
    }
    assert forall|dl: DestListEntryView| all_findings(#[trigger] destlist_findings(dl, host, source), p) by {}
    lemma_entries_all(jl.entries, host, source, p);
    let head = app_id_findings(jl.app_id, source);
    let rest = entries_findings(jl.entries, host, source);
    let all = jumplist_findings(jl, host, source);
    assert(head.len() <= 1);
    assert forall|i: int| 0 <= i < all.len() && (#[trigger] all[i]).code == "JUMPLIST-APPID-IDENTIFIED"@ implies i == 0 by {
        if i >= head.len() {
            assert(all[i] == rest[i - head.len()]);
            assert(p(rest[i - head.len()]));
        }
    }
}

/// Whether `part` occurs as a contiguous run of `whole`.
pub open spec fn contains_run(whole: Seq<FindingView>, part: Seq<FindingView>) -> bool {
    exists|off: int| 0 <= off && off + part.len() <= whole.len() && #[trigger] whole.subrange(off, off + part.len()) == part
}

proof fn lemma_run_in_prefix(a: Seq<FindingView>, b: Seq<FindingView>, part: Seq<FindingView>)
    requires
        contains_run(a, part),
    ensures
        contains_run(a + b, part),
{
    let off = choose|off: int| 0 <= off && off + part.len() <= a.len() && #[trigger] a.subrange(off, off + part.len()) == part;
    assert((a + b).subrange(off, off + part.len()) =~= a.subrange(off, off + part.len()));
}

proof fn lemma_run_in_suffix(a: Seq<FindingView>, b: Seq<FindingView>, part: Seq<FindingView>)
    requires
        contains_run(b, part),
    ensures
        contains_run(a + b, part),
{
    let off = choose|off: int| 0 <= off && off + part.len() <= b.len() && #[trigger] b.subrange(off, off + part.len()) == part;
    assert((a + b).subrange(a.len() + off, a.len() + off + part.len()) =~= b.subrange(off, off + part.len()));
}

proof fn lemma_run_at_start(a: Seq<FindingView>, b: Seq<FindingView>)
    ensures
        contains_run(a + b, a),
{
    let off: int = 0;
    assert((a + b).subrange(off, off + a.len()) =~= a);
}

proof fn lemma_entries_include_links(entries: Seq<JumpListEntryView>, host: Option<Seq<char>>, source: SourceView, k: int)
    requires
        0 <= k < entries.len(),
    ensures
        contains_run(entries_findings(entries, host, source), lnk_findings(audit_of(entries[k].link), source)),
    decreases entries.len(),
{
    let init = entries.drop_last();
    let e = entries.last();
    let tail = match e.destlist {
        Some(dl) => destlist_findings(dl, host, source),
        None => Seq::empty(),
    };
    if k == entries.len() - 1 {
        lemma_run_at_start(lnk_findings(audit_of(e.link), source), tail);
        lemma_run_in_suffix(entries_findings(init, host, source), entry_findings(e, host, source), lnk_findings(audit_of(e.link), source));
    } else {
        lemma_entries_include_links(init, host, source, k);
        assert(init[k] == entries[k]);
        lemma_run_in_prefix(entries_findings(init, host, source), entry_findings(e, host, source), lnk_findings(audit_of(entries[k].link), source));
    }
}

/// Auditing a Jump List reuses the Shell Link audit: the findings of every
/// embedded link appear, in order and together, among the Jump List's.
pub proof fn law_jumplist_audit_includes_link_audit(
    jl: JumpListView,
    host: Option<Seq<char>>,
    source: SourceView,
    k: int,
)
    requires
        0 <= k < jl.entries.len(),
    ensures
        contains_run(jumplist_findings(jl, host, source), lnk_findings(audit_of(jl.entries[k].link), source)),
{
    lemma_entries_include_links(jl.entries, host, source, k);
    lemma_run_in_suffix(app_id_findings(jl.app_id, source), entries_findings(jl.entries, host, source), lnk_findings(audit_of(jl.entries[k].link), source));
}

/// The removable-media anomaly fires exactly when the link's `VolumeID` has
/// the `DRIVE_REMOVABLE` type, and it carries that volume's serial number —
/// the join key — whatever else the link holds.
pub proof fn law_removable_iff_removable_drive(link: ShellLinkView)
    ensures
        (audit_of(link).len() > 0 && audit_of(link)[0] is RemovableMediaTarget) <==> (match link.link_info {
            Some(info) => info.volume_id matches Some(v) && v.drive_type == crate::drive_type::REMOVABLE,
            None => false,
        }),
        forall|i: int| 0 <= i < audit_of(link).len() && (#[trigger] audit_of(link)[i]) is RemovableMediaTarget ==> {
            &&& i == 0
            &&& link.link_info matches Some(info)
            &&& info.volume_id matches Some(v)
            &&& audit_of(link)[i] == (LnkAnomalyView::RemovableMediaTarget {
                drive_type: v.drive_type,
                drive_serial: v.drive_serial_number,
                path: info.local_base_path,
            })
        },
{
}

/// Only the header decides whether a Shell Link parses: whatever bytes follow
/// a valid `ShellLinkHeader` — truncated, garbled or hostile — the parse still
/// succeeds, with the damage confined to absent sub-structures.
pub proof fn law_body_never_rejects_link(header: Seq<u8>, body: Seq<u8>)
    requires
        valid_header(header),
    ensures
        valid_header(header + body),
        shell_link_of(header + body) is Some,
{
    let d = header + body;
    assert(d.subrange(4, 20) =~= header.subrange(4, 20));
    assert(le_u32_at(d, 0) == le_u32_at(header, 0));
    reveal(shell_link_of);
}

/// The GUID text of 16 bytes is in the canonical 8-4-4-4-12 shape: 36
/// characters with dashes at 8, 13, 18 and 23.
pub proof fn law_guid_text_shape(g: Seq<u8>)
    requires
        g.len() >= 16,
    ensures
        guid_text(g).len() == 36,
        guid_text(g)[8] == '-' && guid_text(g)[13] == '-' && guid_text(g)[18] == '-' && guid_text(g)[23] == '-',
{
}

proof fn lemma_strip_concat(a: Seq<char>, b: Seq<char>)
    ensures
        strip_dashes(a + b) == strip_dashes(a) + strip_dashes(b),
    decreases b.len(),
{
    reveal(strip_dashes);
    if b.len() == 0 {
        assert(a + b =~= a);
        assert(strip_dashes(a) + strip_dashes(b) =~= strip_dashes(a));
    } else {
        assert((a + b).drop_last() =~= a + b.drop_last());
        assert((a + b).last() == b.last());
        lemma_strip_concat(a, b.drop_last());
        if b.last() != '-' {
            assert(strip_dashes(a) + strip_dashes(b.drop_last()).push(b.last())
                =~= (strip_dashes(a) + strip_dashes(b.drop_last())).push(b.last()));
        }
    }
}

proof fn lemma_strip_dashless(t: Seq<char>)
    requires
        forall|i: int| 0 <= i < t.len() ==> #[trigger] t[i] != '-',
    ensures
        strip_dashes(t) == t,
    decreases t.len(),
{
    reveal(strip_dashes);
    if t.len() > 0 {
        lemma_strip_dashless(t.drop_last());
        assert(t.drop_last().push(t.last()) =~= t);
    }
}

proof fn lemma_hex_digit_value(d: int)
    requires
        0 <= d < 16,
    ensures
        hex_value(hex_digit_upper(d)) == d,
        hex_digit_upper(d) != '-',
{
}

/// The upper-case hexadecimal text of the bytes `w`, two digits each.
#[verifier::opaque]
spec fn hex_run(w: Seq<u8>) -> Seq<char> {
    Seq::new(2 * w.len(), |k: int| if k % 2 == 0 { hex_digit_upper(w[k / 2] as int / 16) } else { hex_digit_upper(w[k / 2] as int % 16) })
}

/// The wire-order bytes whose hexadecimal run a GUID's text shows.
spec fn guid_wire_order(g: Seq<u8>) -> Seq<u8> {
    seq![g[3], g[2], g[1], g[0], g[5], g[4], g[7], g[6], g[8], g[9], g[10], g[11], g[12], g[13], g[14], g[15]]
}

proof fn lemma_hex_byte_dashless(b: u8)
    ensures
        strip_dashes(hex_byte_upper(b)) == hex_byte_upper(b),
{
    lemma_hex_digit_value(b as int / 16);
    lemma_hex_digit_value(b as int % 16);
    lemma_strip_dashless(hex_byte_upper(b));
}

#[verifier::spinoff_prover]
#[verifier::rlimit(50)]
proof fn lemma_guid_text_stripped(g: Seq<u8>)
    requires
        g.len() >= 16,
    ensures
        strip_dashes(guid_text(g)) == hex_run(guid_wire_order(g)),
{
    let dash = seq!['-'];
    assert(strip_dashes(dash) =~= Seq::<char>::empty()) by {
        reveal_with_fuel(strip_dashes, 2);
        assert(dash.drop_last() =~= Seq::<char>::empty());
    }
    assert forall|b: u8| #[trigger] strip_dashes(hex_byte_upper(b)) == hex_byte_upper(b) by {
        lemma_hex_byte_dashless(b);
    }
    let p0 = hex_byte_upper(g[3]);
    let q0 = hex_byte_upper(g[3]);
    assert(strip_dashes(p0) == q0);
    let p1 = p0 + hex_byte_upper(g[2]);
    let q1 = q0 + hex_byte_upper(g[2]);
    assert(strip_dashes(p1) == q1) by {
        lemma_strip_concat(p0, hex_byte_upper(g[2]));
    }
    let p2 = p1 + hex_byte_upper(g[1]);
    let q2 = q1 + hex_byte_upper(g[1]);
    assert(strip_dashes(p2) == q2) by {
        lemma_strip_concat(p1, hex_byte_upper(g[1]));
    }
    let p3 = p2 + hex_byte_upper(g[0]);
    let q3 = q2 + hex_byte_upper(g[0]);
    assert(strip_dashes(p3) == q3) by {
        lemma_strip_concat(p2, hex_byte_upper(g[0]));
    }
    let p4 = p3 + dash;
    let q4 = q3;
    assert(strip_dashes(p4) == q4) by {
        lemma_strip_concat(p3, dash);
        assert(q3 + Seq::<char>::empty() =~= q3);
    }
    let p5 = p4 + hex_byte_upper(g[5]);
    let q5 = q4 + hex_byte_upper(g[5]);
    assert(strip_dashes(p5) == q5) by {
        lemma_strip_concat(p4, hex_byte_upper(g[5]));
    }
    let p6 = p5 + hex_byte_upper(g[4]);
    let q6 = q5 + hex_byte_upper(g[4]);
    assert(strip_dashes(p6) == q6) by {
        lemma_strip_concat(p5, hex_byte_upper(g[4]));
    }
    let p7 = p6 + dash;
    let q7 = q6;
    assert(strip_dashes(p7) == q7) by {
        lemma_strip_concat(p6, dash);
        assert(q6 + Seq::<char>::empty() =~= q6);
    }
    let p8 = p7 + hex_byte_upper(g[7]);
    let q8 = q7 + hex_byte_upper(g[7]);
    assert(strip_dashes(p8) == q8) by {
        lemma_strip_concat(p7, hex_byte_upper(g[7]));
    }
    let p9 = p8 + hex_byte_upper(g[6]);
    let q9 = q8 + hex_byte_upper(g[6]);
    assert(strip_dashes(p9) == q9) by {
        lemma_strip_concat(p8, hex_byte_upper(g[6]));
    }
    let p10 = p9 + dash;
    let q10 = q9;
    assert(strip_dashes(p10) == q10) by {
        lemma_strip_concat(p9, dash);
        assert(q9 + Seq::<char>::empty() =~= q9);
    }
    let p11 = p10 + hex_byte_upper(g[8]);
    let q11 = q10 + hex_byte_upper(g[8]);
    assert(strip_dashes(p11) == q11) by {
        lemma_strip_concat(p10, hex_byte_upper(g[8]));
    }
    let p12 = p11 + hex_byte_upper(g[9]);
    let q12 = q11 + hex_byte_upper(g[9]);
    assert(strip_dashes(p12) == q12) by {
        lemma_strip_concat(p11, hex_byte_upper(g[9]));
    }
    let p13 = p12 + dash;
    let q13 = q12;
    assert(strip_dashes(p13) == q13) by {
        lemma_strip_concat(p12, dash);
        assert(q12 + Seq::<char>::empty() =~= q12);
    }
    let p14 = p13 + hex_byte_upper(g[10]);
    let q14 = q13 + hex_byte_upper(g[10]);
    assert(strip_dashes(p14) == q14) by {
        lemma_strip_concat(p13, hex_byte_upper(g[10]));
    }
    let p15 = p14 + hex_byte_upper(g[11]);
    let q15 = q14 + hex_byte_upper(g[11]);
    assert(strip_dashes(p15) == q15) by {
        lemma_strip_concat(p14, hex_byte_upper(g[11]));
    }
    let p16 = p15 + hex_byte_upper(g[12]);
    let q16 = q15 + hex_byte_upper(g[12]);
    assert(strip_dashes(p16) == q16) by {
        lemma_strip_concat(p15, hex_byte_upper(g[12]));
    }
    let p17 = p16 + hex_byte_upper(g[13]);
    let q17 = q16 + hex_byte_upper(g[13]);
    assert(strip_dashes(p17) == q17) by {
        lemma_strip_concat(p16, hex_byte_upper(g[13]));
    }
    let p18 = p17 + hex_byte_upper(g[14]);
    let q18 = q17 + hex_byte_upper(g[14]);
    assert(strip_dashes(p18) == q18) by {
        lemma_strip_concat(p17, hex_byte_upper(g[14]));
    }
    let p19 = p18 + hex_byte_upper(g[15]);
    let q19 = q18 + hex_byte_upper(g[15]);
    assert(strip_dashes(p19) == q19) by {
        lemma_strip_concat(p18, hex_byte_upper(g[15]));
    }
    assert(p19 == guid_text(g));
    assert(q19 =~= hex_run(guid_wire_order(g))) by {
        reveal(hex_run);
    }
}

proof fn lemma_hex_run_pairs(w: Seq<u8>)
    ensures
        forall|i: int| 0 <= i < w.len() ==> #[trigger] hex_pair(hex_run(w), i) == w[i],
{
    reveal(hex_run);
    let h = hex_run(w);
    assert forall|i: int| 0 <= i < w.len() implies #[trigger] hex_pair(h, i) == w[i] by {
        lemma_hex_digit_value(w[i] as int / 16);
        lemma_hex_digit_value(w[i] as int % 16);
        assert((2 * i) / 2 == i && (2 * i) % 2 == 0);
        assert((2 * i + 1) / 2 == i && (2 * i + 1) % 2 == 1);
        assert(h[2 * i] == hex_digit_upper(w[i] as int / 16));
        assert(h[2 * i + 1] == hex_digit_upper(w[i] as int % 16));
    }
}

proof fn lemma_wire_of_run(t: Seq<char>, w: Seq<u8>)
    requires
        w.len() == 16,
        strip_dashes(t) == hex_run(w),
    ensures
        guid_wire_of(t) == seq![w[3], w[2], w[1], w[0], w[5], w[4], w[7], w[6], w[8], w[9], w[10], w[11], w[12], w[13], w[14], w[15]],
{
    lemma_hex_run_pairs(w);
    let h = hex_run(w);
    assert(hex_pair(h, 0) == w[0]);
    assert(hex_pair(h, 1) == w[1]);
    assert(hex_pair(h, 2) == w[2]);
    assert(hex_pair(h, 3) == w[3]);
    assert(hex_pair(h, 4) == w[4]);
    assert(hex_pair(h, 5) == w[5]);
    assert(hex_pair(h, 6) == w[6]);
    assert(hex_pair(h, 7) == w[7]);
    assert(hex_pair(h, 8) == w[8]);
    assert(hex_pair(h, 9) == w[9]);
    assert(hex_pair(h, 10) == w[10]);
    assert(hex_pair(h, 11) == w[11]);
    assert(hex_pair(h, 12) == w[12]);
    assert(hex_pair(h, 13) == w[13]);
    assert(hex_pair(h, 14) == w[14]);
    assert(hex_pair(h, 15) == w[15]);
}

/// Reading a GUID's text back: the wire bytes of the GUID text of 16 bytes
/// are those bytes, so the text determines the GUID.
#[verifier::spinoff_prover]
#[verifier::rlimit(30)]
pub proof fn law_guid_text_round_trip(g: Seq<u8>)
    requires
        g.len() >= 16,
    ensures
        guid_wire_of(guid_text(g)) == g.subrange(0, 16),
{
    lemma_guid_text_stripped(g);
    lemma_wire_of_run(guid_text(g), guid_wire_order(g));
    assert(guid_wire_of(guid_text(g)) =~= g.subrange(0, 16));
}

/// `c` with an ASCII lower-case letter raised.
pub open spec fn ascii_upper(c: char) -> char {
    if 'a' <= c && c <= 'z' { ((c as int) - 32) as char } else { c }
}

/// Whether `s` is a GUID in canonical 8-4-4-4-12 text: 36 characters,
/// dashes at 8, 13, 18 and 23, and hexadecimal digits (of either case)
/// everywhere else.
pub open spec fn canonical_guid_text(s: Seq<char>) -> bool {
    &&& s.len() == 36
    &&& forall|i: int| 0 <= i < 36 ==> if i == 8 || i == 13 || i == 18 || i == 23 {
        #[trigger] s[i] == '-'
    } else {
        is_hex_char(s[i])
    }
}

/// The hexadecimal digits of a canonical GUID text, dashes left out.
spec fn guid_digits(s: Seq<char>) -> Seq<char> {
    s.subrange(0, 8) + s.subrange(9, 13) + s.subrange(14, 18) + s.subrange(19, 23) + s.subrange(24, 36)
}

proof fn lemma_piece_dashless(s: Seq<char>, lo: int, hi: int)
    requires
        canonical_guid_text(s),
        0 <= lo <= hi <= 36,
        !(lo <= 8 < hi) && !(lo <= 13 < hi) && !(lo <= 18 < hi) && !(lo <= 23 < hi),
    ensures
        strip_dashes(s.subrange(lo, hi)) == s.subrange(lo, hi),
{
    let t = s.subrange(lo, hi);
    assert forall|i: int| 0 <= i < t.len() implies #[trigger] t[i] != '-' by {
        assert(t[i] == s[lo + i]);
        assert(is_hex_char(s[lo + i]));
    }
    lemma_strip_dashless(t);
}

#[verifier::spinoff_prover]
#[verifier::rlimit(50)]
proof fn lemma_canonical_stripped(s: Seq<char>)
    requires
        canonical_guid_text(s),
    ensures
        strip_dashes(s) == guid_digits(s),
{
    let dash = seq!['-'];
    assert(strip_dashes(dash) =~= Seq::<char>::empty()) by {
        reveal_with_fuel(strip_dashes, 2);
        assert(dash.drop_last() =~= Seq::<char>::empty());
    }
    let a = s.subrange(0, 8);
    let b = s.subrange(9, 13);
    let c = s.subrange(14, 18);
    let d = s.subrange(19, 23);
    let e = s.subrange(24, 36);
    lemma_piece_dashless(s, 0, 8);
    lemma_piece_dashless(s, 9, 13);
    lemma_piece_dashless(s, 14, 18);
    lemma_piece_dashless(s, 19, 23);
    lemma_piece_dashless(s, 24, 36);
    assert(strip_dashes(a) == a);
    assert(strip_dashes(b) == b);
    assert(strip_dashes(c) == c);
    assert(strip_dashes(d) == d);
    assert(strip_dashes(e) == e);
    assert(s =~= a + dash + b + dash + c + dash + d + dash + e);
    lemma_strip_concat(a, dash);
    lemma_strip_concat(a + dash, b);
    lemma_strip_concat(a + dash + b, dash);
    lemma_strip_concat(a + dash + b + dash, c);
    lemma_strip_concat(a + dash + b + dash + c, dash);
    lemma_strip_concat(a + dash + b + dash + c + dash, d);
    lemma_strip_concat(a + dash + b + dash + c + dash + d, dash);
    lemma_strip_concat(a + dash + b + dash + c + dash + d + dash, e);
    assert(a + Seq::<char>::empty() + b + Seq::<char>::empty() + c + Seq::<char>::empty() + d
        + Seq::<char>::empty() + e =~= guid_digits(s));
}

proof fn lemma_hex_pair_rendered(hi: char, lo: char)
    requires
        is_hex_char(hi),
        is_hex_char(lo),
    ensures
        hex_byte_upper((16 * hex_value(hi) + hex_value(lo)) as u8) == seq![ascii_upper(hi), ascii_upper(lo)],
{
    let v = 16 * hex_value(hi) + hex_value(lo);
    assert(0 <= hex_value(hi) < 16 && 0 <= hex_value(lo) < 16);
    assert(((v as u8) as int) / 16 == hex_value(hi));
    assert(((v as u8) as int) % 16 == hex_value(lo));
    assert(hex_digit_upper(hex_value(hi)) == ascii_upper(hi));
    assert(hex_digit_upper(hex_value(lo)) == ascii_upper(lo));
    assert(hex_byte_upper(v as u8) =~= seq![ascii_upper(hi), ascii_upper(lo)]);
}

proof fn lemma_digit_bytes(s: Seq<char>, k: int)
    requires
        canonical_guid_text(s),
        0 <= k < 16,
    ensures
        hex_byte_upper(hex_pair(guid_digits(s), k)) == seq![ascii_upper(guid_digits(s)[2 * k]), ascii_upper(guid_digits(s)[2 * k + 1])],
{
    let h = guid_digits(s);
    assert(h.len() == 32);
    assert forall|j: int| 0 <= j < 32 implies is_hex_char(#[trigger] h[j]) by {
        let p = if j < 8 { j } else if j < 12 { j + 1 } else if j < 16 { j + 2 } else if j < 20 { j + 3 } else { j + 4 };
        assert(h[j] == s[p]);
        assert(is_hex_char(s[p]));
    }
    assert(is_hex_char(h[2 * k]));
    assert(is_hex_char(h[2 * k + 1]));
    lemma_hex_pair_rendered(h[2 * k], h[2 * k + 1]);
}

#[verifier::spinoff_prover]
#[verifier::rlimit(50)]
proof fn lemma_guid_text_of_digits(s: Seq<char>)
    requires
        canonical_guid_text(s),
        forall|k: int| 0 <= k < 16 ==> #[trigger] hex_byte_upper(hex_pair(guid_digits(s), k))
            == seq![ascii_upper(guid_digits(s)[2 * k]), ascii_upper(guid_digits(s)[2 * k + 1])],
        strip_dashes(s) == guid_digits(s),
    ensures
        guid_text(guid_wire_of(s)) == s.map_values(|c: char| ascii_upper(c)),
{
    let h = guid_digits(s);
    let x = guid_wire_of(s);
    let t = s.map_values(|c: char| ascii_upper(c));
    assert(t.len() == 36);
    let p0 = hex_byte_upper(x[3]);
    assert(p0 == t.subrange(0, 2)) by {
        assert(x[3] == hex_pair(h, 0));
        assert(hex_byte_upper(hex_pair(h, 0)) == seq![ascii_upper(h[0]), ascii_upper(h[1])]);
        assert(h[0] == s[0] && h[1] == s[1]);
        assert(t.subrange(0, 2) =~= seq![t[0], t[1]]);
    }
    let p1 = p0 + hex_byte_upper(x[2]);
    assert(p1 == t.subrange(0, 4)) by {
        assert(x[2] == hex_pair(h, 1));
        assert(hex_byte_upper(hex_pair(h, 1)) == seq![ascii_upper(h[2]), ascii_upper(h[3])]);
        assert(h[2] == s[2] && h[3] == s[3]);
        assert(t.subrange(0, 4) =~= t.subrange(0, 2) + seq![t[2], t[3]]);
    }
    let p2 = p1 + hex_byte_upper(x[1]);
    assert(p2 == t.subrange(0, 6)) by {
        assert(x[1] == hex_pair(h, 2));
        assert(hex_byte_upper(hex_pair(h, 2)) == seq![ascii_upper(h[4]), ascii_upper(h[5])]);
        assert(h[4] == s[4] && h[5] == s[5]);
        assert(t.subrange(0, 6) =~= t.subrange(0, 4) + seq![t[4], t[5]]);
    }
    let p3 = p2 + hex_byte_upper(x[0]);
    assert(p3 == t.subrange(0, 8)) by {
        assert(x[0] == hex_pair(h, 3));
        assert(hex_byte_upper(hex_pair(h, 3)) == seq![ascii_upper(h[6]), ascii_upper(h[7])]);
        assert(h[6] == s[6] && h[7] == s[7]);
        assert(t.subrange(0, 8) =~= t.subrange(0, 6) + seq![t[6], t[7]]);
    }
    let p4 = p3 + seq!['-'];
    assert(p4 == t.subrange(0, 9)) by {
        assert(s[8] == '-');
        assert(t.subrange(0, 9) =~= t.subrange(0, 8) + seq![t[8]]);
    }
    let p5 = p4 + hex_byte_upper(x[5]);
    assert(p5 == t.subrange(0, 11)) by {
        assert(x[5] == hex_pair(h, 4));
        assert(hex_byte_upper(hex_pair(h, 4)) == seq![ascii_upper(h[8]), ascii_upper(h[9])]);
        assert(h[8] == s[9] && h[9] == s[10]);
        assert(t.subrange(0, 11) =~= t.subrange(0, 9) + seq![t[9], t[10]]);
    }
    let p6 = p5 + hex_byte_upper(x[4]);
    assert(p6 == t.subrange(0, 13)) by {
        assert(x[4] == hex_pair(h, 5));
        assert(hex_byte_upper(hex_pair(h, 5)) == seq![ascii_upper(h[10]), ascii_upper(h[11])]);
        assert(h[10] == s[11] && h[11] == s[12]);
        assert(t.subrange(0, 13) =~= t.subrange(0, 11) + seq![t[11], t[12]]);
    }
    let p7 = p6 + seq!['-'];
    assert(p7 == t.subrange(0, 14)) by {
        assert(s[13] == '-');
        assert(t.subrange(0, 14) =~= t.subrange(0, 13) + seq![t[13]]);
    }
    let p8 = p7 + hex_byte_upper(x[7]);
    assert(p8 == t.subrange(0, 16)) by {
        assert(x[7] == hex_pair(h, 6));
        assert(hex_byte_upper(hex_pair(h, 6)) == seq![ascii_upper(h[12]), ascii_upper(h[13])]);
        assert(h[12] == s[14] && h[13] == s[15]);
        assert(t.subrange(0, 16) =~= t.subrange(0, 14) + seq![t[14], t[15]]);
    }
    let p9 = p8 + hex_byte_upper(x[6]);
    assert(p9 == t.subrange(0, 18)) by {
        assert(x[6] == hex_pair(h, 7));
        assert(hex_byte_upper(hex_pair(h, 7)) == seq![ascii_upper(h[14]), ascii_upper(h[15])]);
        assert(h[14] == s[16] && h[15] == s[17]);
        assert(t.subrange(0, 18) =~= t.subrange(0, 16) + seq![t[16], t[17]]);
    }
    let p10 = p9 + seq!['-'];
    assert(p10 == t.subrange(0, 19)) by {
        assert(s[18] == '-');
        assert(t.subrange(0, 19) =~= t.subrange(0, 18) + seq![t[18]]);
    }
    let p11 = p10 + hex_byte_upper(x[8]);
    assert(p11 == t.subrange(0, 21)) by {
        assert(x[8] == hex_pair(h, 8));
        assert(hex_byte_upper(hex_pair(h, 8)) == seq![ascii_upper(h[16]), ascii_upper(h[17])]);
        assert(h[16] == s[19] && h[17] == s[20]);
        assert(t.subrange(0, 21) =~= t.subrange(0, 19) + seq![t[19], t[20]]);
    }
    let p12 = p11 + hex_byte_upper(x[9]);
    assert(p12 == t.subrange(0, 23)) by {
        assert(x[9] == hex_pair(h, 9));
        assert(hex_byte_upper(hex_pair(h, 9)) == seq![ascii_upper(h[18]), ascii_upper(h[19])]);
        assert(h[18] == s[21] && h[19] == s[22]);
        assert(t.subrange(0, 23) =~= t.subrange(0, 21) + seq![t[21], t[22]]);
    }
    let p13 = p12 + seq!['-'];
    assert(p13 == t.subrange(0, 24)) by {
        assert(s[23] == '-');
        assert(t.subrange(0, 24) =~= t.subrange(0, 23) + seq![t[23]]);
    }
    let p14 = p13 + hex_byte_upper(x[10]);
    assert(p14 == t.subrange(0, 26)) by {
        assert(x[10] == hex_pair(h, 10));
        assert(hex_byte_upper(hex_pair(h, 10)) == seq![ascii_upper(h[20]), ascii_upper(h[21])]);
        assert(h[20] == s[24] && h[21] == s[25]);
        assert(t.subrange(0, 26) =~= t.subrange(0, 24) + seq![t[24], t[25]]);
    }
    let p15 = p14 + hex_byte_upper(x[11]);
    assert(p15 == t.subrange(0, 28)) by {
        assert(x[11] == hex_pair(h, 11));
        assert(hex_byte_upper(hex_pair(h, 11)) == seq![ascii_upper(h[22]), ascii_upper(h[23])]);
        assert(h[22] == s[26] && h[23] == s[27]);
        assert(t.subrange(0, 28) =~= t.subrange(0, 26) + seq![t[26], t[27]]);
    }
    let p16 = p15 + hex_byte_upper(x[12]);
    assert(p16 == t.subrange(0, 30)) by {
        assert(x[12] == hex_pair(h, 12));
        assert(hex_byte_upper(hex_pair(h, 12)) == seq![ascii_upper(h[24]), ascii_upper(h[25])]);
        assert(h[24] == s[28] && h[25] == s[29]);
        assert(t.subrange(0, 30) =~= t.subrange(0, 28) + seq![t[28], t[29]]);
    }
    let p17 = p16 + hex_byte_upper(x[13]);
    assert(p17 == t.subrange(0, 32)) by {
        assert(x[13] == hex_pair(h, 13));
        assert(hex_byte_upper(hex_pair(h, 13)) == seq![ascii_upper(h[26]), ascii_upper(h[27])]);
        assert(h[26] == s[30] && h[27] == s[31]);
        assert(t.subrange(0, 32) =~= t.subrange(0, 30) + seq![t[30], t[31]]);
    }
    let p18 = p17 + hex_byte_upper(x[14]);
    assert(p18 == t.subrange(0, 34)) by {
        assert(x[14] == hex_pair(h, 14));
        assert(hex_byte_upper(hex_pair(h, 14)) == seq![ascii_upper(h[28]), ascii_upper(h[29])]);
        assert(h[28] == s[32] && h[29] == s[33]);
        assert(t.subrange(0, 34) =~= t.subrange(0, 32) + seq![t[32], t[33]]);
    }
    let p19 = p18 + hex_byte_upper(x[15]);
    assert(p19 == t.subrange(0, 36)) by {
        assert(x[15] == hex_pair(h, 15));
        assert(hex_byte_upper(hex_pair(h, 15)) == seq![ascii_upper(h[30]), ascii_upper(h[31])]);
        assert(h[30] == s[34] && h[31] == s[35]);
        assert(t.subrange(0, 36) =~= t.subrange(0, 34) + seq![t[34], t[35]]);
    }
    assert(p19 == guid_text(x));
    assert(t.subrange(0, 36) =~= t);
}

/// Reading a GUID's bytes from its text and rendering them again gives the
/// text back, in upper case.
pub proof fn law_guid_bytes_round_trip(s: Seq<char>)
    requires
        canonical_guid_text(s),
    ensures
        guid_text(guid_wire_of(s)) == s.map_values(|c: char| ascii_upper(c)),
{
    lemma_canonical_stripped(s);
    assert forall|k: int| 0 <= k < 16 implies #[trigger] hex_byte_upper(hex_pair(guid_digits(s), k))
        == seq![ascii_upper(guid_digits(s)[2 * k]), ascii_upper(guid_digits(s)[2 * k + 1])] by {
        lemma_digit_bytes(s, k);
    }
    lemma_guid_text_of_digits(s);
}

/// An `AppID` taken from a filename is a non-empty run of lower-case
/// hexadecimal digits.
pub proof fn law_app_id_is_lower_hex(name: Seq<char>)
    ensures
        app_id_of(name) matches Some(id) ==> id.len() > 0 && forall|i: int| 0 <= i < id.len() ==> {
            ('0' <= #[trigger] id[i] && id[i] <= '9') || ('a' <= id[i] && id[i] <= 'f')
        },
{
    if let Some(id) = app_id_of(name) {
        let raw = before_first(after_last(after_last(name, '/'), '\\'), '.');
        assert forall|i: int| 0 <= i < id.len() implies ('0' <= #[trigger] id[i] && id[i] <= '9') || ('a' <= id[i] && id[i] <= 'f') by {
            assert(is_hex_char(raw[i]));
            assert(id[i] == ascii_lower(raw[i]));
        }
    }
}

proof fn lemma_custom_entries_plain(d: Seq<u8>, starts: Seq<int>, n: int)
    ensures
        forall|i: int| 0 <= i < custom_entries(d, starts, n).len() ==> (#[trigger] custom_entries(d, starts, n)[i]).destlist is None,
    decreases n,
{
    if n > 0 {
        lemma_custom_entries_plain(d, starts, n - 1);
    }
}

/// A custom-destinations Jump List carries no `DestList` metadata: each of
/// its entries is a bare embedded Shell Link.
pub proof fn law_custom_entries_have_no_destlist(d: Seq<u8>, filename: Option<&str>)
    ensures
        custom_list_of(d, filename) matches Some(jl) ==> forall|i: int|
            0 <= i < jl.entries.len() ==> (#[trigger] jl.entries[i]).destlist is None,
{
    let starts = entry_starts_from(d, 12);
    lemma_custom_entries_plain(d, starts, starts.len() as int);
}

/// Whether `e` pairs a `DestList` record with the Shell Link parsed from the
/// stream that record names in `file`.
pub open spec fn entry_read_from(file: Seq<u8>, e: JumpListEntryView) -> bool {
    e.destlist matches Some(rec) && record_stream(file, rec) matches Some(lnk) && shell_link_of(lnk) == Some(e.link)
}

proof fn lemma_automatic_entries_recorded(file: Seq<u8>, records: Seq<DestListEntryView>)
    ensures
        forall|i: int| 0 <= i < automatic_entries(file, records).len() ==> entry_read_from(file, #[trigger] automatic_entries(file, records)[i]),
    decreases records.len(),
{
    reveal(automatic_entries);
    if records.len() > 0 {
        let rest = automatic_entries(file, records.drop_last());
        lemma_automatic_entries_recorded(file, records.drop_last());
        let rec = records.last();
        if let Some(lnk) = record_stream(file, rec) {
            if let Some(link) = shell_link_of(lnk) {
                let e = JumpListEntryView { destlist: Some(rec), link };
                assert(entry_read_from(file, e));
                assert forall|i: int| 0 <= i < rest.push(e).len() implies entry_read_from(file, #[trigger] rest.push(e)[i]) by {
                    if i < rest.len() {
                        assert(rest.push(e)[i] == rest[i]);
                    }
                }
            }
        }
    }
}

/// Every entry of an automatic-destinations Jump List carries its `DestList`
/// record, and its link is the Shell Link read from the stream that record
/// names.
pub proof fn law_automatic_entries_have_destlist(d: Seq<u8>, filename: Option<&str>)
    ensures
        automatic_list_of(d, filename) matches Some(jl) ==> forall|i: int|
            0 <= i < jl.entries.len() ==> entry_read_from(d, #[trigger] jl.entries[i]),
{
    if let Some(destlist) = compound_stream(d, "DestList"@) {
        lemma_automatic_entries_recorded(d, destlist_entries(destlist));
    }
}

} // verus!

//! What a note may say: the words of a verdict never appear in one whose
//! embedded fields are free of them — `Debug` escapes, led by a backslash,
//! cannot make one up.
use vstd::prelude::*;

use crate::audit::{contains_text, count_text, hedge, jumplist_note, lnk_note, JumpListAnomalyView, LnkAnomalyView};
use crate::deps::{debug_body, debug_escape, debug_rendering, debug_text, hex_digit_char, plain_char};
use crate::jumplist::ascii_lower;
use crate::text::{decimal_text, hex_digit_of, padded_hex32_text, signed_decimal_text};

verus! {

/// Whether `w` occurs in `s` at `i`, ignoring ASCII case.
pub open spec fn word_at(s: Seq<char>, w: Seq<char>, i: int) -> bool {
    &&& 0 <= i && i + w.len() <= s.len()
    &&& forall|k: int| 0 <= k < w.len() ==> ascii_lower(#[trigger] s[i + k]) == w[k]
}

/// Whether `w` occurs nowhere in `s`, in any case.
pub open spec fn free_of(s: Seq<char>, w: Seq<char>) -> bool {
    forall|i: int| !#[trigger] word_at(s, w, i)
}

/// The word "proves".
pub open spec fn proves_word() -> Seq<char> {
    seq!['p', 'r', 'o', 'v', 'e', 's']
}

/// The word "confirms".
pub open spec fn confirms_word() -> Seq<char> {
    seq!['c', 'o', 'n', 'f', 'i', 'r', 'm', 's']
}

/// The word "definitely".
pub open spec fn definitely_word() -> Seq<char> {
    seq!['d', 'e', 'f', 'i', 'n', 'i', 't', 'e', 'l', 'y']
}

/// Whether `s` uses none of the words of a verdict — "proves", "confirms",
/// "definitely" — in any case.
pub open spec fn claims_no_verdict(s: Seq<char>) -> bool {
    &&& free_of(s, proves_word())
    &&& free_of(s, confirms_word())
    &&& free_of(s, definitely_word())
}

/// Whether `c` is an ASCII letter.
pub open spec fn is_letter(c: char) -> bool {
    ('a' <= c && c <= 'z') || ('A' <= c && c <= 'Z')
}

/// Whether no word can run across the joint of `x` and `y`: one side is
/// empty, or a non-letter stands on one side of it.
pub open spec fn clean_joint(x: Seq<char>, y: Seq<char>) -> bool {
    x.len() == 0 || y.len() == 0 || !is_letter(x.last()) || !is_letter(y[0])
}

/// Whether `s` is made only of printable ASCII other than `"` and `\`.
pub open spec fn plain_text(s: Seq<char>) -> bool {
    forall|i: int| 0 <= i < s.len() ==> plain_char(#[trigger] s[i])
}

/// `s` between double quotes.
pub open spec fn quoted(s: Seq<char>) -> Seq<char> {
    seq!['"'] + s + seq!['"']
}

/// Whether the first four characters of `w` stand at `i` in `s`, in any case.
pub open spec fn prefix4_at(s: Seq<char>, i: int, w: Seq<char>) -> bool {
    &&& ascii_lower(s[i]) == w[0]
    &&& ascii_lower(s[i + 1]) == w[1]
    &&& ascii_lower(s[i + 2]) == w[2]
    &&& ascii_lower(s[i + 3]) == w[3]
}

proof fn lemma_free_by_prefix(s: Seq<char>, w: Seq<char>)
    requires
        w.len() >= 4,
        forall|i: int| 0 <= i && i + 4 <= s.len() ==> !#[trigger] prefix4_at(s, i, w),
    ensures
        free_of(s, w),
{
    assert forall|i: int| !#[trigger] word_at(s, w, i) by {
        if word_at(s, w, i) {
            assert(ascii_lower(s[i + 0]) == w[0]);
            assert(ascii_lower(s[i + 1]) == w[1]);
            assert(ascii_lower(s[i + 2]) == w[2]);
            assert(ascii_lower(s[i + 3]) == w[3]);
            assert(prefix4_at(s, i, w));
        }
    }
}

/// Whether no verdict word begins anywhere in `s` — the four-character test
/// that a fixed text is checked against.
pub open spec fn no_verdict_prefix(s: Seq<char>) -> bool {
    forall|i: int| 0 <= i && i + 4 <= s.len() ==> {
        &&& !#[trigger] prefix4_at(s, i, proves_word())
        &&& !prefix4_at(s, i, confirms_word())
        &&& !prefix4_at(s, i, definitely_word())
    }
}

/// A text in which no verdict word begins claims no verdict.
pub(crate) proof fn lemma_text_quiet(s: Seq<char>)
    requires
        no_verdict_prefix(s),
    ensures
        claims_no_verdict(s),
{
    assert forall|i: int| 0 <= i && i + 4 <= s.len() implies !#[trigger] prefix4_at(s, i, confirms_word()) by {
        assert(!prefix4_at(s, i, proves_word()));
    }
    assert forall|i: int| 0 <= i && i + 4 <= s.len() implies !#[trigger] prefix4_at(s, i, definitely_word()) by {
        assert(!prefix4_at(s, i, proves_word()));
    }
    lemma_free_by_prefix(s, proves_word());
    lemma_free_by_prefix(s, confirms_word());
    lemma_free_by_prefix(s, definitely_word());
}

proof fn lemma_free_join(x: Seq<char>, y: Seq<char>, w: Seq<char>)
    requires
        free_of(x, w),
        free_of(y, w),
        clean_joint(x, y),
        w.len() > 0,
        forall|k: int| 0 <= k < w.len() ==> 'a' <= #[trigger] w[k] && w[k] <= 'z',
    ensures
        free_of(x + y, w),
{
    let s = x + y;
    assert forall|i: int| !#[trigger] word_at(s, w, i) by {
        if word_at(s, w, i) {
            if i + w.len() <= x.len() {
                assert forall|k: int| 0 <= k < w.len() implies ascii_lower(#[trigger] x[i + k]) == w[k] by {
                    assert(s[i + k] == x[i + k]);
                }
                assert(word_at(x, w, i));
            } else if i >= x.len() {
                let j = i - x.len();
                assert forall|k: int| 0 <= k < w.len() implies ascii_lower(#[trigger] y[j + k]) == w[k] by {
                    assert(s[i + k] == y[j + k]);
                }
                assert(word_at(y, w, j));
            } else {
                let k1 = x.len() - 1 - i;
                let k2 = x.len() - i;
                assert(s[i + k1] == x.last());
                assert(s[i + k2] == y[0]);
                assert(ascii_lower(x.last()) == w[k1]);
                assert(ascii_lower(y[0]) == w[k2]);
                assert(is_letter(x.last()));
                assert(is_letter(y[0]));
            }
        }
    }
}

/// Joining two texts that claim no verdict at a clean joint claims none.
pub(crate) proof fn lemma_quiet_join(x: Seq<char>, y: Seq<char>)
    requires
        claims_no_verdict(x),
        claims_no_verdict(y),
        clean_joint(x, y),
    ensures
        claims_no_verdict(x + y),
{
    lemma_free_join(x, y, proves_word());
    lemma_free_join(x, y, confirms_word());
    lemma_free_join(x, y, definitely_word());
}

/// A quoted text that claims no verdict claims none.
pub(crate) proof fn lemma_quoted_quiet(s: Seq<char>)
    requires
        claims_no_verdict(s),
    ensures
        claims_no_verdict(quoted(s)),
        quoted(s)[0] == '"',
        quoted(s).last() == '"',
{
    let q = seq!['"'];
    lemma_text_quiet(q);
    lemma_quiet_join(q, s);
    lemma_quiet_join(q + s, q);
}

/// Whether `w` is a word that `Debug` escapes cannot make up: lower-case
/// letters, not starting with an escape letter (`t`, `r`, `n`, `u`), and
/// with a letter beyond `f` among them.
pub open spec fn escape_proof_word(w: Seq<char>) -> bool {
    &&& w.len() > 0
    &&& forall|k: int| 0 <= k < w.len() ==> 'a' <= #[trigger] w[k] && w[k] <= 'z'
    &&& w[0] != 't' && w[0] != 'r' && w[0] != 'n' && w[0] != 'u'
    &&& exists|j: int| 0 <= j < w.len() && #[trigger] w[j] > 'f'
}

proof fn lemma_free_suffix(s: Seq<char>, w: Seq<char>)
    requires
        s.len() > 0,
        free_of(s, w),
    ensures
        free_of(s.drop_first(), w),
{
    let t = s.drop_first();
    assert forall|i: int| !#[trigger] word_at(t, w, i) by {
        if word_at(t, w, i) {
            assert forall|k: int| 0 <= k < w.len() implies ascii_lower(#[trigger] s[i + 1 + k]) == w[k] by {
                assert(s[i + 1 + k] == t[i + k]);
            }
            assert(word_at(s, w, i + 1));
        }
    }
}

/// A run of letters at the front of a rendering is the same run of the text:
/// escapes begin with a backslash, so they cannot stand in it.
proof fn lemma_debug_letters(s: Seq<char>, body: Seq<char>, m: int)
    requires
        debug_body(s, body),
        0 <= m <= body.len(),
        forall|j: int| 0 <= j < m ==> is_letter(#[trigger] body[j]),
    ensures
        m <= s.len(),
        forall|j: int| 0 <= j < m ==> #[trigger] body[j] == s[j],
    decreases m,
{
    if m > 0 {
        assert(is_letter(body[0]));
        assert(s.len() > 0);
        if !(body.len() >= 1 && body[0] == s[0] && debug_body(s.drop_first(), body.drop_first())) {
            let k = choose|k: int| 2 <= k <= body.len() && #[trigger] debug_escape(body.take(k))
                && debug_body(s.drop_first(), body.skip(k));
            assert(body.take(k)[0] == body[0]);
        }
        let b = body.drop_first();
        assert forall|j: int| 0 <= j < m - 1 implies is_letter(#[trigger] b[j]) by {
            assert(b[j] == body[j + 1]);
        }
        lemma_debug_letters(s.drop_first(), b, m - 1);
        assert forall|j: int| 0 <= j < m implies #[trigger] body[j] == s[j] by {
            if j > 0 {
                assert(body[j] == b[j - 1]);
                assert(b[j - 1] == s.drop_first()[j - 1]);
            }
        }
    }
}

/// No escape-proof word occurs in a rendering of a text it does not occur in.
proof fn lemma_debug_body_free(s: Seq<char>, body: Seq<char>, w: Seq<char>)
    requires
        debug_body(s, body),
        free_of(s, w),
        escape_proof_word(w),
    ensures
        free_of(body, w),
    decreases s.len(),
{
    if s.len() == 0 {
        assert forall|i: int| !#[trigger] word_at(body, w, i) by {}
    } else {
        let t = s.drop_first();
        lemma_free_suffix(s, w);
        if body.len() >= 1 && body[0] == s[0] && debug_body(t, body.drop_first()) {
            let rest = body.drop_first();
            lemma_debug_body_free(t, rest, w);
            assert forall|i: int| !#[trigger] word_at(body, w, i) by {
                if word_at(body, w, i) {
                    if i >= 1 {
                        assert forall|k: int| 0 <= k < w.len() implies ascii_lower(#[trigger] rest[i - 1 + k]) == w[k] by {
                            assert(rest[i - 1 + k] == body[i + k]);
                        }
                        assert(word_at(rest, w, i - 1));
                    } else {
                        let m = w.len() - 1;
                        assert forall|j: int| 0 <= j < m implies is_letter(#[trigger] rest[j]) by {
                            assert(rest[j] == body[j + 1]);
                            assert(ascii_lower(body[0 + (j + 1)]) == w[j + 1]);
                        }
                        lemma_debug_letters(t, rest, m);
                        assert forall|k: int| 0 <= k < w.len() implies ascii_lower(#[trigger] s[0 + k]) == w[k] by {
                            assert(ascii_lower(body[0 + k]) == w[k]);
                            if k > 0 {
                                assert(body[k] == rest[k - 1]);
                                assert(rest[k - 1] == t[k - 1]);
                            }
                        }
                        assert(word_at(s, w, 0));
                    }
                }
            }
        } else {
            let k = choose|k: int| 2 <= k <= body.len() && #[trigger] debug_escape(body.take(k))
                && debug_body(t, body.skip(k));
            let e = body.take(k);
            let rest = body.skip(k);
            lemma_debug_body_free(t, rest, w);
            let j0 = choose|j: int| 0 <= j < w.len() && #[trigger] w[j] > 'f';
            assert forall|i: int| !#[trigger] word_at(body, w, i) by {
                if word_at(body, w, i) {
                    if i >= k {
                        assert forall|x: int| 0 <= x < w.len() implies ascii_lower(#[trigger] rest[i - k + x]) == w[x] by {
                            assert(rest[i - k + x] == body[i + x]);
                        }
                        assert(word_at(rest, w, i - k));
                    } else {
                        assert(ascii_lower(body[i + 0]) == w[0]);
                        assert(body[i] == e[i]);
                        if i == 0 {
                        } else if k == 2 {
                        } else if i == 1 || i == 2 {
                        } else if i + w.len() > k - 1 {
                            let x = k - 1 - i;
                            assert(ascii_lower(body[i + x]) == w[x]);
                            assert(body[k - 1] == e[k - 1]);
                        } else {
                            assert(ascii_lower(body[i + j0]) == w[j0]);
                            assert(body[i + j0] == e[i + j0]);
                            assert(hex_digit_char(e[i + j0]));
                        }
                    }
                }
            }
        }
    }
}

/// A `Debug` rendering of a text that claims no verdict claims none, and is
/// framed by double quotes.
pub(crate) proof fn lemma_debug_quiet(s: Seq<char>, r: Seq<char>)
    requires
        debug_rendering(s, r),
        claims_no_verdict(s),
    ensures
        claims_no_verdict(r),
        r[0] == '"',
        r.last() == '"',
{
    let body = r.subrange(1, r.len() - 1);
    assert(proves_word()[1] > 'f');
    assert(confirms_word()[1] > 'f');
    assert(definitely_word()[3] > 'f');
    lemma_debug_body_free(s, body, proves_word());
    lemma_debug_body_free(s, body, confirms_word());
    lemma_debug_body_free(s, body, definitely_word());
    lemma_quoted_quiet(body);
    assert(quoted(body) =~= r);
}

/// Whether `c` may stand in a number rendering: a digit, `x`, `-` or an
/// upper-case hexadecimal letter.
pub open spec fn number_char(c: char) -> bool {
    ('0' <= c && c <= '9') || c == 'x' || c == '-' || ('A' <= c && c <= 'F')
}

/// A text of number characters claims no verdict.
pub(crate) proof fn lemma_number_quiet(s: Seq<char>)
    requires
        forall|i: int| 0 <= i < s.len() ==> number_char(#[trigger] s[i]),
    ensures
        claims_no_verdict(s),
{
    assert forall|i: int| 0 <= i && i + 4 <= s.len() implies {
        &&& !#[trigger] prefix4_at(s, i, proves_word())
        &&& !prefix4_at(s, i, confirms_word())
        &&& !prefix4_at(s, i, definitely_word())
    } by {
        assert(number_char(s[i]));
        assert(number_char(s[i + 1]));
        assert(number_char(s[i + 3]));
    }
    lemma_text_quiet(s);
}

/// Decimal renderings are made of digits.
pub(crate) proof fn lemma_decimal_digits(n: nat)
    ensures
        forall|i: int| 0 <= i < decimal_text(n).len() ==> '0' <= #[trigger] decimal_text(n)[i] && decimal_text(n)[i] <= '9',
        decimal_text(n).len() > 0,
    decreases n,
{
    if n >= 10 {
        lemma_decimal_digits(n / 10);
        let t = decimal_text(n);
        assert forall|i: int| 0 <= i < t.len() implies '0' <= #[trigger] t[i] && t[i] <= '9' by {
            if i < t.len() - 1 {
                assert(t[i] == decimal_text(n / 10)[i]);
            }
        }
    }
}

/// A decimal rendering claims no verdict and begins with a non-letter.
pub(crate) proof fn lemma_decimal_quiet(n: nat)
    ensures
        claims_no_verdict(decimal_text(n)),
        !is_letter(decimal_text(n)[0]),
{
    lemma_decimal_digits(n);
    lemma_number_quiet(decimal_text(n));
}

/// A signed decimal rendering claims no verdict and begins with a non-letter.
pub(crate) proof fn lemma_signed_decimal_quiet(v: int)
    ensures
        claims_no_verdict(signed_decimal_text(v)),
        !is_letter(signed_decimal_text(v)[0]),
{
    let t = signed_decimal_text(v);
    if v < 0 {
        lemma_decimal_digits((-v) as nat);
        assert forall|i: int| 0 <= i < t.len() implies number_char(#[trigger] t[i]) by {
            if i > 0 {
                assert(t[i] == decimal_text((-v) as nat)[i - 1]);
            }
        }
        lemma_number_quiet(t);
    } else {
        lemma_decimal_quiet(v as nat);
    }
}

proof fn lemma_hex_digit_of_range(n: nat, k: nat)
    ensures
        0 <= hex_digit_of(n, k) < 16,
    decreases k,
{
    if k > 0 {
        lemma_hex_digit_of_range(n / 16, (k - 1) as nat);
    }
}

/// A padded hexadecimal rendering claims no verdict and begins with `0`.
pub(crate) proof fn lemma_padded_hex_quiet(n: u32)
    ensures
        claims_no_verdict(padded_hex32_text(n)),
        padded_hex32_text(n)[0] == '0',
{
    let t = padded_hex32_text(n);
    assert forall|i: int| 0 <= i < t.len() implies number_char(#[trigger] t[i]) by {
        if i >= 2 {
            lemma_hex_digit_of_range(n as nat, (7 - (i - 2)) as nat);
        }
    }
    lemma_number_quiet(t);
}

/// Whether the fields a Shell Link anomaly's note embeds claim no verdict.
pub open spec fn lnk_fields_quiet(a: LnkAnomalyView) -> bool {
    match a {
        LnkAnomalyView::RemovableMediaTarget { path, .. } => match path {
            Some(p) => claims_no_verdict(p),
            None => true,
        },
        LnkAnomalyView::NetworkTarget { net_name } => match net_name {
            Some(n) => claims_no_verdict(n),
            None => true,
        },
        LnkAnomalyView::TrackerMachine { machine_id } => claims_no_verdict(machine_id),
    }
}

/// Whether the `Debug` renderings a Shell Link anomaly's note quotes have
/// the shape std gives them.
pub open spec fn lnk_quotes_rendered(a: LnkAnomalyView) -> bool {
    match a {
        LnkAnomalyView::RemovableMediaTarget { path, .. } => match path {
            Some(p) => debug_rendering(p, debug_text(p)),
            None => true,
        },
        LnkAnomalyView::NetworkTarget { .. } => true,
        LnkAnomalyView::TrackerMachine { machine_id } => debug_rendering(machine_id, debug_text(machine_id)),
    }
}

proof fn lemma_hedge_quiet()
    ensures
        claims_no_verdict(hedge()),
        hedge()[0] == 'c',
        hedge().last() == 'h',
{
    reveal_strlit("consistent with");
    lemma_text_quiet(hedge());
}

/// A Shell Link anomaly's note claims no verdict when the fields it embeds
/// claim none.
pub(crate) proof fn lemma_lnk_note_quiet(a: LnkAnomalyView)
    requires
        lnk_fields_quiet(a),
        lnk_quotes_rendered(a),
    ensures
        claims_no_verdict(lnk_note(a)),
{
    lemma_hedge_quiet();
    let h = hedge();
    match a {
        LnkAnomalyView::RemovableMediaTarget { drive_type, drive_serial, path } => {
            let l1 = "the link target resolves to a removable/external volume (drive_type "@;
            let l2 = ", drive serial "@;
            let l3 = "); "@;
            let l4 = " a file opened from external media (MITRE T1052.001 / T1091). The volume serial is the join key to a peripheral device connection"@;
            let lp = ", path "@;
            reveal_strlit("the link target resolves to a removable/external volume (drive_type ");
            reveal_strlit(", drive serial ");
            reveal_strlit("); ");
            reveal_strlit(" a file opened from external media (MITRE T1052.001 / T1091). The volume serial is the join key to a peripheral device connection");
            reveal_strlit(", path ");
            lemma_text_quiet(l1);
            lemma_text_quiet(l2);
            lemma_text_quiet(l3);
            lemma_text_quiet(l4);
            lemma_text_quiet(lp);
            let dec = crate::text::decimal_text(drive_type as nat);
            let hx = padded_hex32_text(drive_serial);
            lemma_decimal_quiet(drive_type as nat);
            lemma_padded_hex_quiet(drive_serial);
            let opt = match path {
                Some(p) => lp + debug_text(p),
                None => Seq::empty(),
            };
            match path {
                Some(p) => {
                    lemma_debug_quiet(p, debug_text(p));
                    lemma_quiet_join(lp, debug_text(p));
                },
                None => {
                    assert(claims_no_verdict(opt));
                },
            }
            lemma_quiet_join(l1, dec);
            lemma_quiet_join(l1 + dec, l2);
            lemma_quiet_join(l1 + dec + l2, hx);
            lemma_quiet_join(l1 + dec + l2 + hx, opt);
            lemma_quiet_join(l1 + dec + l2 + hx + opt, l3);
            assert((l1 + dec + l2 + hx + opt + l3).last() == ' ');
            lemma_quiet_join(l1 + dec + l2 + hx + opt + l3, h);
            lemma_quiet_join(l1 + dec + l2 + hx + opt + l3 + h, l4);
            assert(lnk_note(a) == l1 + dec + l2 + hx + opt + l3 + h + l4);
        },
        LnkAnomalyView::NetworkTarget { net_name } => {
            let l1 = "the link carries a network relative link"@;
            let lt = " to "@;
            let l3 = "; "@;
            let l4 = " a file opened from a network share (MITRE T1021)"@;
            reveal_strlit("the link carries a network relative link");
            reveal_strlit(" to ");
            reveal_strlit("; ");
            reveal_strlit(" a file opened from a network share (MITRE T1021)");
            lemma_text_quiet(l1);
            lemma_text_quiet(lt);
            lemma_text_quiet(l3);
            lemma_text_quiet(l4);
            let opt = match net_name {
                Some(n) => lt + n,
                None => Seq::empty(),
            };
            match net_name {
                Some(n) => {
                    lemma_quiet_join(lt, n);
                },
                None => {
                    assert(claims_no_verdict(opt));
                },
            }
            lemma_quiet_join(l1, opt);
            lemma_quiet_join(l1 + opt, l3);
            assert((l1 + opt + l3).last() == ' ');
            lemma_quiet_join(l1 + opt + l3, h);
            lemma_quiet_join(l1 + opt + l3 + h, l4);
            assert(lnk_note(a) == l1 + opt + l3 + h + l4);
        },
        LnkAnomalyView::TrackerMachine { machine_id } => {
            let l1 = "the tracker block records the origin machine "@;
            let l3 = "; "@;
            let l4 = " the link having been authored on that machine (attribution)"@;
            reveal_strlit("the tracker block records the origin machine ");
            reveal_strlit("; ");
            reveal_strlit(" the link having been authored on that machine (attribution)");
            lemma_text_quiet(l1);
            lemma_text_quiet(l3);
            lemma_text_quiet(l4);
            let q = debug_text(machine_id);
            lemma_debug_quiet(machine_id, debug_text(machine_id));
            lemma_quiet_join(l1, q);
            lemma_quiet_join(l1 + q, l3);
            assert((l1 + q + l3).last() == ' ');
            lemma_quiet_join(l1 + q + l3, h);
            lemma_quiet_join(l1 + q + l3 + h, l4);
            assert(lnk_note(a) == l1 + q + l3 + h + l4);
        },
    }
}

/// Whether the fields a Jump List anomaly's note embeds claim no verdict.
pub open spec fn jumplist_fields_quiet(a: JumpListAnomalyView) -> bool {
    match a {
        JumpListAnomalyView::PinnedTarget { path } => claims_no_verdict(path),
        JumpListAnomalyView::CrossMachine { hostname, acquisition_host } => claims_no_verdict(hostname)
            && claims_no_verdict(acquisition_host),
        JumpListAnomalyView::MruRecency { path, .. } => claims_no_verdict(path),
        JumpListAnomalyView::AppIdIdentified { app_id, application } => claims_no_verdict(app_id)
            && claims_no_verdict(application),
    }
}

/// Whether the `Debug` renderings a Jump List anomaly's note quotes have the
/// shape std gives them.
pub open spec fn jumplist_quotes_rendered(a: JumpListAnomalyView) -> bool {
    match a {
        JumpListAnomalyView::PinnedTarget { path } => debug_rendering(path, debug_text(path)),
        JumpListAnomalyView::CrossMachine { hostname, acquisition_host } => debug_rendering(hostname, debug_text(hostname))
            && debug_rendering(acquisition_host, debug_text(acquisition_host)),
        JumpListAnomalyView::MruRecency { path, .. } => debug_rendering(path, debug_text(path)),
        JumpListAnomalyView::AppIdIdentified { application, .. } => debug_rendering(application, debug_text(application)),
    }
}

/// A Jump List anomaly's note claims no verdict when the fields it embeds
/// claim none.
pub(crate) proof fn lemma_jumplist_note_quiet(a: JumpListAnomalyView)
    requires
        jumplist_fields_quiet(a),
        jumplist_quotes_rendered(a),
    ensures
        claims_no_verdict(jumplist_note(a)),
{
    lemma_hedge_quiet();
    let h = hedge();
    match a {
        JumpListAnomalyView::PinnedTarget { path } => {
            let l1 = "the Jump List entry for "@;
            let l2 = " is pinned; "@;
            let l3 = " the user having deliberately fixed this target to the application's Jump List"@;
            reveal_strlit("the Jump List entry for ");
            reveal_strlit(" is pinned; ");
            reveal_strlit(" the user having deliberately fixed this target to the application's Jump List");
            lemma_text_quiet(l1);
            lemma_text_quiet(l2);
            lemma_text_quiet(l3);
            let q = debug_text(path);
            lemma_debug_quiet(path, debug_text(path));
            lemma_quiet_join(l1, q);
            lemma_quiet_join(l1 + q, l2);
            assert((l1 + q + l2).last() == ' ');
            lemma_quiet_join(l1 + q + l2, h);
            lemma_quiet_join(l1 + q + l2 + h, l3);
            assert(jumplist_note(a) == l1 + q + l2 + h + l3);
        },
        JumpListAnomalyView::CrossMachine { hostname, acquisition_host } => {
            let l1 = "the Jump List entry records origin hostname "@;
            let l2 = ", which has no match to the acquisition host "@;
            let l3 = "; "@;
            let l4 = " the target having been accessed from, or the artifact having originated on, a different machine"@;
            reveal_strlit("the Jump List entry records origin hostname ");
            reveal_strlit(", which has no match to the acquisition host ");
            reveal_strlit("; ");
            reveal_strlit(" the target having been accessed from, or the artifact having originated on, a different machine");
            lemma_text_quiet(l1);
            lemma_text_quiet(l2);
            lemma_text_quiet(l3);
            lemma_text_quiet(l4);
            let q1 = debug_text(hostname);
            let q2 = debug_text(acquisition_host);
            lemma_debug_quiet(hostname, debug_text(hostname));
            lemma_debug_quiet(acquisition_host, debug_text(acquisition_host));
            lemma_quiet_join(l1, q1);
            lemma_quiet_join(l1 + q1, l2);
            lemma_quiet_join(l1 + q1 + l2, q2);
            lemma_quiet_join(l1 + q1 + l2 + q2, l3);
            assert((l1 + q1 + l2 + q2 + l3).last() == ' ');
            lemma_quiet_join(l1 + q1 + l2 + q2 + l3, h);
            lemma_quiet_join(l1 + q1 + l2 + q2 + l3 + h, l4);
            assert(jumplist_note(a) == l1 + q1 + l2 + q2 + l3 + h + l4);
        },
        JumpListAnomalyView::MruRecency { path, access_count, last_access } => {
            let l1 = "the Jump List records MRU recency for "@;
            let l2 = " (access count "@;
            let l3 = ", last access "@;
            let l4 = "); "@;
            let l5 = " the application's own usage history for this target"@;
            reveal_strlit("the Jump List records MRU recency for ");
            reveal_strlit(" (access count ");
            reveal_strlit(", last access ");
            reveal_strlit("); ");
            reveal_strlit(" the application's own usage history for this target");
            reveal_strlit("unknown");
            lemma_text_quiet(l1);
            lemma_text_quiet(l2);
            lemma_text_quiet(l3);
            lemma_text_quiet(l4);
            lemma_text_quiet(l5);
            let q = debug_text(path);
            lemma_debug_quiet(path, debug_text(path));
            let c = count_text(access_count);
            match access_count {
                Some(n) => lemma_decimal_quiet(n as nat),
                None => lemma_text_quiet("unknown"@),
            }
            let t = crate::text::signed_decimal_text(last_access as int);
            lemma_signed_decimal_quiet(last_access as int);
            lemma_quiet_join(l1, q);
            lemma_quiet_join(l1 + q, l2);
            assert((l1 + q + l2).last() == ' ');
            lemma_quiet_join(l1 + q + l2, c);
            lemma_quiet_join(l1 + q + l2 + c, l3);
            lemma_quiet_join(l1 + q + l2 + c + l3, t);
            lemma_quiet_join(l1 + q + l2 + c + l3 + t, l4);
            assert((l1 + q + l2 + c + l3 + t + l4).last() == ' ');
            lemma_quiet_join(l1 + q + l2 + c + l3 + t + l4, h);
            lemma_quiet_join(l1 + q + l2 + c + l3 + t + l4 + h, l5);
            assert(jumplist_note(a) == l1 + q + l2 + c + l3 + t + l4 + h + l5);
        },
        JumpListAnomalyView::AppIdIdentified { app_id, application } => {
            let l1 = "the Jump List AppID "@;
            let l2 = " is "@;
            let l3 = " the application "@;
            reveal_strlit("the Jump List AppID ");
            reveal_strlit(" is ");
            reveal_strlit(" the application ");
            lemma_text_quiet(l1);
            lemma_text_quiet(l2);
            lemma_text_quiet(l3);
            let q = debug_text(application);
            lemma_debug_quiet(application, debug_text(application));
            assert((l1).last() == ' ');
            lemma_quiet_join(l1, app_id);
            lemma_quiet_join(l1 + app_id, l2);
            assert((l1 + app_id + l2).last() == ' ');
            lemma_quiet_join(l1 + app_id + l2, h);
            lemma_quiet_join(l1 + app_id + l2 + h, l3);
            lemma_quiet_join(l1 + app_id + l2 + h + l3, q);
            assert(jumplist_note(a) == l1 + app_id + l2 + h + l3 + q);
        },
    }
}

/// The tracker note names the machine: a plain machine ID appears in it as
/// written.
pub(crate) proof fn lemma_tracker_note_names_machine(machine_id: Seq<char>)
    requires
        debug_text(machine_id) == quoted(machine_id),
    ensures
        contains_text(lnk_note(LnkAnomalyView::TrackerMachine { machine_id }), machine_id),
{
    let l1 = "the tracker block records the origin machine "@;
    let n = lnk_note(LnkAnomalyView::TrackerMachine { machine_id });
    let i = l1.len() + 1int;
    assert(n.subrange(i, i + machine_id.len()) =~= machine_id);
}

/// The network note names the share: the net name appears in it as written.
pub(crate) proof fn lemma_network_note_names_share(net_name: Seq<char>)
    ensures
        contains_text(lnk_note(LnkAnomalyView::NetworkTarget { net_name: Some(net_name) }), net_name),
{
    let pre = "the link carries a network relative link"@ + " to "@;
    let n = lnk_note(LnkAnomalyView::NetworkTarget { net_name: Some(net_name) });
    let i = pre.len() as int;
    assert(n.subrange(i, i + net_name.len()) =~= net_name);
}

} // verus!

//! Texts and marks the panel's views derive from their data: account
//! badges, release-news dates and read state, the peak-range input check,
//! the selected poll interval and the filling of caption templates.

use vstd::prelude::*;
use vstd::utf8::{encode_utf8, is_char_boundary};

use crate::chars::{chars_of, opt_str_view, string_of};
use crate::panel::{Hit, Platform};
use crate::peak::{decimal, parse_clock, parse_hhmm, push_decimal, trim};

verus! {

/// Appends the characters of `tail` to `out`.
fn append(out: &mut Vec<char>, tail: &Vec<char>)
    ensures
        final(out)@ == old(out)@ + tail@,
{
    let ghost base = out@;
    let mut i: usize = 0;
    while i < tail.len()
        invariant
            i <= tail@.len(),
            out@ == base + tail@.take(i as int),
        decreases tail@.len() - i,
    {
        out.push(tail[i]);
        i = i + 1;
        assert(out@ =~= base + tail@.take(i as int));
    }
    assert(tail@.take(tail@.len() as int) =~= tail@);
}

// ── Account badges ─────────────────────────────────────────────────

/// The platform badge of an account: the platform's name, followed by
/// `sep` and the team badge for a team account.
pub open spec fn badge_text(
    platform: Platform,
    team: bool,
    cn: Seq<char>,
    intl: Seq<char>,
    team_badge: Seq<char>,
    sep: Seq<char>,
) -> Seq<char> {
    let name = match platform {
        Platform::Cn => cn,
        Platform::Intl => intl,
    };
    if team {
        name + sep + team_badge
    } else {
        name
    }
}

/// The platform badge shown on account rows and the account card, with
/// the localized platform names `cn` and `intl`.
pub fn platform_badge(
    platform: Platform,
    team: bool,
    cn: &str,
    intl: &str,
    team_badge: &str,
    sep: &str,
) -> (r: String)
    ensures
        r@ == badge_text(platform, team, cn@, intl@, team_badge@, sep@),
{
    let mut out = match platform {
        Platform::Cn => chars_of(cn),
        Platform::Intl => chars_of(intl),
    };
    if team {
        append(&mut out, &chars_of(sep));
        append(&mut out, &chars_of(team_badge));
    }
    string_of(out.as_slice())
}

/// The key badge of an account row: the key's first four characters
/// (fewer when it is shorter) and an ellipsis; none for an empty key.
pub open spec fn key_badge(key: Seq<char>) -> Option<Seq<char>> {
    if key.len() == 0 {
        None
    } else {
        Some(key.take(if key.len() < 4 { key.len() as int } else { 4 }).push('\u{2026}'))
    }
}

/// The key-prefix badge of an account row.
pub fn key_prefix_label(key: &str) -> (r: Option<String>)
    ensures
        match r {
            Some(s) => key_badge(key@) == Some(s@),
            None => key_badge(key@) is None,
        },
{
    let k = chars_of(key);
    if k.len() == 0 {
        return None;
    }
    let n: usize = if k.len() < 4 { k.len() } else { 4 };
    let mut out: Vec<char> = Vec::new();
    let mut i: usize = 0;
    while i < n
        invariant
            n <= k@.len(),
            i <= n,
            out@ == k@.take(i as int),
        decreases n - i,
    {
        out.push(k[i]);
        i = i + 1;
        assert(out@ =~= k@.take(i as int));
    }
    out.push('\u{2026}');
    Some(string_of(out.as_slice()))
}

// ── Release news ───────────────────────────────────────────────────

/// Strict byte-wise lexicographic order, the order of `str`.
pub open spec fn bytes_less(a: Seq<u8>, b: Seq<u8>) -> bool
    decreases a.len(),
{
    if b.len() == 0 {
        false
    } else if a.len() == 0 {
        true
    } else if a[0] != b[0] {
        a[0] < b[0]
    } else {
        bytes_less(a.drop_first(), b.drop_first())
    }
}

/// An entry is unread when nothing was read yet or its date sorts after
/// the date of the last entry read.
pub open spec fn unread(date: Seq<char>, last_read: Option<Seq<char>>) -> bool {
    match last_read {
        Some(r) => bytes_less(encode_utf8(r), encode_utf8(date)),
        None => true,
    }
}

/// `a < b` on bytes.
fn bytes_lt(a: &[u8], b: &[u8]) -> (r: bool)
    ensures
        r == bytes_less(a@, b@),
{
    let mut i: usize = 0;
    assert(a@.skip(0) =~= a@);
    assert(b@.skip(0) =~= b@);
    while i < a.len() && i < b.len() && a[i] == b[i]
        invariant
            i <= a@.len(),
            i <= b@.len(),
            bytes_less(a@, b@) == bytes_less(a@.skip(i as int), b@.skip(i as int)),
        decreases a@.len() - i,
    {
        assert(a@.skip(i as int).drop_first() =~= a@.skip(i + 1));
        assert(b@.skip(i as int).drop_first() =~= b@.skip(i + 1));
        i = i + 1;
    }
    if i == b.len() {
        false
    } else if i == a.len() {
        true
    } else {
        assert(a@.skip(i as int)[0] == a@[i as int]);
        assert(b@.skip(i as int)[0] == b@[i as int]);
        a[i] < b[i]
    }
}

/// Whether a release-news entry dated `date` is unread, given the date of
/// the last entry read.
pub fn news_unread(date: &str, last_read: Option<&str>) -> (r: bool)
    ensures
        r == unread(
            date@,
            opt_str_view(last_read),
        ),
{
    match last_read {
        Some(l) => bytes_lt(l.as_bytes(), date.as_bytes()),
        None => true,
    }
}

/// The date column of a news entry: `MM-DD` from a `YYYY-MM-DD` date, that
/// is the last five bytes of a ten-byte date split on a character
/// boundary; any other date is shown whole.
pub fn news_date_label(date: &str) -> (r: &str)
    ensures
        date.len() == 10 && is_char_boundary(encode_utf8(date@), 5) ==> encode_utf8(r@)
            == encode_utf8(date@).skip(5),
        !(date.len() == 10 && is_char_boundary(encode_utf8(date@), 5)) ==> r@ == date@,
{
    if date.len() == 10 && date.is_char_boundary(5) {
        let (_, tail) = date.split_at(5);
        tail
    } else {
        date
    }
}

// ── Settings inputs ────────────────────────────────────────────────

/// A peak-range buffer is bad when it holds text that is no clock time.
pub open spec fn bad_clock(buf: Seq<char>) -> bool {
    buf.len() > 0 && parse_clock(trim(buf)) is None
}

/// The peak-range inputs get a red frame when either holds a bad time, or
/// both hold the same time; empty buffers are not judged.
pub open spec fn peak_inputs_bad(start: Seq<char>, end: Seq<char>) -> bool {
    ||| bad_clock(start)
    ||| bad_clock(end)
    ||| (parse_clock(trim(start)) is Some && parse_clock(trim(start)) == parse_clock(trim(end)))
}

/// Whether the peak-range inputs, as typed, are invalid.
pub fn peak_input_bad(start: &str, end: &str) -> (r: bool)
    ensures
        r == peak_inputs_bad(start@, end@),
{
    let s = parse_hhmm(start);
    let e = parse_hhmm(end);
    let bad_start = !start.is_empty() && s.is_none();
    let bad_end = !end.is_empty() && e.is_none();
    bad_start || bad_end || match (s, e) {
        (Some(a), Some(b)) => a == b,
        _ => false,
    }
}

/// The preset poll intervals, in seconds: 1, 5, 15 and 30 minutes.
pub open spec fn is_preset(secs: u64) -> bool {
    secs == 60 || secs == 300 || secs == 900 || secs == 1800
}

/// Whether `secs` is one of the preset poll intervals.
pub fn is_interval_preset(secs: u64) -> (r: bool)
    ensures
        r == is_preset(secs),
{
    secs == 60 || secs == 300 || secs == 900 || secs == 1800
}

/// Whether a segment of the poll-interval control shows as selected for
/// the current interval `cur`: its preset when it matches, the customize
/// segment when no preset does.
pub fn interval_selected(hit: Hit, cur: u64) -> (r: bool)
    ensures
        r == match hit {
            Hit::IntervalPreset(v) => v == cur,
            Hit::CustomizeInterval => !is_preset(cur),
            _ => false,
        },
{
    match hit {
        Hit::IntervalPreset(v) => v == cur,
        Hit::CustomizeInterval => !is_interval_preset(cur),
        _ => false,
    }
}

// ── Caption templates ──────────────────────────────────────────────

/// `s` with each occurrence of `key` replaced by `value`, occurrences
/// taken from the left and not overlapping, as `str::replace` does. An
/// empty key occurs before every character and at the end.
pub open spec fn replaced(s: Seq<char>, key: Seq<char>, value: Seq<char>) -> Seq<char>
    decreases s.len(),
{
    if s.len() == 0 {
        if key.len() == 0 {
            value
        } else {
            Seq::empty()
        }
    } else if key.len() == 0 {
        value + seq![s[0]] + replaced(s.drop_first(), key, value)
    } else if key.len() > 0 && key.len() <= s.len() && s.take(key.len() as int) == key {
        value + replaced(s.skip(key.len() as int), key, value)
    } else {
        seq![s[0]] + replaced(s.drop_first(), key, value)
    }
}

/// Whether `key` occurs in `t` at `i`.
fn occurs_at_index(t: &Vec<char>, i: usize, key: &Vec<char>) -> (r: bool)
    requires
        i <= t@.len(),
    ensures
        r == (key@.len() <= t@.len() - i && t@.skip(i as int).take(key@.len() as int) == key@),
{
    let k = key.len();
    let n = t.len();
    if k > n - i {
        return false;
    }
    let mut j: usize = 0;
    while j < k
        invariant
            k == key@.len(),
            n == t@.len(),
            i <= t@.len(),
            k <= t@.len() - i,
            j <= k,
            forall|q: int| 0 <= q < j ==> t@[i + q] == key@[q],
        decreases k - j,
    {
        if t[i + j] != key[j] {
            assert(t@.skip(i as int).take(k as int)[j as int] != key@[j as int]);
            return false;
        }
        j = j + 1;
    }
    assert(t@.skip(i as int).take(k as int) =~= key@);
    true
}

/// Fills a caption template: every `key` in `template` becomes `value`.
pub fn fill_placeholder(template: &str, key: &str, value: &str) -> (r: String)
    ensures
        r@ == replaced(template@, key@, value@),
{
    let t = chars_of(template);
    let k = chars_of(key);
    let v = chars_of(value);
    let mut out: Vec<char> = Vec::new();
    let mut i: usize = 0;
    assert(t@.skip(0) =~= t@);
    while i < t.len()
        invariant
            t@ == template@,
            k@ == key@,
            v@ == value@,
            i <= t@.len(),
            out@ + replaced(t@.skip(i as int), k@, v@) == replaced(t@, k@, v@),
        decreases t@.len() - i,
    {
        let ghost rest = t@.skip(i as int);
        let ghost before = out@;
        if k.len() == 0 {
            assert(rest[0] == t@[i as int]);
            assert(rest.drop_first() =~= t@.skip(i + 1));
            append(&mut out, &v);
            out.push(t[i]);
            i = i + 1;
            assert(out@ + replaced(t@.skip(i as int), k@, v@) =~= before + replaced(rest, k@, v@));
        } else if occurs_at_index(&t, i, &k) {
            assert(rest.skip(k@.len() as int) =~= t@.skip(i + k@.len()));
            assert(replaced(rest, k@, v@) == v@ + replaced(rest.skip(k@.len() as int), k@, v@));
            append(&mut out, &v);
            i = i + k.len();
            assert(out@ + replaced(t@.skip(i as int), k@, v@) =~= before + replaced(rest, k@, v@));
        } else {
            assert(rest[0] == t@[i as int]);
            assert(rest.drop_first() =~= t@.skip(i + 1));
            assert(replaced(rest, k@, v@) == seq![rest[0]] + replaced(rest.drop_first(), k@, v@));
            out.push(t[i]);
            i = i + 1;
            assert(out@ + replaced(t@.skip(i as int), k@, v@) =~= before + replaced(rest, k@, v@));
        }
    }
    assert(t@.skip(i as int) =~= Seq::<char>::empty());
    if k.len() == 0 {
        let ghost before = out@;
        append(&mut out, &v);
        assert(out@ =~= before + replaced(t@.skip(i as int), k@, v@));
    } else {
        assert(out@ + replaced(t@.skip(i as int), k@, v@) =~= out@);
    }
    string_of(out.as_slice())
}

/// The usage-alert caption: `{p}` in the template becomes the threshold
/// percentage in decimal.
pub fn threshold_caption(template: &str, percent: u8) -> (r: String)
    ensures
        r@ == replaced(template@, seq!['{', 'p', '}'], decimal(percent as nat)),
{
    let mut key: Vec<char> = Vec::new();
    key.push('{');
    key.push('p');
    key.push('}');
    let mut digits: Vec<char> = Vec::new();
    push_decimal(&mut digits, percent as u32);
    assert(key@ =~= seq!['{', 'p', '}']);
    assert(digits@ =~= decimal(percent as nat));
    let key_s = string_of(key.as_slice());
    let digits_s = string_of(digits.as_slice());
    fill_placeholder(template, key_s.as_str(), digits_s.as_str())
}

} // verus!

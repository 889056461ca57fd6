//! Peak-hour rules: weekday minute ranges, `HH:MM` parsing and display.

use vstd::prelude::*;
use chrono::{Datelike, FixedOffset, Timelike};

use crate::chars::{chars_of, string_of};

verus! {

/// A local wall-clock reading: ISO weekday number (Monday = 1 … Sunday
/// = 7), hour and minute.
#[derive(Debug, Clone, Copy, PartialEq, Eq)]
pub struct WallClock {
    pub weekday: u32,
    pub hour: u32,
    pub minute: u32,
}

/// A minute range within a day, `[start, end)`; `start > end` wraps past
/// midnight.
pub type PeakRange = (u32, u32);

/// The official peak window, 14:00–18:00.
pub const DEFAULT_PEAK: PeakRange = (840, 1080);

/// Whether minute-of-day `minute` on ISO weekday `weekday` (Monday = 1)
/// is in `range`: only Monday to Friday, half-open (so empty when start
/// and end are equal), wrapping past midnight only when the start is after
/// the end.
pub open spec fn peak_at(weekday: u32, minute: u32, range: PeakRange) -> bool {
    1 <= weekday <= 5 && if range.0 <= range.1 {
        range.0 <= minute < range.1
    } else {
        minute >= range.0 || minute < range.1
    }
}

/// Peak test on a weekday number (Monday = 1) and a minute of the day.
pub fn is_peak_at(weekday: u32, minute: u32, range: PeakRange) -> (r: bool)
    ensures
        r == peak_at(weekday, minute, range),
{
    if !(1 <= weekday && weekday <= 5) {
        return false;
    }
    let (s, e) = range;
    if s <= e {
        s <= minute && minute < e
    } else {
        minute >= s || minute < e
    }
}

/// Peak test for a wall-clock reading: Monday to Friday, minute of the
/// day within `range` (half-open, wrapping past midnight when
/// `start > end`).
pub fn is_peak(now: WallClock, range: PeakRange) -> (r: bool)
    requires
        now.hour < 24,
        now.minute < 60,
    ensures
        r == peak_at(now.weekday, (now.hour * 60 + now.minute) as u32, range),
{
    let minute = now.hour * 60 + now.minute;
    is_peak_at(now.weekday, minute, range)
}

/// The current local time (`chrono::Local::now`) seen at a fixed offset of
/// `offset_secs` east of UTC (`FixedOffset::east_opt`, which accepts
/// `|offset_secs| < 86400`), read as weekday number, hour and minute.
/// Depends on the clock: only the documented ranges of chrono's
/// `number_from_monday`, `hour` and `minute` are stated.
#[verifier::external_body]
fn wall_clock_now(offset_secs: i32) -> (w: WallClock)
    requires
        -86400 < offset_secs < 86400,
    ensures
        1 <= w.weekday <= 7,
        w.hour < 24,
        w.minute < 60,
{
    let offset = FixedOffset::east_opt(offset_secs).unwrap();
    let now = chrono::Local::now().with_timezone(&offset);
    WallClock { weekday: now.weekday().number_from_monday(), hour: now.hour(), minute: now.minute() }
}

/// Beijing time offset: UTC+8, in seconds.
pub const BEIJING_OFFSET_SECS: i32 = 28800;

/// Whether the current Beijing time is a peak time.
pub fn is_peak_now(range: PeakRange) -> (r: bool)
    ensures
        exists|wd: u32, m: u32| 1 <= wd <= 7 && m < 1440 && r == peak_at(wd, m, range),
{
    let now = wall_clock_now(BEIJING_OFFSET_SECS);
    let r = is_peak(now, range);
    assert(1 <= now.weekday <= 7 && ((now.hour * 60 + now.minute) as u32) < 1440 && r == peak_at(
        now.weekday,
        (now.hour * 60 + now.minute) as u32,
        range,
    ));
    r
}

// ── HH:MM parsing ──────────────────────────────────────────────

/// Whether `c` has the Unicode `White_Space` property: U+0009–U+000D,
/// U+0020, U+0085, U+00A0, U+1680, U+2000–U+200A, U+2028, U+2029, U+202F,
/// U+205F and U+3000.
pub open spec fn is_whitespace(c: char) -> bool {
    let u = c as u32;
    ||| 0x09 <= u <= 0x0D
    ||| u == 0x20
    ||| u == 0x85
    ||| u == 0xA0
    ||| u == 0x1680
    ||| 0x2000 <= u <= 0x200A
    ||| u == 0x2028
    ||| u == 0x2029
    ||| u == 0x202F
    ||| u == 0x205F
    ||| u == 0x3000
}

/// `char::is_whitespace`, which its documentation defines as the Unicode
/// `White_Space` property.
#[verifier::external_body]
fn char_is_whitespace(c: char) -> (b: bool)
    ensures
        b == is_whitespace(c),
{
    c.is_whitespace()
}

/// `s` without leading whitespace.
pub open spec fn trim_start(s: Seq<char>) -> Seq<char>
    decreases s.len(),
{
    if s.len() > 0 && is_whitespace(s[0]) {
        trim_start(s.drop_first())
    } else {
        s
    }
}

/// `s` without trailing whitespace.
pub open spec fn trim_end(s: Seq<char>) -> Seq<char>
    decreases s.len(),
{
    if s.len() > 0 && is_whitespace(s.last()) {
        trim_end(s.drop_last())
    } else {
        s
    }
}

/// `s` without leading and trailing whitespace (`str::trim`).
pub open spec fn trim(s: Seq<char>) -> Seq<char> {
    trim_end(trim_start(s))
}

/// Index of the first `c` in `s`.
pub open spec fn first_index(s: Seq<char>, c: char) -> Option<int>
    decreases s.len(),
{
    if s.len() == 0 {
        None
    } else if s[0] == c {
        Some(0)
    } else {
        match first_index(s.drop_first(), c) {
            Some(i) => Some(i + 1),
            None => None,
        }
    }
}

/// An ASCII decimal digit.
pub open spec fn is_digit(c: char) -> bool {
    '0' <= c <= '9'
}

/// The value of an ASCII digit.
pub open spec fn digit_value(c: char) -> int {
    (c as int) - ('0' as int)
}

/// The decimal value of a run of digits (0 when empty).
pub open spec fn decimal_value(d: Seq<char>) -> int
    decreases d.len(),
{
    if d.len() == 0 {
        0
    } else {
        decimal_value(d.drop_last()) * 10 + digit_value(d.last())
    }
}

/// `t` without one leading `+`.
pub open spec fn unsigned_digits(t: Seq<char>) -> Seq<char> {
    if t.len() > 0 && t[0] == '+' {
        t.drop_first()
    } else {
        t
    }
}

/// Every character of `d` is an ASCII digit.
pub open spec fn all_digits(d: Seq<char>) -> bool {
    forall|i: int| 0 <= i < d.len() ==> is_digit(#[trigger] d[i])
}

/// `u32::from_str`: an optional `+` followed by at least one ASCII digit,
/// with a value that fits in `u32`.
pub open spec fn parse_u32(t: Seq<char>) -> Option<u32> {
    let d = unsigned_digits(t);
    if d.len() > 0 && all_digits(d) && decimal_value(d) <= u32::MAX {
        Some(decimal_value(d) as u32)
    } else {
        None
    }
}

/// `H:M` (no surrounding whitespace) as minutes of the day: both parts
/// parse as `u32`, split at the first `:`, with hours below 24 and minutes
/// below 60.
pub open spec fn parse_clock(t: Seq<char>) -> Option<u32> {
    match first_index(t, ':') {
        None => None,
        Some(i) => match (parse_u32(t.take(i)), parse_u32(t.skip(i + 1))) {
            (Some(h), Some(m)) => if h < 24 && m < 60 {
                Some((h * 60 + m) as u32)
            } else {
                None
            },
            _ => None,
        },
    }
}

/// The characters of `s` with leading and trailing whitespace removed.
fn trimmed(s: &str) -> (r: Vec<char>)
    ensures
        r@ == trim(s@),
{
    let v = chars_of(s);
    let mut start: usize = 0;
    assert(v@.skip(0) =~= v@);
    while start < v.len() && char_is_whitespace(v[start])
        invariant
            start <= v@.len(),
            trim_start(v@) == trim_start(v@.skip(start as int)),
        decreases v@.len() - start,
    {
        assert(v@.skip(start as int).drop_first() =~= v@.skip(start + 1));
        start = start + 1;
    }
    proof {
        if start < v@.len() {
            assert(v@.skip(start as int)[0] == v@[start as int]);
        } else {
            assert(v@.skip(start as int) =~= Seq::<char>::empty());
        }
    }
    let mut end: usize = v.len();
    assert(v@.subrange(start as int, end as int) =~= v@.skip(start as int));
    while end > start && char_is_whitespace(v[end - 1])
        invariant
            start <= end <= v@.len(),
            trim_end(trim_start(v@)) == trim_end(v@.subrange(start as int, end as int)),
        decreases end,
    {
        assert(v@.subrange(start as int, end as int).drop_last() =~= v@.subrange(start as int, end - 1));
        end = end - 1;
    }
    let mut r: Vec<char> = Vec::new();
    let mut i = start;
    while i < end
        invariant
            start <= i <= end <= v@.len(),
            r@ == v@.subrange(start as int, i as int),
        decreases end - i,
    {
        r.push(v[i]);
        i = i + 1;
        assert(r@ =~= v@.subrange(start as int, i as int));
    }
    proof {
        let t = v@.subrange(start as int, end as int);
        if end > start {
            assert(t.last() == v@[end - 1]);
        }
        assert(t.len() == 0 || !is_whitespace(t.last()));
        assert(trim_end(t) == t);
    }
    r
}

/// `u32::from_str` on `t[from..to]`.
fn parse_u32_range(t: &Vec<char>, from: usize, to: usize) -> (r: Option<u32>)
    requires
        from <= to <= t@.len(),
    ensures
        r == parse_u32(t@.subrange(from as int, to as int)),
{
    let ghost whole = t@.subrange(from as int, to as int);
    let mut i = from;
    if i < to && t[i] == '+' {
        i = i + 1;
    }
    let ghost d = t@.subrange(i as int, to as int);
    let ghost dd = unsigned_digits(whole);
    assert(d =~= dd);
    if i == to {
        assert(dd.len() == 0);
        return None;
    }
    let start = i;
    let mut val: u64 = 0;
    let mut over = false;
    while i < to
        invariant
            from <= start <= i <= to <= t@.len(),
            d == t@.subrange(start as int, to as int),
            d == dd,
            whole == t@.subrange(from as int, to as int),
            dd == unsigned_digits(whole),
            forall|k: int| start <= k < i ==> is_digit(#[trigger] t@[k]),
            !over ==> val == decimal_value(t@.subrange(start as int, i as int)) && val <= u32::MAX,
            over ==> decimal_value(t@.subrange(start as int, i as int)) > u32::MAX,
        decreases to - i,
    {
        let c = t[i];
        if !('0' <= c && c <= '9') {
            assert(!is_digit(d[i - start]));
            assert(!all_digits(dd));
            return None;
        }
        let ghost pre = t@.subrange(start as int, i as int);
        assert(t@.subrange(start as int, i + 1).drop_last() =~= pre);
        assert(t@.subrange(start as int, i + 1).last() == c);
        if !over {
            let dv = (c as u32 - '0' as u32) as u64;
            val = val * 10 + dv;
            if val > 4294967295 {
                over = true;
            }
        }
        i = i + 1;
    }
    assert(t@.subrange(start as int, i as int) =~= d);
    assert forall|k: int| 0 <= k < d.len() implies is_digit(#[trigger] d[k]) by {
        assert(d[k] == t@[start + k]);
    }
    if over {
        None
    } else {
        Some(val as u32)
    }
}

/// Parses `HH:MM` (surrounding whitespace allowed) into minutes of the
/// day; hours must be below 24 and minutes below 60.
pub fn parse_hhmm(s: &str) -> (r: Option<u32>)
    ensures
        r == parse_clock(trim(s@)),
{
    let t = trimmed(s);
    let mut i: usize = 0;
    assert(t@.skip(0) =~= t@);
    while i < t.len() && t[i] != ':'
        invariant
            i <= t@.len(),
            first_index(t@, ':') == match first_index(t@.skip(i as int), ':') {
                Some(k) => Some(k + i),
                None => None,
            },
        decreases t@.len() - i,
    {
        assert(t@.skip(i as int).drop_first() =~= t@.skip(i + 1));
        i = i + 1;
    }
    if i == t.len() {
        assert(t@.skip(i as int) =~= Seq::<char>::empty());
        return None;
    }
    assert(t@.skip(i as int)[0] == ':');
    assert(t@.take(i as int) =~= t@.subrange(0, i as int));
    assert(t@.skip(i + 1) =~= t@.subrange(i + 1, t@.len() as int));
    let h = match parse_u32_range(&t, 0, i) {
        Some(h) => h,
        None => {
            return None;
        },
    };
    let m = match parse_u32_range(&t, i + 1, t.len()) {
        Some(m) => m,
        None => {
            return None;
        },
    };
    if h < 24 && m < 60 {
        Some(h * 60 + m)
    } else {
        None
    }
}

// ── Display ────────────────────────────────────────────────────

/// The ASCII digit for `d` (below 10).
pub open spec fn digit_char(d: int) -> char {
    (d + 48) as char
}

/// Decimal digits of `n`, without leading zeros.
pub open spec fn decimal(n: nat) -> Seq<char>
    decreases n,
{
    if n < 10 {
        seq![digit_char(n as int)]
    } else {
        decimal(n / 10).push(digit_char((n % 10) as int))
    }
}

/// Decimal digits of `n`, zero-padded to at least two (`{:02}`).
pub open spec fn two_digits(n: nat) -> Seq<char> {
    if n < 10 {
        seq!['0', digit_char(n as int)]
    } else {
        decimal(n)
    }
}

/// Minutes `t` shown as `HH:MM` (hours are `t / 60`, not wrapped).
pub open spec fn hhmm(t: u32) -> Seq<char> {
    two_digits((t / 60) as nat) + seq![':'] + two_digits((t % 60) as nat)
}

/// A range shown as `HH:MM–HH:MM` (en dash).
pub open spec fn range_text(range: PeakRange) -> Seq<char> {
    hhmm(range.0) + seq!['\u{2013}'] + hhmm(range.1)
}

/// The ASCII digit for `d`.
fn digit(d: u32) -> (c: char)
    requires
        d < 10,
    ensures
        c == digit_char(d as int),
{
    ((d as u8) + 48) as char
}

/// Appends the decimal digits of `n`.
pub(crate) fn push_decimal(out: &mut Vec<char>, n: u32)
    ensures
        final(out)@ == old(out)@ + decimal(n as nat),
    decreases n,
{
    if n >= 10 {
        push_decimal(out, n / 10);
    }
    out.push(digit(n % 10));
    proof {
        if n >= 10 {
            assert(decimal(n as nat) == decimal((n / 10) as nat).push(digit_char((n % 10) as int)));
        } else {
            assert(decimal(n as nat) == seq![digit_char(n as int)]);
        }
    }
    assert(final(out)@ =~= old(out)@ + decimal(n as nat));
}

/// Appends `n` zero-padded to two digits.
fn push_two_digits(out: &mut Vec<char>, n: u32)
    ensures
        final(out)@ == old(out)@ + two_digits(n as nat),
{
    if n < 10 {
        out.push('0');
        out.push(digit(n));
        assert(final(out)@ =~= old(out)@ + two_digits(n as nat));
    } else {
        push_decimal(out, n);
    }
}

/// Appends `t` as `HH:MM`.
fn push_hhmm(out: &mut Vec<char>, t: u32)
    ensures
        final(out)@ == old(out)@ + hhmm(t),
{
    push_two_digits(out, t / 60);
    out.push(':');
    push_two_digits(out, t % 60);
    assert(final(out)@ =~= old(out)@ + hhmm(t));
}

/// The range shown as `HH:MM–HH:MM`.
pub fn fmt_range(range: PeakRange) -> (s: String)
    ensures
        s@ == range_text(range),
{
    let mut out: Vec<char> = Vec::new();
    push_hhmm(&mut out, range.0);
    out.push('\u{2013}');
    push_hhmm(&mut out, range.1);
    assert(out@ =~= range_text(range));
    string_of(out.as_slice())
}

proof fn lemma_digit_char(x: int)
    requires
        0 <= x < 10,
    ensures
        is_digit(digit_char(x)),
        digit_value(digit_char(x)) == x,
        digit_char(x) != ':',
        digit_char(x) != '+',
{
    assert((x + 48) as char as int == x + 48);
}

/// Two-digit values print as exactly two digits and read back.
proof fn lemma_two_digits(n: nat)
    requires
        n < 100,
    ensures
        two_digits(n) == seq![digit_char((n / 10) as int), digit_char((n % 10) as int)],
        all_digits(two_digits(n)),
        decimal_value(two_digits(n)) == n,
        unsigned_digits(two_digits(n)) == two_digits(n),
{
    lemma_digit_char((n / 10) as int);
    lemma_digit_char((n % 10) as int);
    if n < 10 {
        assert(digit_char(0) == '0') by {
            assert(48int as char == '0');
        }
    } else {
        assert(decimal(n / 10) == seq![digit_char((n / 10) as int)]);
        assert(decimal(n) =~= seq![digit_char((n / 10) as int), digit_char((n % 10) as int)]);
    }
    let d = two_digits(n);
    assert(d.drop_last() =~= seq![digit_char((n / 10) as int)]);
    assert(d.drop_last().drop_last() =~= Seq::<char>::empty());
    assert(decimal_value(d.drop_last().drop_last()) == 0);
    assert(decimal_value(d.drop_last()) == (n / 10) as int);
    assert(decimal_value(d) == (n / 10) as int * 10 + (n % 10) as int);
}

/// Saturdays and Sundays are never peak time, whatever the range and the
/// time of day.
pub proof fn law_weekends_never_peak(weekday: u32, minute: u32, range: PeakRange)
    requires
        weekday == 6 || weekday == 7,
    ensures
        !peak_at(weekday, minute, range),
{
}

/// Round trip: every minute of the day is shown as five characters
/// `HH:MM` that `parse_hhmm` (trimming, then reading the clock) reads back
/// as the same minute.
pub proof fn law_hhmm_roundtrip(t: u32)
    requires
        t < 1440,
    ensures
        hhmm(t).len() == 5,
        trim(hhmm(t)) == hhmm(t),
        parse_clock(trim(hhmm(t))) == Some(t),
{
    let h = (t / 60) as nat;
    let m = (t % 60) as nat;
    lemma_two_digits(h);
    lemma_two_digits(m);
    let s = hhmm(t);
    let hs = two_digits(h);
    let ms = two_digits(m);
    assert(s =~= hs + seq![':'] + ms);
    assert(s[0] != ':' && s[1] != ':' && s[2] == ':');
    assert(s.drop_first().drop_first()[0] == ':');
    assert(first_index(s.drop_first().drop_first(), ':') == Some(0int));
    assert(first_index(s.drop_first(), ':') == Some(1int));
    assert(first_index(s, ':') == Some(2int));
    assert(s.take(2) =~= hs);
    assert(s.skip(3) =~= ms);
    assert(s.len() == 5);
    lemma_digit_char((h / 10) as int);
    lemma_digit_char((m % 10) as int);
    assert(s[0] == digit_char((h / 10) as int));
    assert(s[4] == digit_char((m % 10) as int));
    assert(!is_whitespace(s[0]));
    assert(!is_whitespace(s.last()));
    assert(trim_start(s) == s);
    assert(trim_end(s) == s);
}

/// A range shown by `fmt_range` splits at its dash into two five-character
/// halves that `parse_hhmm` reads back as the range's start and end.
pub proof fn law_fmt_range_roundtrip(start: u32, end: u32)
    requires
        start < 1440,
        end < 1440,
    ensures
        range_text((start, end)).len() == 11,
        range_text((start, end))[5] == '\u{2013}',
        range_text((start, end)).take(5) == hhmm(start),
        range_text((start, end)).skip(6) == hhmm(end),
        parse_clock(trim(range_text((start, end)).take(5))) == Some(start),
        parse_clock(trim(range_text((start, end)).skip(6))) == Some(end),
{
    law_hhmm_roundtrip(start);
    law_hhmm_roundtrip(end);
    let f = range_text((start, end));
    assert(f.take(5) =~= hhmm(start));
    assert(f.skip(6) =~= hhmm(end));
}

} // verus!

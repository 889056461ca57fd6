//! Heights of the about window and the account popup, and the small text
//! helpers of the panel views: key masking, error captions, the plan
//! subtitle, the tier badge shade and the runs of the MCP usage bar.

use vstd::prelude::*;

use crate::chars::{char_count, chars_of, opt_str_view, opt_view, string_of};
use crate::layout::saturate_i32;

verus! {

/// One release-news entry shown in the about window.
#[derive(Debug, Clone)]
pub struct NewsItem {
    pub date: String,
    pub title: String,
    pub lines: Vec<String>,
}

/// At most this many news entries are listed.
pub const NEWS_MAX: usize = 3;
/// Height of a folded entry: title 18 + summary 15 + gap 7.
pub const NEWS_FOLD_H: u64 = 40;
/// Gap between entries.
pub const NEWS_GAP: u64 = 6;
/// Body line height of an expanded entry.
pub const NEWS_LINE_H: u64 = 16;
/// Top of the first entry.
pub const NEWS_TOP: u64 = 204;

/// Height of one entry: folded, or title 18 + body lines + bottom gap 10.
pub open spec fn news_item_h(lines: nat, expanded: bool) -> int {
    if expanded {
        18 + lines * NEWS_LINE_H + 10
    } else {
        NEWS_FOLD_H as int
    }
}

/// Heights of the first `k` entries, each followed by the entry gap.
pub open spec fn news_blocks_h(news: Seq<NewsItem>, expanded: Option<usize>, k: nat) -> int
    decreases k,
{
    if k == 0 {
        0
    } else {
        news_blocks_h(news, expanded, (k - 1) as nat) + news_item_h(
            news[k - 1].lines@.len(),
            expanded == Some((k - 1) as usize),
        ) + NEWS_GAP
    }
}

/// Logical height of the about window: 200 without news; otherwise the
/// listed entries (at most `NEWS_MAX`) below the fixed area, plus the list
/// tail gap 4 and bottom margin 24.
pub open spec fn about_h(news: Option<Seq<NewsItem>>, expanded: Option<usize>) -> int {
    match news {
        Some(n) if n.len() > 0 => saturate_i32(
            NEWS_TOP + news_blocks_h(n, expanded, if n.len() < NEWS_MAX { n.len() } else { NEWS_MAX as nat })
                + 4 + 24,
        ),
        _ => 200,
    }
}

/// Logical height of the about window for the given news and the index
/// of the expanded entry.
pub fn about_height(news: Option<&[NewsItem]>, expanded: Option<usize>) -> (h: i32)
    ensures
        h == about_h(
            match news {
                Some(n) => Some(n@),
                None => None,
            },
            expanded,
        ),
{
    let n = match news {
        Some(n) => n,
        None => {
            return 200;
        },
    };
    if n.len() == 0 {
        return 200;
    }
    let k = if n.len() < NEWS_MAX { n.len() } else { NEWS_MAX };
    let mut h: u128 = 0;
    let mut i: usize = 0;
    while i < k
        invariant
            k <= n@.len(),
            k <= NEWS_MAX,
            i <= k,
            h == news_blocks_h(n@, expanded, i as nat),
            h <= i * 0x100_0000_0000_0000_0000u128,
        decreases k - i,
    {
        let is_expanded = match expanded {
            Some(e) => e == i,
            None => false,
        };
        let lines = n[i].lines.len() as u128;
        assert(lines * 16 <= 16 * 0xffff_ffff_ffff_ffffu128) by (nonlinear_arith)
            requires
                lines <= 0xffff_ffff_ffff_ffffu128,
        ;
        let item: u128 = if is_expanded { 18 + lines * 16 + 10 } else { 40 };
        assert(h <= 2 * 0x100_0000_0000_0000_0000u128) by (nonlinear_arith)
            requires
                h <= i * 0x100_0000_0000_0000_0000u128,
                i < 3,
        ;
        assert(h + item + 6 <= (i + 1) * 0x100_0000_0000_0000_0000u128) by (nonlinear_arith)
            requires
                h <= i * 0x100_0000_0000_0000_0000u128,
                item <= 28 + 16 * 0xffff_ffff_ffff_ffffu128,
        ;
        h = h + item + 6;
        i = i + 1;
    }
    assert(h <= 3 * 0x100_0000_0000_0000_0000u128) by (nonlinear_arith)
        requires
            h <= i * 0x100_0000_0000_0000_0000u128,
            i <= 3,
    ;
    let total = 204 + h + 4 + 24;
    if total > i32::MAX as u128 {
        i32::MAX
    } else {
        total as i32
    }
}

/// Popup width in logical pixels.
pub const POPUP_W: i32 = 220;
/// Account row height in the popup.
pub const ROW_H: i32 = 36;

/// Logical height of the account popup: title area 36, one row per
/// account, bottom margin 12 (saturating at `i32::MAX`).
pub fn popup_height(accounts: usize) -> (h: i32)
    ensures
        h == saturate_i32(36 + accounts * 36 + 12),
{
    let a = accounts as u128;
    assert(a * 36 <= 36 * 0xffff_ffff_ffff_ffffu128) by (nonlinear_arith)
        requires
            a <= 0xffff_ffff_ffff_ffffu128,
    ;
    let total = 36 + a * 36 + 12;
    if total > i32::MAX as u128 {
        i32::MAX
    } else {
        total as i32
    }
}

// ── Key masking ────────────────────────────────────────────────────

/// The masking dot.
pub const DOT: char = '\u{2022}';
/// The ellipsis between the visible head and tail.
pub const ELLIPSIS: char = '\u{2026}';

/// The displayed form of an API key: while focused, or shorter than 12
/// characters, one dot per character; otherwise the first four and last
/// four characters around an ellipsis.
pub open spec fn masked(key: Seq<char>, active: bool) -> Seq<char> {
    let n = key.len();
    if active || n < 12 {
        Seq::new(n, |_i: int| DOT)
    } else {
        key.take(4) + seq![ELLIPSIS] + key.skip(n - 4)
    }
}

/// Masks an API key for display.
pub fn mask_key(key: &str, active: bool) -> (r: String)
    ensures
        r@ == masked(key@, active),
{
    let k = chars_of(key);
    let n = k.len();
    let mut out: Vec<char> = Vec::new();
    if active || n < 12 {
        let mut i: usize = 0;
        while i < n
            invariant
                i <= n,
                out@ == Seq::new(i as nat, |_j: int| DOT),
            decreases n - i,
        {
            out.push(DOT);
            i = i + 1;
            assert(out@ =~= Seq::new(i as nat, |_j: int| DOT));
        }
    } else {
        let mut i: usize = 0;
        while i < 4
            invariant
                i <= 4 <= n,
                n == k@.len(),
                out@ == k@.take(i as int),
            decreases 4 - i,
        {
            out.push(k[i]);
            i = i + 1;
            assert(out@ =~= k@.take(i as int));
        }
        out.push(ELLIPSIS);
        let mut j: usize = n - 4;
        while j < n
            invariant
                n - 4 <= j <= n,
                4 <= n,
                n == k@.len(),
                out@ == k@.take(4) + seq![ELLIPSIS] + k@.subrange(n - 4, j as int),
            decreases n - j,
        {
            out.push(k[j]);
            j = j + 1;
            assert(out@ =~= k@.take(4) + seq![ELLIPSIS] + k@.subrange(n - 4, j as int));
        }
        assert(k@.subrange(n - 4, n as int) =~= k@.skip(n - 4));
    }
    string_of(out.as_slice())
}

/// The mask never shows the middle of a key: each displayed character is
/// a dot, the ellipsis, or one of the first or last four characters; while
/// focused the display has one dot per character.
pub proof fn law_mask_key_hides_middle(key: Seq<char>, active: bool)
    ensures
        forall|i: int|
            0 <= i < masked(key, active).len() ==> {
                let c = #[trigger] masked(key, active)[i];
                ||| c == DOT
                ||| c == ELLIPSIS
                ||| exists|j: int| 0 <= j < key.len() && (j < 4 || j >= key.len() - 4) && key[j] == c
            },
        active ==> masked(key, active).len() == key.len(),
{
    let m = masked(key, active);
    let n = key.len() as int;
    if !(active || n < 12) {
        assert forall|i: int| 0 <= i < m.len() implies {
            let c = #[trigger] m[i];
            ||| c == DOT
            ||| c == ELLIPSIS
            ||| exists|j: int| 0 <= j < key.len() && (j < 4 || j >= key.len() - 4) && key[j] == c
        } by {
            if i < 4 {
                assert(m[i] == key[i]);
            } else if i > 4 {
                assert(m[i] == key[n - 4 + (i - 5)]);
            }
        }
    }
}

// ── Error captions ─────────────────────────────────────────────────

/// Why a usage fetch failed.
#[derive(Debug, Clone, PartialEq, Eq)]
pub enum FetchError {
    /// The key was rejected.
    Auth,
    /// The account has no quota limits.
    EmptyLimits,
    /// The API answered with an error; technical detail.
    Api(String),
    /// The request did not get through; technical detail.
    Network(String),
}

/// The localized captions of fetch errors.
pub struct Strings {
    pub err_auth: &'static str,
    pub err_empty: &'static str,
    pub err_api: &'static str,
    pub err_network: &'static str,
}

/// `prefix: detail`, or just the prefix when the detail is empty.
pub open spec fn detailed(prefix: Seq<char>, detail: Seq<char>) -> Seq<char> {
    if detail.len() == 0 {
        prefix
    } else {
        prefix + seq![':', ' '] + detail
    }
}

/// Joins a caption and a technical detail as `prefix: detail`; an empty
/// detail gives the caption alone.
pub fn with_detail(prefix: &str, detail: &str) -> (r: String)
    ensures
        r@ == detailed(prefix@, detail@),
{
    let mut out = chars_of(prefix);
    let d = chars_of(detail);
    if d.len() != 0 {
        out.push(':');
        out.push(' ');
        let mut i: usize = 0;
        let ghost base = out@;
        while i < d.len()
            invariant
                i <= d@.len(),
                out@ == base + d@.take(i as int),
            decreases d@.len() - i,
        {
            out.push(d[i]);
            i = i + 1;
            assert(out@ =~= base + d@.take(i as int));
        }
        assert(d@.take(d@.len() as int) =~= d@);
        assert(out@ =~= prefix@ + seq![':', ' '] + detail@);
    }
    string_of(out.as_slice())
}

/// The caption shown for a fetch error.
pub open spec fn error_caption(s: Strings, e: FetchError) -> Seq<char> {
    match e {
        FetchError::Auth => s.err_auth@,
        FetchError::EmptyLimits => s.err_empty@,
        FetchError::Api(d) => detailed(s.err_api@, d@),
        FetchError::Network(d) => detailed(s.err_network@, d@),
    }
}

/// Localized text for a fetch error; API and network errors carry their
/// technical detail.
pub fn error_text(s: &Strings, e: &FetchError) -> (r: String)
    ensures
        r@ == error_caption(*s, *e),
{
    match e {
        FetchError::Auth => string_of(chars_of(s.err_auth).as_slice()),
        FetchError::EmptyLimits => string_of(chars_of(s.err_empty).as_slice()),
        FetchError::Api(detail) => with_detail(s.err_api, detail.as_str()),
        FetchError::Network(detail) => with_detail(s.err_network, detail.as_str()),
    }
}

// ── Plan subtitle ──────────────────────────────────────────────────

/// The tier shown: the tier's own label, or the plan label when that is
/// empty.
pub open spec fn tier_shown(tier: Seq<char>, plan_label: Option<Seq<char>>) -> Seq<char> {
    if tier.len() > 0 {
        tier
    } else {
        match plan_label {
            Some(l) => l,
            None => Seq::empty(),
        }
    }
}

/// The subtitle under the account name: plan version and tier joined by
/// ` · `, whichever of them is not empty, or none.
pub open spec fn meta_line(version: Seq<char>, tier: Seq<char>) -> Option<Seq<char>> {
    if version.len() > 0 && tier.len() > 0 {
        Some(version + seq![' ', '\u{b7}', ' '] + tier)
    } else if version.len() > 0 {
        Some(version)
    } else if tier.len() > 0 {
        Some(tier)
    } else {
        None
    }
}

/// Appends the characters of `tail` to `out`.
fn push_all(out: &mut Vec<char>, tail: &Vec<char>)
    ensures
        final(out)@ == old(out)@ + tail@,
{
    let ghost base = out@;
    let mut i: usize = 0;
    while i < tail.len()
        invariant
            i <= tail@.len(),
            out@ == base + tail@.take(i as int),
        decreases tail@.len() - i,
    {
        out.push(tail[i]);
        i = i + 1;
        assert(out@ =~= base + tail@.take(i as int));
    }
    assert(tail@.take(tail@.len() as int) =~= tail@);
}

/// The subtitle of the main view's top bar from the plan version label,
/// the tier label and the plan label the tier falls back to.
pub fn plan_meta(version: &str, tier: &str, plan_label: Option<&str>) -> (r: Option<String>)
    ensures
        opt_view(r) == meta_line(
            version@,
            tier_shown(
                tier@,
                opt_str_view(plan_label),
            ),
        ),
{
    let v = chars_of(version);
    let t0 = chars_of(tier);
    let t = if t0.len() > 0 {
        t0
    } else {
        match plan_label {
            Some(l) => chars_of(l),
            None => Vec::new(),
        }
    };
    if v.len() > 0 && t.len() > 0 {
        let mut out = v;
        out.push(' ');
        out.push('\u{b7}');
        out.push(' ');
        push_all(&mut out, &t);
        Some(string_of(out.as_slice()))
    } else if v.len() > 0 {
        Some(string_of(v.as_slice()))
    } else if t.len() > 0 {
        Some(string_of(t.as_slice()))
    } else {
        None
    }
}

// ── Tier badge ─────────────────────────────────────────────────────

/// Shade of an account's tier badge: Max darkest, then Pro, others
/// lightest.
#[derive(Debug, Clone, Copy, PartialEq, Eq)]
pub enum TierShade {
    Max,
    Pro,
    Lite,
}

/// `c` with ASCII capitals made small; other characters unchanged.
pub open spec fn ascii_lower(c: char) -> char {
    if 'A' <= c <= 'Z' {
        ((c as u32) + 32) as char
    } else {
        c
    }
}

/// Whether `w` occurs in `s` at `i`, ignoring ASCII case in `s`.
pub open spec fn occurs_at(s: Seq<char>, w: Seq<char>, i: int) -> bool {
    &&& 0 <= i
    &&& i + w.len() <= s.len()
    &&& forall|k: int| 0 <= k < w.len() ==> ascii_lower(#[trigger] s[i + k]) == w[k]
}

/// Whether `w` occurs anywhere in `s`, ignoring ASCII case in `s`.
pub open spec fn occurs(s: Seq<char>, w: Seq<char>) -> bool {
    exists|i: int| occurs_at(s, w, i)
}

/// The shade for a tier label: `max` anywhere in it (in any ASCII case)
/// is Max, else `pro` is Pro, else Lite. Surrounding whitespace cannot
/// change the answer, as neither word holds any.
pub open spec fn shade_of(tier: Seq<char>) -> TierShade {
    if occurs(tier, word3(('m', 'a', 'x'))) {
        TierShade::Max
    } else if occurs(tier, word3(('p', 'r', 'o'))) {
        TierShade::Pro
    } else {
        TierShade::Lite
    }
}

/// The small ASCII form of `c`.
fn lower_char(c: char) -> (r: char)
    ensures
        r == ascii_lower(c),
{
    if 'A' <= c && c <= 'Z' {
        let b = c as u8;
        assert(b == c as u32) by {
            vstd::utf8::char_u32_cast(c, c as u32);
        }
        (b + 32) as char
    } else {
        c
    }
}

/// The three letters of `w` as a sequence.
pub open spec fn word3(w: (char, char, char)) -> Seq<char> {
    seq![w.0, w.1, w.2]
}

/// Whether the three-letter word `w` occurs in `s`, ignoring ASCII case.
fn find_word(s: &Vec<char>, w: (char, char, char)) -> (r: bool)
    ensures
        r == occurs(s@, word3(w)),
{
    let ghost ws = word3(w);
    assert(ws.len() == 3 && ws[0] == w.0 && ws[1] == w.1 && ws[2] == w.2);
    let n = s.len();
    if n < 3 {
        assert forall|j: int| !occurs_at(s@, ws, j) by {}
        return false;
    }
    let mut i: usize = 0;
    while i <= n - 3
        invariant
            n == s@.len(),
            n >= 3,
            i <= n - 2,
            ws == word3(w),
            ws.len() == 3 && ws[0] == w.0 && ws[1] == w.1 && ws[2] == w.2,
            forall|j: int| 0 <= j < i ==> !occurs_at(s@, ws, j),
        decreases n - i,
    {
        let a = lower_char(s[i]);
        let b = lower_char(s[i + 1]);
        let c = lower_char(s[i + 2]);
        let ghost ii = i as int;
        if a == w.0 && b == w.1 && c == w.2 {
            assert(occurs_at(s@, ws, ii)) by {
                assert forall|k: int| 0 <= k < ws.len() implies ascii_lower(#[trigger] s@[ii + k]) == ws[k] by {
                    if k == 0 {
                        assert(s@[ii + k] == s@[ii]);
                    } else if k == 1 {
                        assert(s@[ii + k] == s@[ii + 1]);
                    } else {
                        assert(s@[ii + k] == s@[ii + 2]);
                    }
                }
            }
            assert(occurs(s@, ws));
            return true;
        }
        assert(!occurs_at(s@, ws, ii)) by {
            if occurs_at(s@, ws, ii) {
                assert(ascii_lower(s@[ii + 0]) == ws[0]);
                assert(ascii_lower(s@[ii + 1]) == ws[1]);
                assert(ascii_lower(s@[ii + 2]) == ws[2]);
            }
        }
        i = i + 1;
    }
    assert forall|j: int| !occurs_at(s@, ws, j) by {
        if j >= i {
            assert(j + 3 > s@.len());
        }
    }
    false
}

/// Shade of the tier badge for a tier label.
pub fn tier_shade(tier: &str) -> (r: TierShade)
    ensures
        r == shade_of(tier@),
{
    let s = chars_of(tier);
    if find_word(&s, ('m', 'a', 'x')) {
        TierShade::Max
    } else if find_word(&s, ('p', 'r', 'o')) {
        TierShade::Pro
    } else {
        TierShade::Lite
    }
}

// ── MCP usage bar ──────────────────────────────────────────────────

/// Cells of the MCP usage bar.
pub const MCP_CELLS: usize = 20;

/// A run of bar cells `[from, to)`, painted in the colour of segment `i`
/// (`Some(i)`) or as empty track (`None`).
pub type CellRun = (usize, usize, Option<usize>);

/// Where the runs of the first `n` segments end.
pub open spec fn run_cursor(segs: Seq<(usize, usize)>, n: int) -> int {
    if n <= 0 {
        0
    } else {
        segs[n - 1].1 as int
    }
}

/// The runs painted for the first `n` segments: each segment as its own
/// run, preceded by a track run over any gap since the previous one.
pub open spec fn segment_runs(segs: Seq<(usize, usize)>, n: int) -> Seq<CellRun>
    decreases n,
{
    if n <= 0 {
        Seq::empty()
    } else {
        let c = run_cursor(segs, n - 1);
        let (a, b) = segs[n - 1];
        let gap: Seq<CellRun> = if a > c {
            seq![(c as usize, a, None)]
        } else {
            Seq::empty()
        };
        segment_runs(segs, n - 1) + gap + seq![(a, b, Some((n - 1) as usize))]
    }
}

/// All runs of the bar: the segments' runs, then track up to `cells`.
pub open spec fn bar_runs(segs: Seq<(usize, usize)>, cells: usize) -> Seq<CellRun> {
    let c = run_cursor(segs, segs.len() as int);
    segment_runs(segs, segs.len() as int) + if c < cells {
        seq![(c as usize, cells, None)]
    } else {
        Seq::<CellRun>::empty()
    }
}

/// The runs that paint a bar of `cells` cells holding the coloured
/// segments `segs` (cell ranges in order): gaps before a segment and the
/// rest after the last one are empty track.
pub fn cell_runs(segs: &[(usize, usize)], cells: usize) -> (r: Vec<CellRun>)
    ensures
        r@ == bar_runs(segs@, cells),
{
    let mut runs: Vec<CellRun> = Vec::new();
    let mut cursor: usize = 0;
    let mut i: usize = 0;
    while i < segs.len()
        invariant
            i <= segs@.len(),
            cursor == run_cursor(segs@, i as int),
            runs@ == segment_runs(segs@, i as int),
        decreases segs@.len() - i,
    {
        let (a, b) = segs[i];
        let ghost before = runs@;
        if a > cursor {
            runs.push((cursor, a, None));
        }
        runs.push((a, b, Some(i)));
        proof {
            let gap: Seq<CellRun> = if a > cursor {
                seq![(cursor, a, None)]
            } else {
                Seq::empty()
            };
            assert(runs@ =~= before + gap + seq![(a, b, Some(i))]);
        }
        cursor = b;
        i = i + 1;
    }
    let ghost body = runs@;
    if cursor < cells {
        runs.push((cursor, cells, None));
    }
    proof {
        if cursor < cells {
            assert(runs@ =~= body + seq![(cursor, cells, None::<usize>)]);
        } else {
            assert(runs@ =~= body + Seq::<CellRun>::empty());
        }
    }
    runs
}

/// Segments in order: each starts no later than it ends, and no earlier
/// than the previous one ended.
pub open spec fn ordered(segs: Seq<(usize, usize)>) -> bool {
    &&& forall|i: int| 0 <= i < segs.len() ==> (#[trigger] segs[i]).0 <= segs[i].1
    &&& forall|i: int| 0 < i < segs.len() ==> segs[i - 1].1 <= (#[trigger] segs[i]).0
}

/// The runs of the first `n` ordered segments lie end to end from cell 0
/// to where the `n`-th segment ends.
proof fn lemma_segment_runs_tile(segs: Seq<(usize, usize)>, n: int)
    requires
        ordered(segs),
        0 <= n <= segs.len(),
    ensures
        ({
            let r = segment_runs(segs, n);
            &&& r.len() > 0 ==> r[0].0 == 0 && r.last().1 == run_cursor(segs, n)
            &&& forall|j: int| 0 < j < r.len() ==> r[j - 1].1 == (#[trigger] r[j]).0
            &&& forall|j: int| 0 <= j < r.len() ==> (#[trigger] r[j]).0 <= r[j].1
        }),
    decreases n,
{
    if n > 0 {
        lemma_segment_runs_tile(segs, n - 1);
        let prev = segment_runs(segs, n - 1);
        let c = run_cursor(segs, n - 1);
        let (a, b) = segs[n - 1];
        if n > 1 {
            assert(segs[n - 2].1 <= segs[n - 1].0);
        }
        let gap: Seq<CellRun> = if a > c {
            seq![(c as usize, a, None)]
        } else {
            Seq::empty()
        };
        let r = segment_runs(segs, n);
        assert(r == prev + gap + seq![(a, b, Some((n - 1) as usize))]);
        assert(segs[n - 1].0 <= segs[n - 1].1);
        assert forall|j: int| 0 < j < r.len() implies r[j - 1].1 == (#[trigger] r[j]).0 by {
            if j < prev.len() {
                assert(r[j - 1] == prev[j - 1] && r[j] == prev[j]);
            } else if j == prev.len() {
                assert(r[j - 1] == prev.last());
            }
        }
        assert forall|j: int| 0 <= j < r.len() implies (#[trigger] r[j]).0 <= r[j].1 by {
            if j < prev.len() {
                assert(r[j] == prev[j]);
            }
        }
    }
}

/// The bar is painted without gaps or overlaps: for segments in order
/// that end within the bar, the runs lie end to end from cell 0 to the
/// last cell, and segment `i` is painted as the run for `i` over exactly
/// its own cells.
pub proof fn law_bar_runs_tile(segs: Seq<(usize, usize)>, cells: usize)
    requires
        ordered(segs),
        segs.len() > 0 ==> segs.last().1 <= cells,
        cells > 0,
    ensures
        ({
            let r = bar_runs(segs, cells);
            &&& r.len() > 0
            &&& r[0].0 == 0
            &&& r.last().1 == cells
            &&& forall|j: int| 0 < j < r.len() ==> r[j - 1].1 == (#[trigger] r[j]).0
            &&& forall|j: int| 0 <= j < r.len() ==> (#[trigger] r[j]).0 <= r[j].1
            &&& forall|i: int|
                #![trigger segs[i]]
                0 <= i < segs.len() ==> exists|j: int|
                    0 <= j < r.len() && #[trigger] r[j] == (segs[i].0, segs[i].1, Some(i as usize))
        }),
{
    lemma_segment_runs_tile(segs, segs.len() as int);
    lemma_segment_runs_contain(segs, segs.len() as int);
    let body = segment_runs(segs, segs.len() as int);
    let c = run_cursor(segs, segs.len() as int);
    let r = bar_runs(segs, cells);
    if c < cells {
        let tail: Seq<CellRun> = seq![(c as usize, cells, None)];
        assert(r == body + tail);
        assert forall|j: int| 0 < j < r.len() implies r[j - 1].1 == (#[trigger] r[j]).0 by {
            if j < body.len() {
                assert(r[j - 1] == body[j - 1] && r[j] == body[j]);
            } else {
                assert(r[j - 1] == body.last());
            }
        }
        assert forall|j: int| 0 <= j < r.len() implies (#[trigger] r[j]).0 <= r[j].1 by {
            if j < body.len() {
                assert(r[j] == body[j]);
            }
        }
        assert forall|i: int| #![trigger segs[i]] 0 <= i < segs.len() implies exists|j: int|
            0 <= j < r.len() && #[trigger] r[j] == (segs[i].0, segs[i].1, Some(i as usize)) by {
            let j = choose|j: int| 0 <= j < body.len() && body[j] == (segs[i].0, segs[i].1, Some(i as usize));
            assert(r[j] == body[j]);
        }
    } else {
        assert(r =~= body);
    }
}

/// Segment `i` among the first `n` is painted as a run of its own.
proof fn lemma_segment_runs_contain(segs: Seq<(usize, usize)>, n: int)
    requires
        0 <= n <= segs.len(),
    ensures
        forall|i: int|
            #![trigger segs[i]]
            0 <= i < n ==> exists|j: int|
                0 <= j < segment_runs(segs, n).len() && #[trigger] segment_runs(segs, n)[j] == (
                    segs[i].0,
                    segs[i].1,
                    Some(i as usize),
                ),
    decreases n,
{
    if n > 0 {
        lemma_segment_runs_contain(segs, n - 1);
        let prev = segment_runs(segs, n - 1);
        let r = segment_runs(segs, n);
        let c = run_cursor(segs, n - 1);
        let (a, b) = segs[n - 1];
        let gap: Seq<CellRun> = if a > c {
            seq![(c as usize, a, None)]
        } else {
            Seq::empty()
        };
        assert(r == prev + gap + seq![(a, b, Some((n - 1) as usize))]);
        assert forall|i: int| #![trigger segs[i]] 0 <= i < n implies exists|j: int|
            0 <= j < r.len() && #[trigger] r[j] == (segs[i].0, segs[i].1, Some(i as usize)) by {
            if i < n - 1 {
                let j = choose|j: int| 0 <= j < prev.len() && prev[j] == (segs[i].0, segs[i].1, Some(i as usize));
                assert(r[j] == prev[j]);
            } else {
                assert(r[r.len() - 1] == (a, b, Some((n - 1) as usize)));
            }
        }
    }
}

} // verus!

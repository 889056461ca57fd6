//! Single-line text editing state machine: caret, selection, undo/redo and
//! word-wise movement over UAX#29 word segments.

use vstd::prelude::*;
use vstd::string::StrSliceExecFns;
use unicode_segmentation::UnicodeSegmentation;

use crate::chars::{
    byte_len, char_count, char_utf8_len, chars_of, len_utf8, lemma_utf8_len_concat, opt_view, string_of,
    utf8_len,
};

verus! {

// ── Word segmentation (outside crate) ─────────────────────────────

/// The UAX#29 word-bound segments of `text`, as computed by
/// `unicode_segmentation::UnicodeSegmentation::split_word_bounds`.
pub uninterp spec fn word_segments(text: Seq<char>) -> Seq<Seq<char>>;

/// Concatenation of a sequence of segments.
pub open spec fn concat(segs: Seq<Seq<char>>) -> Seq<char>
    decreases segs.len(),
{
    if segs.len() == 0 {
        Seq::empty()
    } else {
        concat(segs.drop_last()) + segs.last()
    }
}

/// Splitting the segments at `k` splits their concatenation.
pub proof fn lemma_concat_split(segs: Seq<Seq<char>>, k: int)
    requires
        0 <= k <= segs.len(),
    ensures
        concat(segs) == concat(segs.take(k)) + concat(segs.skip(k)),
    decreases segs.len(),
{
    if k == segs.len() {
        assert(segs.take(k) =~= segs);
        assert(segs.skip(k) =~= Seq::<Seq<char>>::empty());
        assert(concat(segs.take(k)) + concat(segs.skip(k)) =~= concat(segs));
    } else {
        let d = segs.drop_last();
        lemma_concat_split(d, k);
        assert(d.take(k) =~= segs.take(k));
        assert(segs.skip(k).drop_last() =~= d.skip(k));
        assert(segs.skip(k).last() == segs.last());
        assert(concat(segs.skip(k)) == concat(d.skip(k)) + segs.last());
        assert(concat(segs) =~= concat(segs.take(k)) + concat(segs.skip(k)));
    }
}

/// Segments of `text` as owned strings
/// (`UnicodeSegmentation::split_word_bounds`): their characters are the
/// named segmentation of `text`, and, as the crate documents, joined
/// together they give back `text` itself.
#[verifier::external_body]
fn split_word_bounds(text: &str) -> (segs: Vec<String>)
    ensures
        segs@.map_values(|w: String| w@) == word_segments(text@),
        concat(segs@.map_values(|w: String| w@)) == text@,
{
    text.split_word_bounds().map(|w| w.to_string()).collect()
}

/// Whether `c` is alphabetic or numeric, as `char::is_alphanumeric` decides.
pub uninterp spec fn is_alphanumeric(c: char) -> bool;

/// `char::is_alphanumeric`.
#[verifier::external_body]
fn char_is_alphanumeric(c: char) -> (b: bool)
    ensures
        b == is_alphanumeric(c),
{
    c.is_alphanumeric()
}

/// A character that belongs to a word: alphanumeric or `_`.
pub open spec fn word_char(c: char) -> bool {
    is_alphanumeric(c) || c == '_'
}

/// Every character of `w` is a word character.
pub open spec fn all_word_chars(w: Seq<char>) -> bool {
    forall|i: int| 0 <= i < w.len() ==> word_char(#[trigger] w[i])
}

/// The first `.` at index `k` or later in segment `w` (starting at
/// position `base`) that lies after `caret`, as an absolute position.
pub open spec fn dot_stop(w: Seq<char>, base: int, caret: int, k: int) -> Option<int>
    decreases w.len() - k,
{
    if k < 0 || k >= w.len() {
        None
    } else if w[k] == '.' && caret < base + k {
        Some(base + k)
    } else {
        dot_stop(w, base, caret, k + 1)
    }
}

/// The next word boundary after `caret`, scanning `segs` whose first
/// segment starts at position `current`: a `.` beyond the caret stops the
/// scan; a segment that is not all word characters and starts beyond the
/// caret stops at its start; otherwise the scan ends at the text end.
pub open spec fn boundary_from(segs: Seq<Seq<char>>, caret: int, current: int) -> int
    decreases segs.len(),
{
    if segs.len() == 0 {
        current
    } else {
        match dot_stop(segs[0], current, caret, 0) {
            Some(d) => d,
            None => if caret < current && !all_word_chars(segs[0]) {
                current
            } else {
                boundary_from(segs.drop_first(), caret, current + segs[0].len())
            },
        }
    }
}

/// The next word boundary of `text` after `caret`.
pub open spec fn next_boundary(text: Seq<char>, caret: int) -> int {
    boundary_from(word_segments(text), caret, 0)
}

/// The previous word boundary of `text` before `caret`: the next boundary
/// of the reversed text, mirrored.
pub open spec fn prev_boundary(text: Seq<char>, caret: int) -> int {
    let n = text.len() as int;
    let b = next_boundary(text.reverse(), n - caret);
    n - if b < n { b } else { n }
}

proof fn lemma_dot_stop_bounds(w: Seq<char>, base: int, caret: int, k: int)
    requires
        0 <= k,
    ensures
        dot_stop(w, base, caret, k) matches Some(d) ==> base + k <= d < base + w.len() && caret < d,
    decreases w.len() - k,
{
    if k < w.len() {
        lemma_dot_stop_bounds(w, base, caret, k + 1);
    }
}

/// Where the scan can end: never before `current`, never past the end of
/// the segments, after the caret whenever the caret is inside, at the end
/// otherwise.
proof fn lemma_boundary_from_bounds(segs: Seq<Seq<char>>, caret: int, current: int)
    ensures
        ({
            let r = boundary_from(segs, caret, current);
            let t = current + concat(segs).len();
            &&& current <= r <= t
            &&& caret < t ==> caret < r
            &&& caret >= t ==> r == t
        }),
    decreases segs.len(),
{
    if segs.len() > 0 {
        lemma_concat_split(segs, 1);
        assert(segs.take(1) =~= seq![segs[0]]);
        let one = seq![segs[0]];
        assert(one.drop_last() =~= Seq::<Seq<char>>::empty());
        assert(concat(one.drop_last()) == Seq::<char>::empty());
        assert(concat(one) =~= segs[0]);
        assert(segs.skip(1) =~= segs.drop_first());
        lemma_dot_stop_bounds(segs[0], current, caret, 0);
        lemma_boundary_from_bounds(segs.drop_first(), caret, current + segs[0].len());
    }
}

/// A segment without `.` gives no dot stop.
proof fn lemma_no_dot_no_stop(w: Seq<char>, base: int, caret: int, k: int)
    requires
        0 <= k,
        forall|i: int| 0 <= i < w.len() ==> w[i] != '.',
    ensures
        dot_stop(w, base, caret, k) is None,
    decreases w.len() - k,
{
    if k < w.len() {
        lemma_no_dot_no_stop(w, base, caret, k + 1);
    }
}

/// Word characters are exactly the alphanumeric characters and `_`.
pub proof fn law_word_chars(c: char)
    ensures
        word_char(c) <==> (is_alphanumeric(c) || c == '_'),
        word_char('_'),
{
}

/// A word is crossed as a whole: when the scan for the next word boundary
/// reaches, after the caret, a segment made only of alphanumerics and `_`
/// (with no `.`), it does not stop at that segment's start but goes on at
/// least to its end.
pub proof fn law_word_run_is_crossed(w: Seq<char>, rest: Seq<Seq<char>>, caret: int, current: int)
    requires
        w.len() > 0,
        caret < current,
        forall|i: int| 0 <= i < w.len() ==> (is_alphanumeric(#[trigger] w[i]) || w[i] == '_') && w[i] != '.',
    ensures
        boundary_from(seq![w] + rest, caret, current) >= current + w.len(),
{
    let segs = seq![w] + rest;
    assert(segs[0] == w);
    assert(segs.drop_first() =~= rest);
    lemma_no_dot_no_stop(w, current, caret, 0);
    assert(all_word_chars(w));
    lemma_boundary_from_bounds(rest, caret, current + w.len());
}

/// Whether `c` is a word character (alphanumeric or `_`).
pub fn is_word_char(c: char) -> (b: bool)
    ensures
        b == word_char(c),
{
    char_is_alphanumeric(c) || c == '_'
}

/// The next word boundary after `caret` (in characters). A `.` counts as a
/// boundary; a run of word characters is crossed as a whole.
pub fn next_word_boundary(text: &str, caret: usize) -> (r: usize)
    ensures
        r == next_boundary(text@, caret as int),
        caret < text@.len() ==> caret < r <= text@.len(),
        caret >= text@.len() ==> r == text@.len(),
{
    let total = char_count(text);
    let segs = split_word_bounds(text);
    let ghost s = segs@.map_values(|w: String| w@);
    proof {
        lemma_boundary_from_bounds(s, caret as int, 0);
        assert(s.skip(0) =~= s);
        assert(s.take(0) =~= Seq::<Seq<char>>::empty());
    }
    let mut current: usize = 0;
    let mut i: usize = 0;
    while i < segs.len()
        invariant
            i <= segs@.len(),
            s == segs@.map_values(|w: String| w@),
            s == word_segments(text@),
            concat(s) == text@,
            total == text@.len(),
            current == concat(s.take(i as int)).len(),
            boundary_from(s, caret as int, 0) == boundary_from(s.skip(i as int), caret as int, current as int),
        decreases segs@.len() - i,
    {
        proof {
            lemma_concat_split(s, i + 1);
            assert(s.take(i + 1).drop_last() =~= s.take(i as int));
            assert(s.take(i + 1).last() == s[i as int]);
            assert(s.skip(i as int)[0] == s[i as int]);
            assert(s.skip(i as int).drop_first() =~= s.skip(i + 1));
        }
        let w = chars_of(segs[i].as_str());
        assert(w@ == s.skip(i as int)[0]);
        let word_ci = current;
        let mut n: usize = 0;
        let mut all_word = true;
        while n < w.len()
            invariant
                n <= w@.len(),
                word_ci as int + w@.len() <= text@.len(),
                total == text@.len(),
                s == word_segments(text@),
                w@ == s.skip(i as int)[0],
                s.skip(i as int).len() > 0,
                boundary_from(s, caret as int, 0) == boundary_from(s.skip(i as int), caret as int, word_ci as int),
                dot_stop(w@, word_ci as int, caret as int, 0) == dot_stop(w@, word_ci as int, caret as int, n as int),
                all_word == (forall|j: int| 0 <= j < n ==> word_char(#[trigger] w@[j])),
            decreases w@.len() - n,
        {
            let dot_ci = word_ci + n;
            if w[n] == '.' && caret < dot_ci {
                assert(dot_stop(w@, word_ci as int, caret as int, n as int) == Some(dot_ci as int));
                assert(boundary_from(s.skip(i as int), caret as int, word_ci as int) == dot_ci);
                return dot_ci;
            }
            if !is_word_char(w[n]) {
                all_word = false;
            }
            n = n + 1;
        }
        if caret < word_ci && !all_word {
            return word_ci;
        }
        current = current + n;
        i = i + 1;
    }
    proof {
        assert(s.take(i as int) =~= s);
        assert(s.skip(i as int) =~= Seq::<Seq<char>>::empty());
    }
    current
}

/// The characters of `text` in reverse order.
fn reversed_string(text: &str) -> (r: String)
    ensures
        r@ == text@.reverse(),
{
    let chars = chars_of(text);
    let n = chars.len();
    let mut rev: Vec<char> = Vec::new();
    let mut i: usize = 0;
    while i < n
        invariant
            n == chars@.len(),
            chars@ == text@,
            i <= n,
            rev@.len() == i,
            forall|k: int| 0 <= k < i ==> #[trigger] rev@[k] == chars@[n - 1 - k],
        decreases n - i,
    {
        rev.push(chars[n - 1 - i]);
        i = i + 1;
    }
    assert(rev@ =~= text@.reverse());
    string_of(rev.as_slice())
}

/// The previous word boundary before `caret` (in characters): the next
/// boundary of the reversed text, mirrored back.
pub fn prev_word_boundary(text: &str, caret: usize) -> (r: usize)
    requires
        caret <= text@.len(),
    ensures
        r == prev_boundary(text@, caret as int),
        r <= caret,
        caret > 0 ==> r < caret,
{
    let num_chars = char_count(text);
    let reversed = reversed_string(text);
    let boundary = next_word_boundary(reversed.as_str(), num_chars - caret);
    let b = if boundary < num_chars { boundary } else { num_chars };
    num_chars - b
}

/// The segment range `[start, end)` containing `pos`, scanning `segs` whose
/// first segment starts at `cur`; `(pos, pos)` when no segment contains it.
pub open spec fn range_from(segs: Seq<Seq<char>>, pos: int, cur: int) -> (int, int)
    decreases segs.len(),
{
    if segs.len() == 0 {
        (pos, pos)
    } else if cur <= pos < cur + segs[0].len() {
        (cur, cur + segs[0].len())
    } else {
        range_from(segs.drop_first(), pos, cur + segs[0].len())
    }
}

proof fn lemma_range_from_bounds(segs: Seq<Seq<char>>, pos: int, cur: int)
    requires
        cur <= pos,
    ensures
        ({
            let r = range_from(segs, pos, cur);
            let t = cur + concat(segs).len();
            &&& pos < t ==> cur <= r.0 <= pos < r.1 <= t
            &&& pos >= t ==> r == (pos, pos)
        }),
    decreases segs.len(),
{
    if segs.len() > 0 {
        lemma_concat_split(segs, 1);
        assert(segs.take(1) =~= seq![segs[0]]);
        let one = seq![segs[0]];
        assert(one.drop_last() =~= Seq::<Seq<char>>::empty());
        assert(concat(one.drop_last()) == Seq::<char>::empty());
        assert(concat(one) =~= segs[0]);
        assert(segs.skip(1) =~= segs.drop_first());
        if !(cur <= pos < cur + segs[0].len()) {
            lemma_range_from_bounds(segs.drop_first(), pos, cur + segs[0].len());
        }
    }
}

/// The word segment `[start, end)` (UAX#29, used for double-click
/// selection) that contains position `pos`; `(pos, pos)` past the end.
pub fn word_range_at(text: &str, pos: usize) -> (r: (usize, usize))
    ensures
        (r.0 as int, r.1 as int) == range_from(word_segments(text@), pos as int, 0),
        pos < text@.len() ==> r.0 <= pos < r.1 <= text@.len(),
        pos >= text@.len() ==> r == (pos, pos),
{
    let total = char_count(text);
    let segs = split_word_bounds(text);
    let ghost s = segs@.map_values(|w: String| w@);
    proof {
        lemma_range_from_bounds(s, pos as int, 0);
        assert(s.skip(0) =~= s);
        assert(s.take(0) =~= Seq::<Seq<char>>::empty());
    }
    let mut cur: usize = 0;
    let mut i: usize = 0;
    while i < segs.len()
        invariant
            i <= segs@.len(),
            s == segs@.map_values(|w: String| w@),
            s == word_segments(text@),
            concat(s) == text@,
            total == text@.len(),
            cur == concat(s.take(i as int)).len(),
            range_from(s, pos as int, 0) == range_from(s.skip(i as int), pos as int, cur as int),
        decreases segs@.len() - i,
    {
        proof {
            lemma_concat_split(s, i + 1);
            assert(s.take(i + 1).drop_last() =~= s.take(i as int));
            assert(s.take(i + 1).last() == s[i as int]);
            assert(s.skip(i as int)[0] == s[i as int]);
            assert(s.skip(i as int).drop_first() =~= s.skip(i + 1));
        }
        let n = char_count(segs[i].as_str());
        if pos >= cur && pos < cur + n {
            return (cur, cur + n);
        }
        cur = cur + n;
        i = i + 1;
    }
    proof {
        assert(s.skip(i as int) =~= Seq::<Seq<char>>::empty());
    }
    (pos, pos)
}

// ── Edit state ───────────────────────────────────────────────────

/// A restorable snapshot: text, caret, anchor.
pub type Snapshot = (Seq<char>, usize, usize);

/// The abstract edit state.
pub struct EditModel {
    pub caret: usize,
    pub anchor: usize,
    pub history: Seq<Snapshot>,
    pub future: Seq<Snapshot>,
    pub last_typing: bool,
}

/// Caret and selection state; `caret == anchor` means no selection.
#[derive(Debug, Clone)]
pub struct EditState {
    /// Caret position (character index).
    pub caret: usize,
    /// Selection anchor: the end that stays put while extending.
    pub anchor: usize,
    /// Undo stack of (text, caret, anchor); the top is the latest snapshot.
    history: Vec<(String, usize, usize)>,
    /// Redo stack: snapshots reachable again after an undo.
    future: Vec<(String, usize, usize)>,
    /// Whether the latest snapshot came from typing; consecutive typing
    /// merges into a single undo step.
    last_typing: bool,
}

/// The abstract view of a stored snapshot.
pub open spec fn snap_view(t: (String, usize, usize)) -> Snapshot {
    (t.0@, t.1, t.2)
}

impl View for EditState {
    type V = EditModel;

    closed spec fn view(&self) -> EditModel {
        EditModel {
            caret: self.caret,
            anchor: self.anchor,
            history: self.history@.map_values(|t: (String, usize, usize)| snap_view(t)),
            future: self.future@.map_values(|t: (String, usize, usize)| snap_view(t)),
            last_typing: self.last_typing,
        }
    }
}

/// Position `i` clamped to a text of length `n`.
pub open spec fn clamp(i: int, n: int) -> int {
    if i < n {
        i
    } else {
        n
    }
}

/// `s` without the characters in `[a, b)`, both ends clamped to the text.
pub open spec fn delete_chars(s: Seq<char>, a: int, b: int) -> Seq<char> {
    s.subrange(0, clamp(a, s.len() as int)) + s.subrange(clamp(b, s.len() as int), s.len() as int)
}

/// `s` with `t` inserted at position `i` (clamped to the text end).
pub open spec fn insert_chars(s: Seq<char>, i: int, t: Seq<char>) -> Seq<char> {
    s.subrange(0, clamp(i, s.len() as int)) + t + s.subrange(clamp(i, s.len() as int), s.len() as int)
}

/// The characters of `s` in `[a, b)`, both ends clamped to the text.
pub open spec fn chars_between(s: Seq<char>, a: int, b: int) -> Seq<char> {
    s.subrange(clamp(a, s.len() as int), clamp(b, s.len() as int))
}

/// The fresh state: caret and anchor at 0, empty stacks.
pub open spec fn initial_model() -> EditModel {
    EditModel {
        caret: 0,
        anchor: 0,
        history: Seq::empty(),
        future: Seq::empty(),
        last_typing: false,
    }
}

/// The ordered selection `(start, end)`, or `None` when `caret == anchor`.
pub open spec fn selection_of(m: EditModel) -> Option<(usize, usize)> {
    if m.caret == m.anchor {
        None
    } else if m.caret < m.anchor {
        Some((m.caret, m.anchor))
    } else {
        Some((m.anchor, m.caret))
    }
}

/// Caret moved to `pos`; the anchor follows unless `extend`.
pub open spec fn placed(m: EditModel, pos: usize, extend: bool) -> EditModel {
    EditModel { caret: pos, anchor: if extend { m.anchor } else { pos }, last_typing: false, ..m }
}

/// Everything selected: anchor at 0, caret at the end of `s`; the typing
/// run ends.
pub open spec fn all_selected(m: EditModel, s: Seq<char>) -> EditModel {
    EditModel { caret: s.len() as usize, anchor: 0, last_typing: false, ..m }
}

/// Caret and anchor both at `pos`, everything else kept.
pub open spec fn collapsed_at(m: EditModel, pos: usize) -> EditModel {
    EditModel { caret: pos, anchor: pos, ..m }
}

/// Depth of the undo stack.
pub const UNDO_DEPTH: usize = 64;

/// The undo stack after recording `snap`: pushed on top, then only the
/// latest `UNDO_DEPTH` entries kept (the oldest are dropped).
pub open spec fn recorded(h: Seq<Snapshot>, snap: Snapshot) -> Seq<Snapshot> {
    let p = h.push(snap);
    if p.len() > UNDO_DEPTH {
        p.skip(p.len() - UNDO_DEPTH)
    } else {
        p
    }
}

/// What stays below the new top once a snapshot is recorded on `h`: all
/// of `h`, or its latest `UNDO_DEPTH - 1` entries when the stack was full.
pub open spec fn kept_below(h: Seq<Snapshot>) -> Seq<Snapshot> {
    if h.len() < UNDO_DEPTH {
        h
    } else {
        h.skip(h.len() - (UNDO_DEPTH - 1))
    }
}

/// The state after preparing an edit of text `s`: the redo stack is
/// dropped; unless this continues a run of typing, the pre-edit snapshot
/// is recorded and `typing` remembered.
pub open spec fn began(m: EditModel, s: Seq<char>, typing: bool) -> EditModel {
    if typing && m.last_typing {
        EditModel { future: Seq::empty(), ..m }
    } else {
        EditModel {
            history: recorded(m.history, (s, m.caret, m.anchor)),
            future: Seq::empty(),
            last_typing: typing,
            ..m
        }
    }
}

/// State and text after removing the selection, if any; the caret lands
/// at the selection start.
pub open spec fn selection_deleted(m: EditModel, s: Seq<char>) -> (EditModel, Seq<char>) {
    match selection_of(m) {
        Some((a, b)) => (collapsed_at(m, a), delete_chars(s, a as int, b as int)),
        None => (m, s),
    }
}

/// The state after moving left by a character or a word; without
/// `extend`, an existing selection collapses to its start instead.
pub open spec fn moved_left(m: EditModel, s: Seq<char>, word: bool, extend: bool) -> EditModel {
    if !extend && selection_of(m) is Some {
        placed(m, selection_of(m).unwrap().0, false)
    } else {
        let to = if word {
            prev_boundary(s, m.caret as int) as usize
        } else if m.caret > 0 {
            (m.caret - 1) as usize
        } else {
            0
        };
        placed(m, to, extend)
    }
}

/// The state after moving right by a character or a word; without
/// `extend`, an existing selection collapses to its end instead.
pub open spec fn moved_right(m: EditModel, s: Seq<char>, word: bool, extend: bool) -> EditModel {
    if !extend && selection_of(m) is Some {
        placed(m, selection_of(m).unwrap().1, false)
    } else {
        let to = if word {
            next_boundary(s, m.caret as int) as usize
        } else {
            clamp(m.caret + 1, s.len() as int) as usize
        };
        placed(m, to, extend)
    }
}

/// Appends `v[from..to]` to `r`.
fn append_range(r: &mut Vec<char>, v: &Vec<char>, from: usize, to: usize)
    requires
        from <= to <= v@.len(),
    ensures
        final(r)@ == old(r)@ + v@.subrange(from as int, to as int),
{
    let mut i = from;
    while i < to
        invariant
            from <= i <= to <= v@.len(),
            r@ == old(r)@ + v@.subrange(from as int, i as int),
        decreases to - i,
    {
        r.push(v[i]);
        i = i + 1;
        assert(v@.subrange(from as int, i as int) =~= v@.subrange(from as int, i - 1).push(v@[i - 1]));
    }
}

/// `v` without the characters in `[a, b)` (clamped).
fn delete_range(v: &Vec<char>, a: usize, b: usize) -> (r: Vec<char>)
    requires
        clamp(a as int, v@.len() as int) <= clamp(b as int, v@.len() as int),
    ensures
        r@ == delete_chars(v@, a as int, b as int),
{
    let n = v.len();
    let ca = if a < n { a } else { n };
    let cb = if b < n { b } else { n };
    let mut r: Vec<char> = Vec::new();
    append_range(&mut r, v, 0, ca);
    append_range(&mut r, v, cb, n);
    assert(r@ =~= delete_chars(v@, a as int, b as int));
    r
}

/// `v` with `t` inserted at `i` (clamped).
fn insert_range(v: &Vec<char>, i: usize, t: &Vec<char>) -> (r: Vec<char>)
    ensures
        r@ == insert_chars(v@, i as int, t@),
{
    let n = v.len();
    let ci = if i < n { i } else { n };
    let mut r: Vec<char> = Vec::new();
    append_range(&mut r, v, 0, ci);
    append_range(&mut r, t, 0, t.len());
    append_range(&mut r, v, ci, n);
    assert(t@.subrange(0, t@.len() as int) =~= t@);
    assert(r@ =~= insert_chars(v@, i as int, t@));
    r
}

/// The characters of `v` in `[a, b)` (clamped).
fn slice_range(v: &Vec<char>, a: usize, b: usize) -> (r: Vec<char>)
    requires
        clamp(a as int, v@.len() as int) <= clamp(b as int, v@.len() as int),
    ensures
        r@ == chars_between(v@, a as int, b as int),
{
    let n = v.len();
    let ca = if a < n { a } else { n };
    let cb = if b < n { b } else { n };
    let mut r: Vec<char> = Vec::new();
    append_range(&mut r, v, ca, cb);
    assert(r@ =~= chars_between(v@, a as int, b as int));
    r
}

/// A one-character text encodes to that character's width.
proof fn lemma_utf8_len_one(c: char)
    ensures
        utf8_len(seq![c]) == char_utf8_len(c),
{
    assert(seq![c].drop_first() =~= Seq::<char>::empty());
    assert(utf8_len(seq![c].drop_first()) == 0);
}

/// Encoded length of `v[from..to]`, given `total`, the encoded length of `v`.
fn utf8_len_between(v: &Vec<char>, from: usize, to: usize, total: usize) -> (r: usize)
    requires
        from <= to <= v@.len(),
        total == utf8_len(v@),
    ensures
        r == utf8_len(v@.subrange(from as int, to as int)),
{
    proof {
        let n = v@.len() as int;
        lemma_utf8_len_concat(v@.subrange(0, from as int), v@.subrange(from as int, to as int));
        lemma_utf8_len_concat(v@.subrange(0, to as int), v@.subrange(to as int, n));
        assert(v@.subrange(0, from as int) + v@.subrange(from as int, to as int) =~= v@.subrange(0, to as int));
        assert(v@.subrange(0, to as int) + v@.subrange(to as int, n) =~= v@);
    }
    let mut sum: usize = 0;
    let mut i = from;
    while i < to
        invariant
            from <= i <= to <= v@.len(),
            total == utf8_len(v@),
            utf8_len(v@.subrange(from as int, to as int)) <= total,
            sum == utf8_len(v@.subrange(from as int, i as int)),
        decreases to - i,
    {
        proof {
            let t = v@.subrange(from as int, to as int);
            lemma_utf8_len_concat(v@.subrange(from as int, i as int), seq![v@[i as int]]);
            lemma_utf8_len_one(v@[i as int]);
            assert(v@.subrange(from as int, i as int).push(v@[i as int]) =~= v@.subrange(from as int, i + 1));
            assert(v@.subrange(from as int, i as int) + seq![v@[i as int]] =~= v@.subrange(from as int, i + 1));
            lemma_utf8_len_concat(v@.subrange(from as int, i + 1), v@.subrange(i + 1, to as int));
            assert(v@.subrange(from as int, i + 1) + v@.subrange(i + 1, to as int) =~= t);
        }
        sum = sum + len_utf8(v[i]);
        i = i + 1;
    }
    sum
}

/// Undo: the latest snapshot is restored and the current state goes onto
/// the redo stack; nothing happens without a snapshot.
pub open spec fn undone(m: EditModel, s: Seq<char>) -> (EditModel, Seq<char>) {
    if m.history.len() == 0 {
        (m, s)
    } else {
        let snap = m.history.last();
        (
            EditModel {
                caret: snap.1,
                anchor: snap.2,
                history: m.history.drop_last(),
                future: m.future.push((s, m.caret, m.anchor)),
                last_typing: false,
            },
            snap.0,
        )
    }
}

/// Redo: the latest redo snapshot is restored and the current state goes
/// onto the undo stack; nothing happens without a redo snapshot.
pub open spec fn redone(m: EditModel, s: Seq<char>) -> (EditModel, Seq<char>) {
    if m.future.len() == 0 {
        (m, s)
    } else {
        let snap = m.future.last();
        (
            EditModel {
                caret: snap.1,
                anchor: snap.2,
                history: m.history.push((s, m.caret, m.anchor)),
                future: m.future.drop_last(),
                last_typing: false,
            },
            snap.0,
        )
    }
}

/// Cut: state, text and the removed characters (`None` without a selection).
pub open spec fn cut_result(m: EditModel, s: Seq<char>) -> (EditModel, Seq<char>, Option<Seq<char>>) {
    match selection_of(m) {
        None => (m, s, None),
        Some((a, b)) => (
            collapsed_at(began(m, s, false), a),
            delete_chars(s, a as int, b as int),
            Some(chars_between(s, a as int, b as int)),
        ),
    }
}

/// Control characters: general category `Cc`, that is U+0000–U+001F and
/// U+007F–U+009F.
pub open spec fn is_control(c: char) -> bool {
    (c as u32) <= 0x1f || (0x7f <= (c as u32) && (c as u32) <= 0x9f)
}

/// `char::is_control`: true for general category `Cc`, which Unicode fixes
/// as U+0000–U+001F and U+007F–U+009F.
#[verifier::external_body]
pub(crate) fn char_is_control(c: char) -> (b: bool)
    ensures
        b == is_control(c),
{
    c.is_control()
}

/// `p` without its control characters.
pub open spec fn strip_controls(p: Seq<char>) -> Seq<char>
    decreases p.len(),
{
    if p.len() == 0 {
        Seq::empty()
    } else if is_control(p.last()) {
        strip_controls(p.drop_last())
    } else {
        strip_controls(p.drop_last()).push(p.last())
    }
}

/// The longest prefix of `p` that is taken character by character while
/// each next character still fits into `room` bytes.
pub open spec fn fit_prefix(p: Seq<char>, room: int) -> Seq<char>
    decreases p.len(),
{
    if p.len() == 0 || char_utf8_len(p[0]) > room {
        Seq::empty()
    } else {
        seq![p[0]] + fit_prefix(p.drop_first(), room - char_utf8_len(p[0]))
    }
}

/// Whether typing `ch` fits the byte budget once the selection is gone.
pub open spec fn typing_fits(m: EditModel, s: Seq<char>, ch: char, max: int) -> bool {
    utf8_len(selection_deleted(m, s).1) + char_utf8_len(ch) <= max
}

/// Typing `ch`: the selection is replaced by `ch` and the caret follows
/// it; consecutive typing forms one undo step. When the result would not
/// fit into `max` bytes nothing changes.
pub open spec fn typed(m: EditModel, s: Seq<char>, ch: char, max: int) -> (EditModel, Seq<char>) {
    if !typing_fits(m, s, ch, max) {
        (m, s)
    } else {
        let (m2, s2) = selection_deleted(began(m, s, true), s);
        (collapsed_at(m2, (m2.caret + 1) as usize), insert_chars(s2, m2.caret as int, seq![ch]))
    }
}

/// Whether a paste of `p` goes ahead: something is left after dropping
/// control characters and its first character fits the byte budget once
/// the selection is gone.
pub open spec fn paste_fits(m: EditModel, s: Seq<char>, p: Seq<char>, max: int) -> bool {
    let clean = strip_controls(p);
    clean.len() > 0 && utf8_len(selection_deleted(m, s).1) + char_utf8_len(clean[0]) <= max
}

/// The characters a paste inserts: the cleaned text, cut to what fits into
/// the bytes left after the selection is gone.
pub open spec fn paste_added(m: EditModel, s: Seq<char>, p: Seq<char>, max: int) -> Seq<char> {
    let len = utf8_len(selection_deleted(m, s).1);
    fit_prefix(strip_controls(p), if len <= max { max - len } else { 0 })
}

/// Pasting `p`: control characters are dropped, the selection is replaced
/// by as much of the rest as fits into `max` bytes, and the whole paste is
/// one undo step. Nothing changes when not even the first character fits.
pub open spec fn pasted(m: EditModel, s: Seq<char>, p: Seq<char>, max: int) -> (EditModel, Seq<char>) {
    if !paste_fits(m, s, p, max) {
        (m, s)
    } else {
        let (m2, s2) = selection_deleted(began(m, s, false), s);
        let added = paste_added(m, s, p, max);
        if added.len() == 0 {
            (m2, s2)
        } else {
            (collapsed_at(m2, (m2.caret + added.len()) as usize), insert_chars(s2, m2.caret as int, added))
        }
    }
}

/// Backspace: removes the selection, or else the character (or, with
/// `word`, the word) before the caret.
pub open spec fn backspaced(m: EditModel, s: Seq<char>, word: bool) -> (EditModel, Seq<char>) {
    match selection_of(m) {
        Some(_) => selection_deleted(began(m, s, false), s),
        None => {
            let from = if word {
                prev_boundary(s, m.caret as int)
            } else if m.caret > 0 {
                m.caret - 1
            } else {
                0
            };
            if from == m.caret {
                (m, s)
            } else {
                (collapsed_at(began(m, s, false), from as usize), delete_chars(s, from, m.caret as int))
            }
        },
    }
}

/// Forward delete: removes the selection, or else the character (or, with
/// `word`, the word) after the caret.
pub open spec fn deleted_forward(m: EditModel, s: Seq<char>, word: bool) -> (EditModel, Seq<char>) {
    match selection_of(m) {
        Some(_) => selection_deleted(began(m, s, false), s),
        None => {
            let to = if word {
                next_boundary(s, m.caret as int)
            } else {
                clamp(m.caret + 1, s.len() as int)
            };
            if to == m.caret {
                (m, s)
            } else {
                (collapsed_at(began(m, s, false), m.caret), delete_chars(s, m.caret as int, to))
            }
        },
    }
}

/// Removing `[a, b)` removes exactly the encoded bytes of those characters.
proof fn lemma_delete_utf8_len(s: Seq<char>, a: int, b: int)
    requires
        0 <= a,
        0 <= b,
        clamp(a, s.len() as int) <= clamp(b, s.len() as int),
    ensures
        utf8_len(delete_chars(s, a, b)) + utf8_len(chars_between(s, a, b)) == utf8_len(s),
{
    let n = s.len() as int;
    let ca = clamp(a, n);
    let cb = clamp(b, n);
    lemma_utf8_len_concat(s.subrange(0, ca), s.subrange(ca, cb));
    lemma_utf8_len_concat(s.subrange(0, ca), s.subrange(cb, n));
    lemma_utf8_len_concat(s.subrange(0, cb), s.subrange(cb, n));
    assert(s.subrange(0, ca) + s.subrange(ca, cb) =~= s.subrange(0, cb));
    assert(s.subrange(0, cb) + s.subrange(cb, n) =~= s);
}

/// The characters of `s` that are not control characters.
fn strip_control_chars(s: &str) -> (r: Vec<char>)
    ensures
        r@ == strip_controls(s@),
{
    let v = chars_of(s);
    let mut r: Vec<char> = Vec::new();
    let mut i: usize = 0;
    while i < v.len()
        invariant
            i <= v@.len(),
            r@ == strip_controls(v@.take(i as int)),
        decreases v@.len() - i,
    {
        proof {
            assert(v@.take(i + 1).drop_last() =~= v@.take(i as int));
            assert(v@.take(i + 1).last() == v@[i as int]);
        }
        if !char_is_control(v[i]) {
            r.push(v[i]);
        }
        i = i + 1;
    }
    assert(v@.take(v@.len() as int) =~= v@);
    r
}

/// The greedy prefix of `p` that fits into `room` bytes.
fn take_fitting(p: &Vec<char>, room: usize) -> (r: Vec<char>)
    ensures
        r@ == fit_prefix(p@, room as int),
{
    let mut added: Vec<char> = Vec::new();
    let mut used: usize = 0;
    let mut i: usize = 0;
    let mut stop = false;
    proof {
        assert(p@.skip(0) =~= p@);
        assert(added@ + fit_prefix(p@.skip(0), room as int) =~= fit_prefix(p@, room as int));
    }
    while i < p.len() && !stop
        invariant
            i <= p@.len(),
            used <= room,
            added@ + fit_prefix(p@.skip(i as int), room - used) == fit_prefix(p@, room as int),
            stop ==> fit_prefix(p@.skip(i as int), room - used) == Seq::<char>::empty(),
        decreases p@.len() - i + if stop { 0int } else { 1int },
    {
        let w = len_utf8(p[i]);
        let ghost rest = p@.skip(i as int);
        assert(rest[0] == p@[i as int]);
        if w > room - used {
            stop = true;
        } else {
            assert(rest.drop_first() =~= p@.skip(i + 1));
            assert(fit_prefix(rest, room - used) == seq![p@[i as int]] + fit_prefix(
                p@.skip(i + 1),
                room - used - w,
            ));
            let ghost before = added@;
            added.push(p[i]);
            used = used + w;
            i = i + 1;
            assert(added@ + fit_prefix(p@.skip(i as int), room - used) =~= before + (seq![p@[i - 1]]
                + fit_prefix(p@.skip(i as int), room - used)));
        }
    }
    if !stop {
        assert(p@.skip(i as int) =~= Seq::<char>::empty());
    }
    assert(added@ =~= fit_prefix(p@, room as int));
    added
}

proof fn lemma_view_parts(e: &EditState)
    ensures
        e@.caret == e.caret,
        e@.anchor == e.anchor,
        e@.last_typing == e.last_typing,
        e@.history == e.history@.map_values(|t: (String, usize, usize)| snap_view(t)),
        e@.future == e.future@.map_values(|t: (String, usize, usize)| snap_view(t)),
{
}

impl EditState {
    /// A fresh state: caret and anchor at 0, no history.
    pub fn new() -> (e: Self)
        ensures
            e@ == initial_model(),
    {
        let e = EditState {
            caret: 0,
            anchor: 0,
            history: Vec::new(),
            future: Vec::new(),
            last_typing: false,
        };
        proof {
            assert(e@.history =~= Seq::<Snapshot>::empty());
            assert(e@.future =~= Seq::<Snapshot>::empty());
        }
        e
    }

    /// Back to the fresh state.
    pub fn reset(&mut self)
        ensures
            final(self)@ == initial_model(),
    {
        *self = Self::new();
    }

    /// Caret and anchor at the end of `text` (landing spot when a field is
    /// focused).
    pub fn caret_to_end(&mut self, text: &str)
        ensures
            final(self)@ == collapsed_at(old(self)@, text@.len() as usize),
    {
        self.caret = char_count(text);
        self.anchor = self.caret;
    }

    /// The non-empty selection, ordered; `None` without a selection.
    pub fn selection(&self) -> (r: Option<(usize, usize)>)
        ensures
            r == selection_of(self@),
    {
        if self.caret == self.anchor {
            None
        } else if self.caret < self.anchor {
            Some((self.caret, self.anchor))
        } else {
            Some((self.anchor, self.caret))
        }
    }

    /// Moves the caret to `pos` (mouse placement); `extend` keeps the anchor.
    pub fn place(&mut self, pos: usize, extend: bool)
        ensures
            final(self)@ == placed(old(self)@, pos, extend),
    {
        self.caret = pos;
        if !extend {
            self.anchor = pos;
        }
        self.last_typing = false;
    }

    /// Moves left by a character or (with `word`) to the previous word
    /// boundary; `extend` grows the selection, otherwise an existing
    /// selection collapses to its start.
    pub fn move_left(&mut self, text: &str, word: bool, extend: bool)
        requires
            word && (extend || old(self)@.caret == old(self)@.anchor) ==> old(self)@.caret
                <= text@.len(),
        ensures
            final(self)@ == moved_left(old(self)@, text@, word, extend),
    {
        if !extend && self.selection().is_some() {
            let (a, _b) = self.selection().unwrap();
            self.place(a, false);
            return;
        }
        let to = if word {
            prev_word_boundary(text, self.caret)
        } else if self.caret > 0 {
            self.caret - 1
        } else {
            0
        };
        self.place(to, extend);
    }

    /// Moves right by a character or (with `word`) to the next word
    /// boundary; `extend` grows the selection, otherwise an existing
    /// selection collapses to its end.
    pub fn move_right(&mut self, text: &str, word: bool, extend: bool)
        requires
            !word && (extend || old(self)@.caret == old(self)@.anchor) ==> old(self)@.caret
                < usize::MAX,
        ensures
            final(self)@ == moved_right(old(self)@, text@, word, extend),
    {
        if !extend && self.selection().is_some() {
            let (_a, b) = self.selection().unwrap();
            self.place(b, false);
            return;
        }
        let to = if word {
            next_word_boundary(text, self.caret)
        } else {
            let n = char_count(text);
            if self.caret + 1 < n {
                self.caret + 1
            } else {
                n
            }
        };
        self.place(to, extend);
    }

    /// Records the pre-edit snapshot (merged into the previous one while
    /// typing continues) and drops the redo stack.
    fn begin_edit(&mut self, snapshot: String, typing: bool)
        ensures
            final(self)@ == began(old(self)@, snapshot@, typing),
    {
        proof {
            lemma_view_parts(self);
        }
        if typing && self.last_typing {
            self.future.clear();
            proof {
                lemma_view_parts(self);
                assert(self@.future =~= Seq::<Snapshot>::empty());
            }
            return;
        }
        let ghost h0 = self@.history;
        let caret = self.caret;
        let anchor = self.anchor;
        let ghost snap = (snapshot@, caret, anchor);
        self.history.push((snapshot, caret, anchor));
        let ghost raw = self.history@;
        assert(raw.map_values(|t: (String, usize, usize)| snap_view(t)) =~= h0.push(snap));
        let ghost mut dropped: int = 0;
        while self.history.len() > UNDO_DEPTH
            invariant
                0 <= dropped <= raw.len(),
                self.history@ == raw.skip(dropped),
                self.caret == caret,
                self.anchor == anchor,
                dropped > 0 ==> raw.len() - dropped >= UNDO_DEPTH,
            decreases self.history@.len(),
        {
            self.history.remove(0);
            proof {
                assert(raw.skip(dropped).remove(0) =~= raw.skip(dropped + 1));
                dropped = dropped + 1;
            }
        }
        self.future.clear();
        self.last_typing = typing;
        proof {
            lemma_view_parts(self);
            assert(self@.future =~= Seq::<Snapshot>::empty());
            let p = h0.push(snap);
            assert(raw.skip(dropped).map_values(|t: (String, usize, usize)| snap_view(t)) =~= p.skip(dropped));
            if p.len() > UNDO_DEPTH {
                assert(dropped == raw.len() - UNDO_DEPTH);
                assert(self@.history =~= p.skip(p.len() - UNDO_DEPTH));
            } else {
                assert(dropped == 0);
                assert(self@.history =~= p);
            }
        }
    }

    /// Removes the selection from `chars`, if any, and collapses the caret
    /// to its start.
    fn delete_selection(&mut self, chars: &Vec<char>) -> (r: Vec<char>)
        ensures
            (final(self)@, r@) == selection_deleted(old(self)@, chars@),
    {
        proof {
            lemma_view_parts(self);
        }
        match self.selection() {
            Some((a, b)) => {
                let r = delete_range(chars, a, b);
                self.caret = a;
                self.anchor = a;
                proof {
                    lemma_view_parts(self);
                }
                r
            },
            None => {
                let mut r: Vec<char> = Vec::new();
                append_range(&mut r, chars, 0, chars.len());
                assert(r@ =~= chars@);
                r
            },
        }
    }

    /// Undo: restores the latest snapshot; the current state goes onto the
    /// redo stack. Without a snapshot nothing changes.
    pub fn undo(&mut self, text: &mut String)
        ensures
            (final(self)@, final(text)@) == undone(old(self)@, old(text)@),
    {
        proof {
            lemma_view_parts(self);
        }
        let ghost h0 = self@.history;
        let ghost f0 = self@.future;
        match self.history.pop() {
            None => {},
            Some(snap) => {
                let caret = self.caret;
                let anchor = self.anchor;
                self.future.push((text.clone(), caret, anchor));
                *text = snap.0;
                self.caret = snap.1;
                self.anchor = snap.2;
                self.last_typing = false;
                proof {
                    lemma_view_parts(self);
                    assert(self@.history =~= h0.drop_last());
                    assert(self@.future =~= f0.push((old(text)@, caret, anchor)));
                }
            },
        }
    }

    /// Redo: restores the latest redo snapshot; the current state goes onto
    /// the undo stack. Without a redo snapshot nothing changes.
    pub fn redo(&mut self, text: &mut String)
        ensures
            (final(self)@, final(text)@) == redone(old(self)@, old(text)@),
    {
        proof {
            lemma_view_parts(self);
        }
        let ghost h0 = self@.history;
        let ghost f0 = self@.future;
        match self.future.pop() {
            None => {},
            Some(snap) => {
                let caret = self.caret;
                let anchor = self.anchor;
                self.history.push((text.clone(), caret, anchor));
                *text = snap.0;
                self.caret = snap.1;
                self.anchor = snap.2;
                self.last_typing = false;
                proof {
                    lemma_view_parts(self);
                    assert(self@.future =~= f0.drop_last());
                    assert(self@.history =~= h0.push((old(text)@, caret, anchor)));
                }
            },
        }
    }

    /// Cut: removes the selection and returns its characters; `None`
    /// (and no change) without a selection.
    pub fn cut(&mut self, text: &mut String) -> (r: Option<String>)
        ensures
            (final(self)@, final(text)@, opt_view(r)) == cut_result(old(self)@, old(text)@),
    {
        let (a, b) = match self.selection() {
            Some(sel) => sel,
            None => {
                return None;
            },
        };
        let chars = chars_of(text.as_str());
        let out = string_of(slice_range(&chars, a, b).as_slice());
        self.begin_edit(text.clone(), false);
        let rest = delete_range(&chars, a, b);
        *text = string_of(rest.as_slice());
        proof {
            lemma_view_parts(self);
        }
        self.caret = a;
        self.anchor = a;
        proof {
            lemma_view_parts(self);
        }
        Some(out)
    }

    /// Copy: the selected characters of `text`; `None` without a selection.
    pub fn copy<'a>(&self, text: &'a str) -> (r: Option<&'a str>)
        ensures
            r is None <==> selection_of(self@) is None,
            r matches Some(x) ==> x@ == chars_between(
                text@,
                selection_of(self@).unwrap().0 as int,
                selection_of(self@).unwrap().1 as int,
            ),
    {
        let (a, b) = match self.selection() {
            Some(sel) => sel,
            None => {
                return None;
            },
        };
        let n = char_count(text);
        let ca = if a < n { a } else { n };
        let cb = if b < n { b } else { n };
        Some(text.substring_char(ca, cb))
    }

    /// Bytes `chars` would keep once the selection is removed.
    fn bytes_after_delete(&self, chars: &Vec<char>, total: usize) -> (r: usize)
        requires
            total == utf8_len(chars@),
        ensures
            r == utf8_len(selection_deleted(self@, chars@).1),
    {
        proof {
            lemma_view_parts(self);
        }
        match self.selection() {
            Some((a, b)) => {
                let n = chars.len();
                let ca = if a < n { a } else { n };
                let cb = if b < n { b } else { n };
                proof {
                    lemma_delete_utf8_len(chars@, a as int, b as int);
                }
                total - utf8_len_between(chars, ca, cb, total)
            },
            None => total,
        }
    }

    /// Types `ch`: replaces the selection, and consecutive typing merges
    /// into one undo step. If the text would exceed `max_bytes` once the
    /// selection is gone, nothing changes at all.
    pub fn insert(&mut self, text: &mut String, ch: char, max_bytes: usize)
        requires
            typing_fits(old(self)@, old(text)@, ch, max_bytes as int) ==> selection_deleted(
                old(self)@,
                old(text)@,
            ).0.caret < usize::MAX,
        ensures
            (final(self)@, final(text)@) == typed(old(self)@, old(text)@, ch, max_bytes as int),
    {
        let chars = chars_of(text.as_str());
        let total = byte_len(text.as_str());
        let after_del = self.bytes_after_delete(&chars, total);
        let w = len_utf8(ch);
        if w > max_bytes || after_del > max_bytes - w {
            return;
        }
        self.begin_edit(text.clone(), true);
        let rest = self.delete_selection(&chars);
        let mut one: Vec<char> = Vec::new();
        one.push(ch);
        proof {
            lemma_view_parts(self);
        }
        let out = insert_range(&rest, self.caret, &one);
        *text = string_of(out.as_slice());
        self.caret = self.caret + 1;
        self.anchor = self.caret;
        proof {
            lemma_view_parts(self);
            assert(one@ =~= seq![ch]);
        }
    }

    /// Pastes `s`: control characters are dropped, the selection is
    /// replaced by as much of the rest as fits into `max_bytes`, as one undo
    /// step. Nothing changes when not even the first character fits.
    pub fn paste(&mut self, text: &mut String, s: &str, max_bytes: usize)
        requires
            paste_fits(old(self)@, old(text)@, s@, max_bytes as int) ==> selection_deleted(
                old(self)@,
                old(text)@,
            ).0.caret + paste_added(old(self)@, old(text)@, s@, max_bytes as int).len()
                <= usize::MAX,
        ensures
            (final(self)@, final(text)@) == pasted(old(self)@, old(text)@, s@, max_bytes as int),
    {
        let clean = strip_control_chars(s);
        if clean.len() == 0 {
            return;
        }
        let chars = chars_of(text.as_str());
        let total = byte_len(text.as_str());
        let after_del = self.bytes_after_delete(&chars, total);
        let w = len_utf8(clean[0]);
        if w > max_bytes || after_del > max_bytes - w {
            return;
        }
        self.begin_edit(text.clone(), false);
        let rest = self.delete_selection(&chars);
        let room = if after_del <= max_bytes { max_bytes - after_del } else { 0 };
        let added = take_fitting(&clean, room);
        proof {
            lemma_view_parts(self);
        }
        if added.len() == 0 {
            *text = string_of(rest.as_slice());
            return;
        }
        let out = insert_range(&rest, self.caret, &added);
        *text = string_of(out.as_slice());
        self.caret = self.caret + added.len();
        self.anchor = self.caret;
        proof {
            lemma_view_parts(self);
        }
    }

    /// Backspace: removes the selection, or else the character (with
    /// `word`, the word) before the caret.
    pub fn backspace(&mut self, text: &mut String, word: bool)
        requires
            word && old(self)@.caret == old(self)@.anchor ==> old(self)@.caret <= old(text)@.len(),
        ensures
            (final(self)@, final(text)@) == backspaced(old(self)@, old(text)@, word),
    {
        proof {
            lemma_view_parts(self);
        }
        let chars = chars_of(text.as_str());
        if self.selection().is_none() {
            let caret = self.caret;
            let from = if word {
                prev_word_boundary(text.as_str(), caret)
            } else if caret > 0 {
                caret - 1
            } else {
                0
            };
            if from == caret {
                return;
            }
            self.begin_edit(text.clone(), false);
            let rest = delete_range(&chars, from, caret);
            *text = string_of(rest.as_slice());
            self.caret = from;
            self.anchor = from;
            proof {
                lemma_view_parts(self);
            }
        } else {
            self.begin_edit(text.clone(), false);
            let rest = self.delete_selection(&chars);
            *text = string_of(rest.as_slice());
        }
    }

    /// Forward delete: removes the selection, or else the character (with
    /// `word`, the word) after the caret.
    pub fn delete(&mut self, text: &mut String, word: bool)
        requires
            !word && old(self)@.caret == old(self)@.anchor ==> old(self)@.caret < usize::MAX,
        ensures
            (final(self)@, final(text)@) == deleted_forward(old(self)@, old(text)@, word),
    {
        proof {
            lemma_view_parts(self);
        }
        let chars = chars_of(text.as_str());
        if self.selection().is_none() {
            let caret = self.caret;
            let n = chars.len();
            let to = if word {
                next_word_boundary(text.as_str(), caret)
            } else if caret + 1 < n {
                caret + 1
            } else {
                n
            };
            if to == caret {
                return;
            }
            self.begin_edit(text.clone(), false);
            let rest = delete_range(&chars, caret, to);
            *text = string_of(rest.as_slice());
            self.anchor = self.caret;
            proof {
                lemma_view_parts(self);
            }
        } else {
            self.begin_edit(text.clone(), false);
            let rest = self.delete_selection(&chars);
            *text = string_of(rest.as_slice());
        }
    }

    /// Start of the line (the whole text, single line).
    pub fn move_home(&mut self, extend: bool)
        ensures
            final(self)@ == placed(old(self)@, 0, extend),
    {
        self.place(0, extend);
    }

    /// End of the line (the whole text, single line).
    pub fn move_end(&mut self, text: &str, extend: bool)
        ensures
            final(self)@ == placed(old(self)@, text@.len() as usize, extend),
    {
        let n = char_count(text);
        self.place(n, extend);
    }

    /// Select everything: anchor at 0, caret at the end. Like every caret
    /// move, this ends a run of typing.
    pub fn select_all(&mut self, text: &str)
        ensures
            final(self)@ == all_selected(old(self)@, text@),
    {
        self.anchor = 0;
        self.caret = char_count(text);
        self.last_typing = false;
    }
}

impl Default for EditState {
    fn default() -> (e: Self)
        ensures
            e@ == initial_model(),
    {
        Self::new()
    }
}

// ── Laws ───────────────────────────────────────────────────────────

/// Redo undoes an undo: with a snapshot to undo, undoing and then redoing
/// gives back the text, caret, anchor and both stacks.
pub proof fn law_redo_after_undo(m: EditModel, s: Seq<char>)
    requires
        m.history.len() > 0,
    ensures
        redone(undone(m, s).0, undone(m, s).1) == (EditModel { last_typing: false, ..m }, s),
{
    let (m1, s1) = undone(m, s);
    assert(m1.history.push((s1, m1.caret, m1.anchor)) =~= m.history);
    assert(m1.future.drop_last() =~= m.future);
}

/// Undo undoes a redo: with a snapshot to redo, redoing and then undoing
/// gives back the text, caret, anchor and both stacks.
pub proof fn law_undo_after_redo(m: EditModel, s: Seq<char>)
    requires
        m.future.len() > 0,
    ensures
        undone(redone(m, s).0, redone(m, s).1) == (EditModel { last_typing: false, ..m }, s),
{
    let (m1, s1) = redone(m, s);
    assert(m1.future.push((s1, m1.caret, m1.anchor)) =~= m.future);
    assert(m1.history.drop_last() =~= m.history);
}

/// Undo after a recorded edit restores the text, caret and anchor from
/// before it; below them stays the undo stack from before, less the
/// oldest entry when it was full.
proof fn lemma_undo_began(m: EditModel, s: Seq<char>, typing: bool, after: EditModel, t: Seq<char>)
    requires
        !(typing && m.last_typing),
        after.history == began(m, s, typing).history,
    ensures
        undone(after, t).1 == s,
        undone(after, t).0.caret == m.caret,
        undone(after, t).0.anchor == m.anchor,
        undone(after, t).0.history == kept_below(m.history),
{
    let p = m.history.push((s, m.caret, m.anchor));
    if p.len() > UNDO_DEPTH {
        assert(after.history.last() == (s, m.caret, m.anchor));
        assert(after.history.drop_last() =~= kept_below(m.history));
    } else {
        assert(after.history.drop_last() =~= m.history);
    }
}

/// Undo after a backspace that changed something restores the text,
/// caret and anchor, however full the undo stack was.
pub proof fn law_undo_backspace(m: EditModel, s: Seq<char>, word: bool)
    requires
        backspaced(m, s, word) != (m, s),
    ensures
        undone(backspaced(m, s, word).0, backspaced(m, s, word).1).1 == s,
        undone(backspaced(m, s, word).0, backspaced(m, s, word).1).0.caret == m.caret,
        undone(backspaced(m, s, word).0, backspaced(m, s, word).1).0.anchor == m.anchor,
{
    let (m1, s1) = backspaced(m, s, word);
    lemma_undo_began(m, s, false, m1, s1);
}

/// Undo after a forward delete that changed something restores the text,
/// caret and anchor, however full the undo stack was.
pub proof fn law_undo_delete(m: EditModel, s: Seq<char>, word: bool)
    requires
        deleted_forward(m, s, word) != (m, s),
    ensures
        undone(deleted_forward(m, s, word).0, deleted_forward(m, s, word).1).1 == s,
        undone(deleted_forward(m, s, word).0, deleted_forward(m, s, word).1).0.caret == m.caret,
        undone(deleted_forward(m, s, word).0, deleted_forward(m, s, word).1).0.anchor == m.anchor,
{
    let (m1, s1) = deleted_forward(m, s, word);
    lemma_undo_began(m, s, false, m1, s1);
}

/// Undo after a cut restores the text, caret and anchor, however full
/// the undo stack was.
pub proof fn law_undo_cut(m: EditModel, s: Seq<char>)
    requires
        selection_of(m) is Some,
    ensures
        undone(cut_result(m, s).0, cut_result(m, s).1).1 == s,
        undone(cut_result(m, s).0, cut_result(m, s).1).0.caret == m.caret,
        undone(cut_result(m, s).0, cut_result(m, s).1).0.anchor == m.anchor,
{
    let r = cut_result(m, s);
    lemma_undo_began(m, s, false, r.0, r.1);
}

/// Undo after a paste that went ahead restores the text, caret and
/// anchor, however full the undo stack was.
pub proof fn law_undo_paste(m: EditModel, s: Seq<char>, p: Seq<char>, max: int)
    requires
        paste_fits(m, s, p, max),
    ensures
        undone(pasted(m, s, p, max).0, pasted(m, s, p, max).1).1 == s,
        undone(pasted(m, s, p, max).0, pasted(m, s, p, max).1).0.caret == m.caret,
        undone(pasted(m, s, p, max).0, pasted(m, s, p, max).1).0.anchor == m.anchor,
{
    let (m1, s1) = pasted(m, s, p, max);
    lemma_undo_began(m, s, false, m1, s1);
}

/// A run of typing is one undo step: typing two characters after a
/// non-typing action and undoing once restores the text, caret and anchor
/// from before the first character, and the undo stack from before (less
/// its oldest entry when it was full).
pub proof fn law_typing_merges(m: EditModel, s: Seq<char>, c1: char, c2: char, max: int)
    requires
        !m.last_typing,
        typing_fits(m, s, c1, max),
        typing_fits(typed(m, s, c1, max).0, typed(m, s, c1, max).1, c2, max),
    ensures
        ({
            let (m1, s1) = typed(m, s, c1, max);
            let (m2, s2) = typed(m1, s1, c2, max);
            let (m3, s3) = undone(m2, s2);
            &&& s3 == s
            &&& m3.caret == m.caret
            &&& m3.anchor == m.anchor
            &&& m3.history == kept_below(m.history)
        }),
{
    let (m1, s1) = typed(m, s, c1, max);
    let (m2, s2) = typed(m1, s1, c2, max);
    assert(m1.last_typing);
    assert(m2.history == m1.history);
    lemma_undo_began(m, s, true, m2, s2);
}

/// Encoded length of an insertion is the sum of the parts.
proof fn lemma_insert_utf8_len(s: Seq<char>, i: int, t: Seq<char>)
    requires
        0 <= i,
    ensures
        utf8_len(insert_chars(s, i, t)) == utf8_len(s) + utf8_len(t),
{
    let n = s.len() as int;
    let ci = clamp(i, n);
    lemma_utf8_len_concat(s.subrange(0, ci), t);
    lemma_utf8_len_concat(s.subrange(0, ci) + t, s.subrange(ci, n));
    lemma_utf8_len_concat(s.subrange(0, ci), s.subrange(ci, n));
    assert(s.subrange(0, ci) + s.subrange(ci, n) =~= s);
}

/// The greedy prefix never exceeds its room.
proof fn lemma_fit_prefix_len(p: Seq<char>, room: int)
    requires
        0 <= room,
    ensures
        utf8_len(fit_prefix(p, room)) <= room,
        fit_prefix(p, room).len() <= p.len(),
    decreases p.len(),
{
    if p.len() > 0 && char_utf8_len(p[0]) <= room {
        lemma_fit_prefix_len(p.drop_first(), room - char_utf8_len(p[0]));
        lemma_utf8_len_concat(seq![p[0]], fit_prefix(p.drop_first(), room - char_utf8_len(p[0])));
        lemma_utf8_len_one(p[0]);
    }
}

/// Typing keeps the text within the byte budget: a text that fits
/// `max` bytes still fits after typing a character.
pub proof fn law_typing_within_budget(m: EditModel, s: Seq<char>, ch: char, max: int)
    requires
        utf8_len(s) <= max,
    ensures
        utf8_len(typed(m, s, ch, max).1) <= max,
{
    if typing_fits(m, s, ch, max) {
        let (m2, s2) = selection_deleted(began(m, s, true), s);
        lemma_insert_utf8_len(s2, m2.caret as int, seq![ch]);
        lemma_utf8_len_one(ch);
    }
}

/// Pasting keeps the text within the byte budget: a text that fits
/// `max` bytes still fits after a paste.
pub proof fn law_paste_within_budget(m: EditModel, s: Seq<char>, p: Seq<char>, max: int)
    requires
        utf8_len(s) <= max,
    ensures
        utf8_len(pasted(m, s, p, max).1) <= max,
{
    if paste_fits(m, s, p, max) {
        let (m2, s2) = selection_deleted(began(m, s, false), s);
        let len = utf8_len(selection_deleted(m, s).1);
        lemma_fit_prefix_len(strip_controls(p), if len <= max { max - len } else { 0 });
        lemma_insert_utf8_len(s2, m2.caret as int, paste_added(m, s, p, max));
        match selection_of(m) {
            Some((a, b)) => {
                lemma_delete_utf8_len(s, a as int, b as int);
            },
            None => {},
        }
    }
}

/// A snapshot whose caret and anchor lie within its text.
pub open spec fn snap_in_text(t: Snapshot) -> bool {
    t.1 <= t.0.len() && t.2 <= t.0.len()
}

/// Caret and anchor lie within `s`, and so do those of every snapshot on
/// either stack.
pub open spec fn in_text(m: EditModel, s: Seq<char>) -> bool {
    &&& m.caret <= s.len()
    &&& m.anchor <= s.len()
    &&& forall|i: int| 0 <= i < m.history.len() ==> snap_in_text(#[trigger] m.history[i])
    &&& forall|i: int| 0 <= i < m.future.len() ==> snap_in_text(#[trigger] m.future[i])
}

/// Preparing an edit keeps positions in the text.
proof fn lemma_began_in_text(m: EditModel, s: Seq<char>, typing: bool)
    requires
        in_text(m, s),
    ensures
        in_text(began(m, s, typing), s),
{
    let b = began(m, s, typing);
    if !(typing && m.last_typing) {
        let snap = (s, m.caret, m.anchor);
        let p = m.history.push(snap);
        assert forall|i: int| 0 <= i < b.history.len() implies snap_in_text(#[trigger] b.history[i]) by {
            let k = if p.len() > UNDO_DEPTH { p.len() - UNDO_DEPTH } else { 0 };
            assert(b.history[i] == p[i + k]);
            if i + k < m.history.len() {
                assert(p[i + k] == m.history[i + k]);
            }
        }
    }
}

/// Removing the selection keeps positions in the remaining text.
proof fn lemma_selection_deleted_in_text(m: EditModel, s: Seq<char>)
    requires
        in_text(m, s),
    ensures
        in_text(selection_deleted(m, s).0, selection_deleted(m, s).1),
        selection_deleted(m, s).0.history == m.history,
        selection_deleted(m, s).0.future == m.future,
{
}

/// Every edit keeps the caret, the anchor and all saved snapshots within
/// their texts: placing the caret inside the text, moving by characters or
/// words, typing, pasting, deleting backward or forward, cutting, undoing
/// and redoing all lead from such a state to another. Moving right by a
/// word relies on the word segments joining back to the text, which
/// `split_word_bounds` guarantees for every text it splits.
pub proof fn law_edits_keep_positions_in_text(
    m: EditModel,
    s: Seq<char>,
    pos: usize,
    word: bool,
    extend: bool,
    ch: char,
    p: Seq<char>,
    max: int,
)
    requires
        in_text(m, s),
    ensures
        pos <= s.len() ==> in_text(placed(m, pos, extend), s),
        in_text(moved_left(m, s, word, extend), s),
        !word || concat(word_segments(s)) == s ==> in_text(moved_right(m, s, word, extend), s),
        in_text(typed(m, s, ch, max).0, typed(m, s, ch, max).1),
        in_text(pasted(m, s, p, max).0, pasted(m, s, p, max).1),
        in_text(backspaced(m, s, word).0, backspaced(m, s, word).1),
        in_text(deleted_forward(m, s, word).0, deleted_forward(m, s, word).1),
        in_text(cut_result(m, s).0, cut_result(m, s).1),
        in_text(undone(m, s).0, undone(m, s).1),
        in_text(redone(m, s).0, redone(m, s).1),
{
    lemma_boundary_from_bounds(word_segments(s.reverse()), s.len() - m.caret, 0);
    lemma_boundary_from_bounds(word_segments(s), m.caret as int, 0);
    lemma_began_in_text(m, s, true);
    lemma_began_in_text(m, s, false);
    lemma_selection_deleted_in_text(began(m, s, true), s);
    lemma_selection_deleted_in_text(began(m, s, false), s);
    let u = undone(m, s);
    if m.history.len() > 0 {
        assert(snap_in_text(m.history[m.history.len() - 1]));
        assert forall|i: int| 0 <= i < u.0.future.len() implies snap_in_text(#[trigger] u.0.future[i]) by {
            if i < m.future.len() {
                assert(u.0.future[i] == m.future[i]);
            }
        }
        assert forall|i: int| 0 <= i < u.0.history.len() implies snap_in_text(#[trigger] u.0.history[i]) by {
            assert(u.0.history[i] == m.history[i]);
        }
    }
    let r = redone(m, s);
    if m.future.len() > 0 {
        assert(snap_in_text(m.future[m.future.len() - 1]));
        assert forall|i: int| 0 <= i < r.0.history.len() implies snap_in_text(#[trigger] r.0.history[i]) by {
            if i < m.history.len() {
                assert(r.0.history[i] == m.history[i]);
            }
        }
        assert forall|i: int| 0 <= i < r.0.future.len() implies snap_in_text(#[trigger] r.0.future[i]) by {
            assert(r.0.future[i] == m.future[i]);
        }
    }
}

} // verus!

//! The panel's text inputs: one buffer per field, the shared edit state,
//! and the decisions taken on key presses, typed characters (including
//! UTF-16 surrogate halves) and clicks into a text box.

use vstd::prelude::*;
use vstd::utf8::char_u32_cast;

use crate::chars::{char_count, chars_of, string_of};
use crate::panel::InputField;
use crate::text_edit::{
    all_selected, backspaced, chars_between, cut_result, deleted_forward, is_control, moved_left, moved_right,
    pasted, placed, range_from, redone, selection_of, typed, typing_fits, undone, word_range_at,
    word_segments, EditModel, EditState,
};

verus! {

/// Byte limit of one input buffer.
pub const INPUT_MAX_BYTES: usize = 128;

/// The text inputs of the panel; buffers follow the order of `InputField`.
pub struct PanelInput {
    pub field: Option<InputField>,
    pub edit: EditState,
    pub surrogate: Option<u16>,
    pub interval: String,
    pub proxy: String,
    pub peak_start: String,
    pub peak_end: String,
    pub name: String,
    pub key: String,
    pub org: String,
    pub project: String,
}

/// The field whose buffer is edited: the focused one, else `Interval`.
pub open spec fn active_field(inp: PanelInput) -> InputField {
    match inp.field {
        Some(f) => f,
        None => InputField::Interval,
    }
}

/// The characters of the buffer of field `f`.
pub open spec fn buffer_of(inp: PanelInput, f: InputField) -> Seq<char> {
    match f {
        InputField::Interval => inp.interval@,
        InputField::Proxy => inp.proxy@,
        InputField::PeakStart => inp.peak_start@,
        InputField::PeakEnd => inp.peak_end@,
        InputField::Name => inp.name@,
        InputField::Key => inp.key@,
        InputField::Org => inp.org@,
        InputField::Project => inp.project@,
    }
}

/// The characters of the active buffer.
pub open spec fn active_text(inp: PanelInput) -> Seq<char> {
    buffer_of(inp, active_field(inp))
}

/// `new` is `old` after an edit that left edit state `m` and active text
/// `t`: focus and pending surrogate kept, other buffers untouched.
pub open spec fn edited(old: PanelInput, new: PanelInput, m: EditModel, t: Seq<char>) -> bool {
    &&& new.field == old.field
    &&& new.surrogate == old.surrogate
    &&& new.edit@ == m
    &&& buffer_of(new, active_field(old)) == t
    &&& forall|f: InputField| f != active_field(old) ==> buffer_of(new, f) == buffer_of(old, f)
}

/// Editing keys the panel handles.
#[derive(Debug, Clone, Copy, PartialEq, Eq)]
pub enum EditKey {
    Left,
    Right,
    Home,
    End,
    Delete,
    Z,
    Y,
}

/// Edit state, active text and whether the key acted, for `key` with the
/// given modifiers (Ctrl moves and deletes by words, Shift extends; Ctrl+Z
/// undoes, Ctrl+Shift+Z and Ctrl+Y redo). Nothing happens without focus.
pub open spec fn key_result(inp: PanelInput, key: EditKey, ctrl: bool, shift: bool) -> (EditModel, Seq<char>, bool) {
    let m = inp.edit@;
    let t = active_text(inp);
    if inp.field is None {
        (m, t, false)
    } else {
        match key {
            EditKey::Left => (moved_left(m, t, ctrl, shift), t, true),
            EditKey::Right => (moved_right(m, t, ctrl, shift), t, true),
            EditKey::Home => (placed(m, 0, shift), t, true),
            EditKey::End => (placed(m, t.len() as usize, shift), t, true),
            EditKey::Delete => (deleted_forward(m, t, ctrl).0, deleted_forward(m, t, ctrl).1, true),
            EditKey::Z => if !ctrl {
                (m, t, false)
            } else if shift {
                (redone(m, t).0, redone(m, t).1, true)
            } else {
                (undone(m, t).0, undone(m, t).1, true)
            },
            EditKey::Y => if ctrl {
                (redone(m, t).0, redone(m, t).1, true)
            } else {
                (m, t, false)
            },
        }
    }
}

/// Home and End in a focused field put the caret at the start or the end
/// of its text; with Shift the anchor stays, extending the selection, and
/// without it the anchor follows, leaving no selection. The text is not
/// changed and the key counts as handled.
pub proof fn law_home_end_select_with_shift(inp: PanelInput, ctrl: bool, shift: bool)
    requires
        inp.field is Some,
    ensures
        ({
            let t = active_text(inp);
            let home = key_result(inp, EditKey::Home, ctrl, shift);
            let end = key_result(inp, EditKey::End, ctrl, shift);
            &&& home.0.caret == 0
            &&& end.0.caret == t.len() as usize
            &&& home.0.anchor == if shift { inp.edit@.anchor } else { 0 }
            &&& end.0.anchor == if shift { inp.edit@.anchor } else { t.len() as usize }
            &&& home.1 == t && end.1 == t
            &&& home.2 && end.2
        }),
{
}

/// The inputs on which the edit operations behind a key are defined: word
/// moves need the caret within the text, character moves and deletes a
/// caret below `usize::MAX`.
pub open spec fn key_allowed(inp: PanelInput, key: EditKey, ctrl: bool, shift: bool) -> bool {
    let m = inp.edit@;
    let t = active_text(inp);
    let collapsing = m.caret == m.anchor;
    match key {
        EditKey::Left => ctrl && (shift || collapsing) ==> m.caret <= t.len(),
        EditKey::Right => !ctrl && (shift || collapsing) ==> m.caret < usize::MAX,
        EditKey::Delete => !ctrl && collapsing ==> m.caret < usize::MAX,
        _ => true,
    }
}

/// What the window has to do after a typed character.
#[derive(Debug, Clone, PartialEq, Eq)]
pub enum CharOutcome {
    /// Nothing beyond redrawing.
    Nothing,
    /// Enter: confirm the input.
    Confirm,
    /// Put this text on the clipboard.
    Clipboard(String),
    /// Read the clipboard and hand it to `paste_clipboard`.
    ReadClipboard,
}

/// `CharOutcome` with its text as characters.
pub enum CharEffect {
    Nothing,
    Confirm,
    Clipboard(Seq<char>),
    ReadClipboard,
}

/// The abstract view of a `CharOutcome`.
pub open spec fn effect_of(o: CharOutcome) -> CharEffect {
    match o {
        CharOutcome::Nothing => CharEffect::Nothing,
        CharOutcome::Confirm => CharEffect::Confirm,
        CharOutcome::Clipboard(s) => CharEffect::Clipboard(s@),
        CharOutcome::ReadClipboard => CharEffect::ReadClipboard,
    }
}

/// Edit state, active text and effect of a typed character `c`, with the
/// Windows edit-control conventions: Enter confirms, Backspace deletes
/// (Ctrl: a word; DEL, sent by Ctrl+Backspace, a word), Ctrl+A selects all,
/// Ctrl+C copies the selection or else the whole text, Ctrl+X cuts the
/// selection or else the whole text (neither while the key is masked),
/// Ctrl+V asks for the clipboard, other non-control characters are typed.
pub open spec fn char_result(inp: PanelInput, c: char, ctrl: bool, masked: bool) -> (EditModel, Seq<char>, CharEffect) {
    let m = inp.edit@;
    let t = active_text(inp);
    if c == '\r' || c == '\n' {
        (m, t, CharEffect::Confirm)
    } else if c == '\u{8}' {
        (backspaced(m, t, ctrl).0, backspaced(m, t, ctrl).1, CharEffect::Nothing)
    } else if c == '\u{7f}' {
        (backspaced(m, t, true).0, backspaced(m, t, true).1, CharEffect::Nothing)
    } else if c == '\u{1}' {
        (all_selected(m, t), t, CharEffect::Nothing)
    } else if c == '\u{3}' && !masked {
        match selection_of(m) {
            Some((a, b)) => (m, t, CharEffect::Clipboard(chars_between(t, a as int, b as int))),
            None => if t.len() > 0 {
                (m, t, CharEffect::Clipboard(t))
            } else {
                (m, t, CharEffect::Nothing)
            },
        }
    } else if c == '\u{18}' && !masked {
        if selection_of(m) is None && t.len() == 0 {
            (m, t, CharEffect::Nothing)
        } else {
            let m1 = if selection_of(m) is None {
                all_selected(m, t)
            } else {
                m
            };
            let r = cut_result(m1, t);
            (r.0, r.1, CharEffect::Clipboard(r.2.unwrap()))
        }
    } else if c == '\u{16}' {
        (m, t, CharEffect::ReadClipboard)
    } else if !is_control(c) {
        (typed(m, t, c, INPUT_MAX_BYTES as int).0, typed(m, t, c, INPUT_MAX_BYTES as int).1, CharEffect::Nothing)
    } else {
        (m, t, CharEffect::Nothing)
    }
}

/// The inputs on which the edit operation behind a character is defined.
pub open spec fn char_allowed(inp: PanelInput, c: char, ctrl: bool) -> bool {
    let m = inp.edit@;
    let t = active_text(inp);
    let collapsing = m.caret == m.anchor;
    &&& c == '\u{8}' && ctrl && collapsing ==> m.caret <= t.len()
    &&& c == '\u{7f}' && collapsing ==> m.caret <= t.len()
    &&& (!is_control(c) && typing_fits(m, t, c, INPUT_MAX_BYTES as int)) ==> crate::text_edit::selection_deleted(
        m,
        t,
    ).0.caret < usize::MAX
}

/// UTF-16 code unit decoding with a pending high surrogate: a high half is
/// stored; a low half completes the stored one (dropping the pair if none
/// is stored); any other unit clears the store and stands for itself.
pub open spec fn decoded(pending: Option<u16>, unit: u16) -> (Option<u16>, Option<char>) {
    if 0xD800 <= unit < 0xDC00 {
        (Some(unit), None)
    } else if 0xDC00 <= unit < 0xE000 {
        match pending {
            Some(hi) => (None, Some((0x10000 + (hi - 0xD800) * 1024 + (unit - 0xDC00)) as char)),
            None => (None, None),
        }
    } else {
        (None, Some(unit as char))
    }
}

/// `char::from_u32`: `None` for surrogates and values above U+10FFFF.
#[verifier::external_body]
fn char_from_u32(u: u32) -> (r: Option<char>)
    ensures
        (r is Some) <==> (u <= 0x10FFFF && !(0xD800 <= u <= 0xDFFF)),
        r matches Some(c) ==> c as u32 == u,
{
    char::from_u32(u)
}

impl PanelInput {
    /// Empty buffers, no focus.
    pub fn new() -> (r: Self)
        ensures
            r.field is None,
            r.surrogate is None,
            r.edit@ == crate::text_edit::initial_model(),
            forall|f: InputField| buffer_of(r, f) == Seq::<char>::empty(),
    {
        PanelInput {
            field: None,
            edit: EditState::new(),
            surrogate: None,
            interval: String::new(),
            proxy: String::new(),
            peak_start: String::new(),
            peak_end: String::new(),
            name: String::new(),
            key: String::new(),
            org: String::new(),
            project: String::new(),
        }
    }

    /// The active buffer (the focused field's, else the interval's).
    pub fn active_str(&self) -> (r: &str)
        ensures
            r@ == active_text(*self),
    {
        match self.field {
            Some(InputField::Interval) => self.interval.as_str(),
            Some(InputField::Proxy) => self.proxy.as_str(),
            Some(InputField::PeakStart) => self.peak_start.as_str(),
            Some(InputField::PeakEnd) => self.peak_end.as_str(),
            Some(InputField::Name) => self.name.as_str(),
            Some(InputField::Key) => self.key.as_str(),
            Some(InputField::Org) => self.org.as_str(),
            Some(InputField::Project) => self.project.as_str(),
            None => self.interval.as_str(),
        }
    }

    /// Replaces the active buffer.
    fn set_active(&mut self, t: String)
        ensures
            final(self).field == old(self).field,
            final(self).surrogate == old(self).surrogate,
            final(self).edit == old(self).edit,
            buffer_of(*final(self), active_field(*old(self))) == t@,
            forall|f: InputField| f != active_field(*old(self)) ==> buffer_of(*final(self), f) == buffer_of(*old(self), f),
    {
        match self.field {
            Some(InputField::Interval) => self.interval = t,
            Some(InputField::Proxy) => self.proxy = t,
            Some(InputField::PeakStart) => self.peak_start = t,
            Some(InputField::PeakEnd) => self.peak_end = t,
            Some(InputField::Name) => self.name = t,
            Some(InputField::Key) => self.key = t,
            Some(InputField::Org) => self.org = t,
            Some(InputField::Project) => self.project = t,
            None => self.interval = t,
        }
    }

    /// A copy of the active buffer.
    fn active_string(&self) -> (r: String)
        ensures
            r@ == active_text(*self),
    {
        string_of(chars_of(self.active_str()).as_slice())
    }

    /// The displayed text of the focused field: the key, unless revealed,
    /// as one dot per character; any other field as it is.
    pub fn field_display(&self, key_revealed: bool) -> (r: String)
        ensures
            self.field == Some(InputField::Key) && !key_revealed ==> r@ == Seq::new(
                self.key@.len(),
                |_i: int| crate::views::DOT,
            ),
            !(self.field == Some(InputField::Key) && !key_revealed) ==> r@ == active_text(*self),
    {
        let key_field = match self.field {
            Some(InputField::Key) => true,
            _ => false,
        };
        if key_field && !key_revealed {
            let n = char_count(self.key.as_str());
            let mut out: Vec<char> = Vec::new();
            let mut i: usize = 0;
            while i < n
                invariant
                    i <= n,
                    out@ == Seq::new(i as nat, |_j: int| crate::views::DOT),
                decreases n - i,
            {
                out.push(crate::views::DOT);
                i = i + 1;
                assert(out@ =~= Seq::new(i as nat, |_j: int| crate::views::DOT));
            }
            string_of(out.as_slice())
        } else {
            self.active_string()
        }
    }

    /// Leaves input mode: no focus, fresh edit state, no pending surrogate.
    pub fn clear(&mut self)
        ensures
            final(self).field is None,
            final(self).surrogate is None,
            final(self).edit@ == crate::text_edit::initial_model(),
            forall|f: InputField| buffer_of(*final(self), f) == buffer_of(*old(self), f),
    {
        self.field = None;
        self.edit.reset();
        self.surrogate = None;
    }

    /// Reopening the panel from hidden: the settings drafts (interval,
    /// proxy, peak start and end) are emptied and input ends; the drafts
    /// of the add-account form are kept.
    pub fn reset_settings(&mut self)
        ensures
            final(self).field is None,
            final(self).surrogate is None,
            final(self).edit@ == crate::text_edit::initial_model(),
            forall|f: InputField|
                buffer_of(*final(self), f) == match f {
                    InputField::Interval | InputField::Proxy | InputField::PeakStart
                    | InputField::PeakEnd => Seq::<char>::empty(),
                    _ => buffer_of(*old(self), f),
                },
    {
        self.interval = String::new();
        self.proxy = String::new();
        self.peak_start = String::new();
        self.peak_end = String::new();
        self.clear();
    }

    /// Focuses `field`. Switching fields starts a fresh edit state (undo
    /// does not cross fields), drops a pending surrogate and puts the caret
    /// at the end; focusing the same field again keeps the caret. Returns
    /// whether the field changed.
    pub fn focus(&mut self, field: InputField) -> (switched: bool)
        ensures
            switched == (old(self).field != Some(field)),
            final(self).field == Some(field),
            forall|f: InputField| buffer_of(*final(self), f) == buffer_of(*old(self), f),
            !switched ==> final(self).edit@ == old(self).edit@ && final(self).surrogate == old(self).surrogate,
            switched ==> final(self).surrogate is None && final(self).edit@ == crate::text_edit::collapsed_at(
                crate::text_edit::initial_model(),
                buffer_of(*old(self), field).len() as usize,
            ),
    {
        let switched = match self.field {
            Some(f) => !(f == field),
            None => true,
        };
        if switched {
            self.edit.reset();
            self.surrogate = None;
        }
        self.field = Some(field);
        if switched {
            let buf = self.active_string();
            self.edit.caret_to_end(buf.as_str());
        }
        switched
    }

    /// Decodes one UTF-16 unit of typed input, pairing surrogate halves.
    pub fn decode_unit(&mut self, unit: u16) -> (r: Option<char>)
        requires
            0xDC00 <= unit < 0xE000 ==> (old(self).surrogate matches Some(hi) ==> 0xD800 <= hi < 0xDC00),
        ensures
            (final(self).surrogate, r) == decoded(old(self).surrogate, unit),
            final(self).field == old(self).field,
            final(self).edit == old(self).edit,
            forall|f: InputField| buffer_of(*final(self), f) == buffer_of(*old(self), f),
    {
        let cp = unit as u32;
        if 0xD800 <= cp && cp < 0xDC00 {
            self.surrogate = Some(unit);
            None
        } else if 0xDC00 <= cp && cp < 0xE000 {
            match self.surrogate.take() {
                Some(hi) => {
                    let u = 0x10000 + ((hi as u32) - 0xD800) * 1024 + cp - 0xDC00;
                    let r = char_from_u32(u);
                    proof {
                        if let Some(c) = r {
                            char_u32_cast(c, u);
                        }
                    }
                    r
                },
                None => None,
            }
        } else {
            self.surrogate = None;
            let r = char_from_u32(cp);
            proof {
                if let Some(c) = r {
                    char_u32_cast(c, cp);
                }
            }
            r
        }
    }

    /// Handles an editing key for the focused field; returns whether it
    /// acted.
    pub fn handle_key(&mut self, key: EditKey, ctrl: bool, shift: bool) -> (acted: bool)
        requires
            key_allowed(*old(self), key, ctrl, shift),
        ensures
            edited(
                *old(self),
                *final(self),
                key_result(*old(self), key, ctrl, shift).0,
                key_result(*old(self), key, ctrl, shift).1,
            ),
            acted == key_result(*old(self), key, ctrl, shift).2,
    {
        if self.field.is_none() {
            return false;
        }
        let mut t = self.active_string();
        let acted = match key {
            EditKey::Left => {
                self.edit.move_left(t.as_str(), ctrl, shift);
                true
            },
            EditKey::Right => {
                self.edit.move_right(t.as_str(), ctrl, shift);
                true
            },
            EditKey::Home => {
                self.edit.move_home(shift);
                true
            },
            EditKey::End => {
                self.edit.move_end(t.as_str(), shift);
                true
            },
            EditKey::Delete => {
                self.edit.delete(&mut t, ctrl);
                true
            },
            EditKey::Z => {
                if ctrl {
                    if shift {
                        self.edit.redo(&mut t);
                    } else {
                        self.edit.undo(&mut t);
                    }
                    true
                } else {
                    false
                }
            },
            EditKey::Y => {
                if ctrl {
                    self.edit.redo(&mut t);
                    true
                } else {
                    false
                }
            },
        };
        self.set_active(t);
        acted
    }

    /// Handles a typed character for the focused field (see `char_result`)
    /// and tells the window what else to do. Nothing happens without focus.
    pub fn handle_char(&mut self, c: char, ctrl: bool, key_masked: bool) -> (r: CharOutcome)
        requires
            char_allowed(*old(self), c, ctrl),
        ensures
            old(self).field is None ==> *final(self) == *old(self) && r == CharOutcome::Nothing,
            old(self).field is Some ==> edited(
                *old(self),
                *final(self),
                char_result(*old(self), c, ctrl, key_masked).0,
                char_result(*old(self), c, ctrl, key_masked).1,
            ) && effect_of(r) == char_result(*old(self), c, ctrl, key_masked).2,
    {
        if self.field.is_none() {
            return CharOutcome::Nothing;
        }
        let mut t = self.active_string();
        let mut out = CharOutcome::Nothing;
        if c == '\r' || c == '\n' {
            out = CharOutcome::Confirm;
        } else if c == '\u{8}' {
            self.edit.backspace(&mut t, ctrl);
        } else if c == '\u{7f}' {
            self.edit.backspace(&mut t, true);
        } else if c == '\u{1}' {
            self.edit.select_all(t.as_str());
        } else if c == '\u{3}' && !key_masked {
            match self.edit.copy(t.as_str()) {
                Some(s) => {
                    out = CharOutcome::Clipboard(string_of(chars_of(s).as_slice()));
                },
                None => {
                    if char_count(t.as_str()) > 0 {
                        out = CharOutcome::Clipboard(string_of(chars_of(t.as_str()).as_slice()));
                    }
                },
            }
        } else if c == '\u{18}' && !key_masked {
            let empty = char_count(t.as_str()) == 0;
            if !(self.edit.selection().is_none() && empty) {
                if self.edit.selection().is_none() {
                    self.edit.select_all(t.as_str());
                }
                match self.edit.cut(&mut t) {
                    Some(s) => {
                        out = CharOutcome::Clipboard(s);
                    },
                    None => {},
                }
            }
        } else if c == '\u{16}' {
            out = CharOutcome::ReadClipboard;
        } else if !crate::text_edit::char_is_control(c) {
            self.edit.insert(&mut t, c, INPUT_MAX_BYTES);
        }
        self.set_active(t);
        out
    }

    /// Pastes clipboard text into the focused field (Ctrl+V after
    /// `ReadClipboard`), within the byte limit of a buffer.
    pub fn paste_clipboard(&mut self, text: &str)
        requires
            crate::text_edit::paste_fits(old(self).edit@, active_text(*old(self)), text@, INPUT_MAX_BYTES as int)
                ==> crate::text_edit::selection_deleted(old(self).edit@, active_text(*old(self))).0.caret
                + crate::text_edit::paste_added(
                old(self).edit@,
                active_text(*old(self)),
                text@,
                INPUT_MAX_BYTES as int,
            ).len() <= usize::MAX,
        ensures
            edited(
                *old(self),
                *final(self),
                pasted(old(self).edit@, active_text(*old(self)), text@, INPUT_MAX_BYTES as int).0,
                pasted(old(self).edit@, active_text(*old(self)), text@, INPUT_MAX_BYTES as int).1,
            ),
    {
        let mut t = self.active_string();
        self.edit.paste(&mut t, text, INPUT_MAX_BYTES);
        self.set_active(t);
    }

    /// Places the caret for a click at character `pos` that is the
    /// `count`-th of a run of clicks: a double click selects the word there
    /// (everything while the key is masked), a triple click everything, a
    /// single click places the caret (Shift extends the selection).
    pub fn click(&mut self, count: u8, pos: usize, shift: bool, key_masked: bool)
        ensures
            final(self).field == old(self).field,
            final(self).surrogate == old(self).surrogate,
            forall|f: InputField| buffer_of(*final(self), f) == buffer_of(*old(self), f),
            final(self).edit@ == if count == 2 && !key_masked {
                let r = range_from(word_segments(active_text(*old(self))), pos as int, 0);
                placed(placed(old(self).edit@, r.0 as usize, false), r.1 as usize, true)
            } else if count == 2 || count == 3 {
                all_selected(old(self).edit@, active_text(*old(self)))
            } else {
                placed(old(self).edit@, pos, shift)
            },
    {
        let current = self.active_string();
        if count == 2 {
            if key_masked {
                self.edit.select_all(current.as_str());
            } else {
                let (a, b) = word_range_at(current.as_str(), pos);
                self.edit.place(a, false);
                self.edit.place(b, true);
            }
        } else if count == 3 {
            self.edit.select_all(current.as_str());
        } else {
            self.edit.place(pos, shift);
        }
    }
}

/// Decoding inverts UTF-16 encoding: the code units of any character,
/// fed one after another, give back that character with no surrogate left
/// pending, whatever was pending before.
pub proof fn law_decode_inverts_utf16(c: char, pending: Option<u16>)
    ensures
        ({
            let u = crate::chars::utf16_of_char(c);
            if u.len() == 1 {
                decoded(pending, u[0]) == (None::<u16>, Some(c))
            } else {
                let (p1, r1) = decoded(pending, u[0]);
                &&& u.len() == 2
                &&& r1 is None
                &&& decoded(p1, u[1]) == (None::<u16>, Some(c))
            }
        }),
{
    let x = c as u32;
    vstd::utf8::char_is_scalar(c);
    vstd::utf8::char_u32_cast(c, x);
    if x >= 0x10000 {
        let v = (x - 0x10000) as u32;
        let hi = (0xD800 + v / 1024) as u16;
        let lo = (0xDC00 + v % 1024) as u16;
        assert(0xD800 <= hi < 0xDC00);
        assert(0xDC00 <= lo < 0xE000);
        assert(0x10000 + (hi - 0xD800) * 1024 + (lo - 0xDC00) == x);
    }
}

/// The `count`-th click of a run: a click within 500 ms (tick counter,
/// wrapping) and 8 px (Manhattan) of the previous one continues the run,
/// up to 3; anything else starts a new run.
pub open spec fn click_run(prev: Option<(u32, i32, i32, u8)>, now: u32, px: i32, py: i32) -> u8 {
    match prev {
        Some((t, cx, cy, n)) => {
            let dt = if now >= t {
                now - t
            } else {
                now + 0x1_0000_0000 - t
            };
            let dx = if px >= cx {
                px - cx
            } else {
                cx - px
            };
            let dy = if py >= cy {
                py - cy
            } else {
                cy - py
            };
            if dt <= 500 && dx + dy <= 8 {
                if n >= 3 {
                    3
                } else {
                    (n + 1) as u8
                }
            } else {
                1
            }
        },
        None => 1,
    }
}

/// Counts a click into the current run of clicks (see `click_run`).
pub fn click_count(prev: Option<(u32, i32, i32, u8)>, now: u32, px: i32, py: i32) -> (n: u8)
    ensures
        n == click_run(prev, now, px, py),
        1 <= n <= 3,
{
    match prev {
        Some((t, cx, cy, n)) => {
            let dt: u32 = if now >= t {
                now - t
            } else {
                ((now as u64 + 0x1_0000_0000u64) - t as u64) as u32
            };
            let dx: i64 = if px >= cx {
                px as i64 - cx as i64
            } else {
                cx as i64 - px as i64
            };
            let dy: i64 = if py >= cy {
                py as i64 - cy as i64
            } else {
                cy as i64 - py as i64
            };
            if dt <= 500 && dx + dy <= 8 {
                if n >= 3 {
                    3
                } else {
                    n + 1
                }
            } else {
                1
            }
        },
        None => 1,
    }
}

} // verus!

//! Text editing: the focused control's buffer (caret, anchor, selection), the
//! horizontal display window that keeps the caret visible in single-line
//! inputs, and the texts whose widths place the overlay.
//!
//! The shell only translates platform key events into [`EditOp`]s and
//! measures texts; all editing state lives here.
use crate::text;
use vstd::prelude::*;
use vstd::slice::slice_subrange;

verus! {

/// Whether a character is alphabetic or numeric in Unicode.
pub uninterp spec fn alphanumeric(c: char) -> bool;

/// `char::is_alphanumeric` depends on the character alone; which characters
/// it accepts is the Unicode character database's to say and is left open.
pub assume_specification[ char::is_alphanumeric ](c: char) -> (r: bool)
    ensures
        r == alphanumeric(c),
;

/// A single-line-oriented text buffer: caret and selection over a
/// string, with the keyboard operations native inputs have. Positions
/// are in chars.
#[derive(Debug)]
pub struct TextBuffer {
    pub text: String,
    pub caret: usize,
    /// Selection anchor (== caret when nothing is selected).
    pub anchor: usize,
}

impl Clone for TextBuffer {
    fn clone(&self) -> (r: TextBuffer)
        ensures
            r == *self,
    {
        TextBuffer { text: self.text.clone(), caret: self.caret, anchor: self.anchor }
    }
}

pub struct BufferModel {
    pub text: Seq<char>,
    pub caret: int,
    pub anchor: int,
}

pub open spec fn smaller(a: int, b: int) -> int {
    if a <= b {
        a
    } else {
        b
    }
}

pub open spec fn larger(a: int, b: int) -> int {
    if a <= b {
        b
    } else {
        a
    }
}

impl BufferModel {
    /// Caret and anchor stand in the text.
    pub open spec fn well_formed(self) -> bool {
        0 <= self.caret <= self.text.len() && 0 <= self.anchor <= self.text.len()
    }

    pub open spec fn start(self) -> int {
        smaller(self.caret, self.anchor)
    }

    pub open spec fn end(self) -> int {
        larger(self.caret, self.anchor)
    }

    /// A position, or the end of the text where it lies beyond.
    pub open spec fn clip(self, i: int) -> int {
        smaller(i, self.text.len() as int)
    }

    /// The text without the characters from `from` up to `to`.
    pub open spec fn without(self, from: int, to: int) -> Seq<char> {
        self.text.take(self.clip(from)) + self.text.skip(self.clip(to))
    }

    /// The selection is removed and the caret stands where it began.
    pub open spec fn deleted(self) -> BufferModel {
        if self.caret == self.anchor {
            self
        } else {
            BufferModel {
                text: self.without(self.start(), self.end()),
                caret: self.start(),
                anchor: self.start(),
            }
        }
    }

    /// The input replaces the selection and the caret stands behind it.
    pub open spec fn typed(self, input: Seq<char>) -> BufferModel {
        let base = self.deleted();
        let at = base.clip(base.caret);
        BufferModel {
            text: base.text.take(at) + input + base.text.skip(at),
            caret: base.caret + input.len(),
            anchor: base.caret + input.len(),
        }
    }

    /// The selection, or else the character before the caret, is removed.
    pub open spec fn erased(self) -> BufferModel {
        if self.caret != self.anchor {
            self.deleted()
        } else if self.caret == 0 {
            self
        } else {
            BufferModel {
                text: self.without(self.caret - 1, self.caret),
                caret: self.caret - 1,
                anchor: self.caret - 1,
            }
        }
    }

    /// The selection, or else the character behind the caret, is removed.
    pub open spec fn erased_forward(self) -> BufferModel {
        if self.caret != self.anchor {
            self.deleted()
        } else if self.caret >= self.text.len() {
            self
        } else {
            BufferModel { text: self.without(self.caret, self.caret + 1), ..self }
        }
    }

    /// The caret at `index`, with the anchor left behind where `select`.
    pub open spec fn at(self, index: int, select: bool) -> BufferModel {
        BufferModel {
            caret: index,
            anchor: if select {
                self.anchor
            } else {
                index
            },
            ..self
        }
    }

    pub open spec fn stepped(self, forward: bool, select: bool) -> BufferModel {
        let caret = if !select && self.caret != self.anchor {
            if forward {
                self.end()
            } else {
                self.start()
            }
        } else if forward {
            self.clip(self.caret + 1)
        } else if self.caret > 0 {
            self.caret - 1
        } else {
            0
        };
        self.at(caret, select)
    }

    pub open spec fn moved(self, index: int, select: bool) -> BufferModel {
        self.at(self.clip(index), select)
    }

    pub open spec fn all_selected(self) -> BufferModel {
        BufferModel { anchor: 0, caret: self.text.len() as int, ..self }
    }

    /// Start of the word before the caret.
    pub open spec fn word_left(self) -> int {
        skip_back(self.text, skip_back(self.text, self.clip(self.caret), false), true)
    }

    /// End of the word behind the caret.
    pub open spec fn word_right(self) -> int {
        skip_ahead(self.text, skip_ahead(self.text, self.clip(self.caret), false), true)
    }
}

impl View for TextBuffer {
    type V = BufferModel;

    open spec fn view(&self) -> BufferModel {
        BufferModel { text: self.text@, caret: self.caret as int, anchor: self.anchor as int }
    }
}

/// The position before `i` without the characters that are alphanumeric
/// (where `kind`) or are not.
pub open spec fn skip_back(s: Seq<char>, i: int, kind: bool) -> int
    decreases i,
{
    if 0 < i <= s.len() && alphanumeric(s[i - 1]) == kind {
        skip_back(s, i - 1, kind)
    } else {
        i
    }
}

/// The position behind `i` beyond the characters that are alphanumeric
/// (where `kind`) or are not.
pub open spec fn skip_ahead(s: Seq<char>, i: int, kind: bool) -> int
    decreases s.len() - i,
{
    if 0 <= i < s.len() && alphanumeric(s[i]) == kind {
        skip_ahead(s, i + 1, kind)
    } else {
        i
    }
}

fn walk_back(s: &[char], from: usize, kind: bool) -> (r: usize)
    requires
        from <= s@.len(),
    ensures
        r == skip_back(s@, from as int, kind),
        r <= from,
{
    let mut i: usize = from;
    while i > 0 && s[i - 1].is_alphanumeric() == kind
        invariant
            i <= from <= s@.len(),
            skip_back(s@, i as int, kind) == skip_back(s@, from as int, kind),
        decreases i,
    {
        i = i - 1;
    }
    i
}

fn walk_ahead(s: &[char], from: usize, kind: bool) -> (r: usize)
    requires
        from <= s@.len(),
    ensures
        r == skip_ahead(s@, from as int, kind),
        from <= r <= s@.len(),
{
    let mut i: usize = from;
    while i < s.len() && s[i].is_alphanumeric() == kind
        invariant
            from <= i <= s@.len(),
            skip_ahead(s@, i as int, kind) == skip_ahead(s@, from as int, kind),
        decreases s@.len() - i,
    {
        i = i + 1;
    }
    i
}

fn lesser(a: usize, b: usize) -> (r: usize)
    ensures
        r == smaller(a as int, b as int),
{
    if a <= b {
        a
    } else {
        b
    }
}

/// The text of two ranges.
fn spliced(a: &[char], b: &[char], c: &[char]) -> (r: String)
    ensures
        r@ == a@ + b@ + c@,
{
    let mut r = text::text_of(a);
    text::push_chars(&mut r, b);
    text::push_chars(&mut r, c);
    r
}

impl TextBuffer {
    /// A buffer with everything selected and the caret at the end.
    pub fn with_all_selected(text: String) -> (r: TextBuffer)
        ensures
            r@ == (BufferModel { text: text@, caret: text@.len() as int, anchor: 0 }),
            r@.well_formed(),
    {
        let len: usize = text.as_str().unicode_len();
        TextBuffer { text, caret: len, anchor: 0 }
    }

    pub fn empty() -> (r: TextBuffer)
        ensures
            r@ == (BufferModel { text: seq![], caret: 0, anchor: 0 }),
            r@.well_formed(),
    {
        let text = String::new();
        assert(text@ =~= seq![]);
        TextBuffer { text, caret: 0, anchor: 0 }
    }

    /// How many characters the text has.
    pub fn char_count(&self) -> (r: usize)
        ensures
            r == self@.text.len(),
    {
        self.text.as_str().unicode_len()
    }

    /// Selection bounds in document order.
    pub fn selection(&self) -> (r: (usize, usize))
        ensures
            (r.0 as int, r.1 as int) == (self@.start(), self@.end()),
    {
        if self.caret <= self.anchor {
            (self.caret, self.anchor)
        } else {
            (self.anchor, self.caret)
        }
    }

    pub fn has_selection(&self) -> (r: bool)
        ensures
            r == (self@.caret != self@.anchor),
    {
        self.caret != self.anchor
    }

    /// The characters from `start` up to `end`, as far as the text goes.
    pub fn slice(&self, start: usize, end: usize) -> (r: String)
        requires
            start <= end,
        ensures
            r@ == self@.text.subrange(self@.clip(start as int), self@.clip(end as int)),
    {
        let chars = text::chars_of(self.text.as_str());
        let from = lesser(start, chars.len());
        let to = lesser(end, chars.len());
        text::text_of(slice_subrange(chars.as_slice(), from, to))
    }

    pub fn selected_text(&self) -> (r: String)
        ensures
            r@ == self@.text.subrange(self@.clip(self@.start()), self@.clip(self@.end())),
    {
        let (start, end) = self.selection();
        self.slice(start, end)
    }

    /// The text without the characters from `from` up to `to`.
    fn removed(&self, from: usize, to: usize) -> (r: String)
        requires
            from <= to,
        ensures
            r@ == self@.without(from as int, to as int),
    {
        let chars = text::chars_of(self.text.as_str());
        let s = chars.as_slice();
        let a = lesser(from, s.len());
        let b = lesser(to, s.len());
        let r = spliced(
            slice_subrange(s, 0, a),
            slice_subrange(s, a, a),
            slice_subrange(s, b, s.len()),
        );
        assert(r@ =~= self@.without(from as int, to as int));
        r
    }

    pub fn delete_selection(&mut self)
        ensures
            final(self)@ == old(self)@.deleted(),
            old(self)@.well_formed() ==> final(self)@.well_formed(),
    {
        let (start, end) = self.selection();
        if start == end {
            return;
        }
        self.text = self.removed(start, end);
        self.caret = start;
        self.anchor = start;
    }

    pub fn insert(&mut self, input: &str)
        requires
            old(self)@.end() + input@.len() <= usize::MAX,
        ensures
            final(self)@ == old(self)@.typed(input@),
            old(self)@.well_formed() ==> final(self)@.well_formed(),
    {
        self.delete_selection();
        let chars = text::chars_of(self.text.as_str());
        let s = chars.as_slice();
        let at = lesser(self.caret, s.len());
        let typed = text::chars_of(input);
        self.text = spliced(
            slice_subrange(s, 0, at),
            typed.as_slice(),
            slice_subrange(s, at, s.len()),
        );
        self.caret = self.caret + typed.len();
        self.anchor = self.caret;
        assert(self@.text =~= old(self)@.typed(input@).text);
    }

    pub fn backspace(&mut self)
        ensures
            final(self)@ == old(self)@.erased(),
            old(self)@.well_formed() ==> final(self)@.well_formed(),
    {
        if self.has_selection() {
            self.delete_selection();
            return;
        }
        if self.caret == 0 {
            return;
        }
        self.text = self.removed(self.caret - 1, self.caret);
        self.caret = self.caret - 1;
        self.anchor = self.caret;
    }

    pub fn delete_forward(&mut self)
        ensures
            final(self)@ == old(self)@.erased_forward(),
            old(self)@.well_formed() ==> final(self)@.well_formed(),
    {
        if self.has_selection() {
            self.delete_selection();
            return;
        }
        let count = self.char_count();
        if self.caret >= count {
            return;
        }
        self.text = self.removed(self.caret, self.caret + 1);
    }

    /// Moves the caret by one; without `select`, a selection collapses to
    /// its matching edge first (as native inputs do).
    pub fn step(&mut self, forward: bool, select: bool)
        requires
            old(self)@.caret < usize::MAX,
        ensures
            final(self)@ == old(self)@.stepped(forward, select),
            old(self)@.well_formed() ==> final(self)@.well_formed(),
    {
        if !select && self.has_selection() {
            let (start, end) = self.selection();
            self.caret = if forward {
                end
            } else {
                start
            };
        } else if forward {
            self.caret = lesser(self.caret + 1, self.char_count());
        } else if self.caret > 0 {
            self.caret = self.caret - 1;
        }
        if !select {
            self.anchor = self.caret;
        }
    }

    pub fn move_to(&mut self, index: usize, select: bool)
        ensures
            final(self)@ == old(self)@.moved(index as int, select),
            old(self)@.well_formed() ==> final(self)@.well_formed(),
    {
        self.caret = lesser(index, self.char_count());
        if !select {
            self.anchor = self.caret;
        }
    }

    pub fn select_all(&mut self)
        ensures
            final(self)@ == old(self)@.all_selected(),
            final(self)@.well_formed(),
    {
        self.anchor = 0;
        self.caret = self.char_count();
    }

    /// Start of the word before the caret (Option+Left target).
    pub fn previous_word(&self) -> (r: usize)
        ensures
            r == self@.word_left(),
            r <= self@.caret,
            r <= self@.text.len(),
    {
        let chars = text::chars_of(self.text.as_str());
        let s = chars.as_slice();
        let index = lesser(self.caret, s.len());
        let gap = walk_back(s, index, false);
        walk_back(s, gap, true)
    }

    /// End of the word after the caret (Option+Right target).
    pub fn next_word(&self) -> (r: usize)
        ensures
            r == self@.word_right(),
            r <= self@.text.len(),
            self@.caret <= self@.text.len() ==> self@.caret <= r,
    {
        let chars = text::chars_of(self.text.as_str());
        let s = chars.as_slice();
        let index = lesser(self.caret, s.len());
        let gap = walk_ahead(s, index, false);
        walk_ahead(s, gap, true)
    }

    /// Applies one editing operation; tells whether the text changed.
    pub fn apply(&mut self, op: &EditOp) -> (r: EditResult)
        requires
            old(self)@.caret < usize::MAX,
            op matches EditOp::Insert(input) ==> old(self)@.end() + input@.len() <= usize::MAX,
        ensures
            final(self)@ == edited(old(self)@, *op),
            r == edit_result(old(self)@, *op),
            old(self)@.well_formed() ==> final(self)@.well_formed(),
    {
        let before = self.text.clone();
        match op {
            EditOp::Insert(input) => {
                self.insert(input.as_str());
            },
            EditOp::Backspace { word } => {
                if *word {
                    if !self.has_selection() {
                        let target = self.previous_word();
                        self.anchor = self.caret;
                        self.caret = target;
                    }
                    self.delete_selection();
                } else {
                    self.backspace();
                }
            },
            EditOp::DeleteForward => {
                self.delete_forward();
            },
            EditOp::Move { motion, select } => {
                match motion {
                    Motion::Left => self.step(false, *select),
                    Motion::Right => self.step(true, *select),
                    Motion::WordLeft => {
                        let target = self.previous_word();
                        self.move_to(target, *select);
                    },
                    Motion::WordRight => {
                        let target = self.next_word();
                        self.move_to(target, *select);
                    },
                    Motion::LineStart => self.move_to(0, *select),
                    Motion::LineEnd => {
                        let end = self.char_count();
                        self.move_to(end, *select);
                    },
                }
            },
            EditOp::SelectAll => {
                self.select_all();
            },
        }
        if text::same_str(before.as_str(), self.text.as_str()) {
            EditResult::Moved
        } else {
            EditResult::Edited
        }
    }
}

/// Caret motions an [`EditOp::Move`] can request.
#[derive(Debug, Clone, Copy, PartialEq, Eq, Structural)]
pub enum Motion {
    Left,
    Right,
    WordLeft,
    WordRight,
    LineStart,
    LineEnd,
}

/// One editing operation on the focused control (platform-agnostic: the
/// shell translates key events into these).
#[derive(Debug)]
pub enum EditOp {
    Insert(String),
    Backspace { word: bool },
    DeleteForward,
    Move { motion: Motion, select: bool },
    SelectAll,
}

impl Clone for EditOp {
    fn clone(&self) -> (r: EditOp)
        ensures
            r == *self,
    {
        match self {
            EditOp::Insert(input) => EditOp::Insert(input.clone()),
            EditOp::Backspace { word } => EditOp::Backspace { word: *word },
            EditOp::DeleteForward => EditOp::DeleteForward,
            EditOp::Move { motion, select } => EditOp::Move { motion: *motion, select: *select },
            EditOp::SelectAll => EditOp::SelectAll,
        }
    }
}

/// What an [`EditOp`] did.
#[derive(Debug, Clone, Copy, PartialEq, Eq, Structural)]
pub enum EditResult {
    /// Text changed (the page re-rendered).
    Edited,
    /// Only the caret/selection moved.
    Moved,
    Ignored,
}

/// The buffer after an operation.
pub open spec fn edited(b: BufferModel, op: EditOp) -> BufferModel {
    match op {
        EditOp::Insert(input) => b.typed(input@),
        EditOp::Backspace { word } => if word {
            if b.caret == b.anchor {
                BufferModel { anchor: b.caret, caret: b.word_left(), ..b }.deleted()
            } else {
                b.deleted()
            }
        } else {
            b.erased()
        },
        EditOp::DeleteForward => b.erased_forward(),
        EditOp::Move { motion, select } => match motion {
            Motion::Left => b.stepped(false, select),
            Motion::Right => b.stepped(true, select),
            Motion::WordLeft => b.moved(b.word_left(), select),
            Motion::WordRight => b.moved(b.word_right(), select),
            Motion::LineStart => b.moved(0, select),
            Motion::LineEnd => b.moved(b.text.len() as int, select),
        },
        EditOp::SelectAll => b.all_selected(),
    }
}

/// Whether an operation changes the text, or at most the caret and the
/// selection.
pub open spec fn edit_result(b: BufferModel, op: EditOp) -> EditResult {
    if edited(b, op).text != b.text {
        EditResult::Edited
    } else {
        EditResult::Moved
    }
}

/// Deleting one character back undoes typing one character.
pub proof fn law_backspace_undoes_typing(b: BufferModel, c: char)
    requires
        b.well_formed(),
        b.caret == b.anchor,
    ensures
        b.typed(seq![c]).erased() == b,
{
    let t = b.typed(seq![c]);
    assert(t.erased().text =~= b.text);
}

/// Typing over a selection is deleting it and typing.
pub proof fn law_typing_replaces_selection(b: BufferModel, input: Seq<char>)
    requires
        b.well_formed(),
    ensures
        b.typed(input) == b.deleted().typed(input),
        b.typed(input).text.len() == b.text.len() - (b.end() - b.start()) + input.len(),
{
}

/// Typing puts the input in the place of what lies between caret and anchor,
/// and the caret behind it.
pub proof fn law_typing_writes_at_the_caret(b: BufferModel, input: String, from: int, to: int)
    requires
        b.well_formed(),
        from <= to,
        (from == b.caret && to == b.anchor) || (from == b.anchor && to == b.caret),
    ensures
        ({
            let after = edited(b, EditOp::Insert(input));
            &&& after.text == b.text.subrange(0, from) + input@ + b.text.subrange(
                to,
                b.text.len() as int,
            )
            &&& after.caret == from + input@.len()
            &&& after.anchor == after.caret
        }),
{
    let after = edited(b, EditOp::Insert(input));
    assert(after.text =~= b.text.subrange(0, from) + input@ + b.text.subrange(
        to,
        b.text.len() as int,
    ));
}

/// With a selection each deletion removes exactly it, whichever way it was
/// made, and leaves the caret where it began.
pub proof fn law_deleting_removes_the_selection(b: BufferModel, op: EditOp, from: int, to: int)
    requires
        b.well_formed(),
        from < to,
        (from == b.caret && to == b.anchor) || (from == b.anchor && to == b.caret),
        op is Backspace || op is DeleteForward,
    ensures
        edited(b, op).text == b.text.subrange(0, from) + b.text.subrange(to, b.text.len() as int),
        edited(b, op).caret == from,
        edited(b, op).anchor == from,
{
    assert(edited(b, op).text =~= b.text.subrange(0, from) + b.text.subrange(
        to,
        b.text.len() as int,
    ));
}

/// Without a selection, deleting back removes the one character before the
/// caret, which stands one place further left then; at the start it changes
/// nothing.
pub proof fn law_backspace_removes_one(b: BufferModel)
    requires
        b.well_formed(),
        b.caret == b.anchor,
    ensures
        ({
            let after = edited(b, EditOp::Backspace { word: false });
            if b.caret == 0 {
                after == b
            } else {
                &&& after.text == b.text.remove(b.caret - 1)
                &&& after.text.len() == b.text.len() - 1
                &&& after.caret == b.caret - 1
                &&& after.anchor == after.caret
            }
        }),
{
    if b.caret > 0 {
        assert(edited(b, EditOp::Backspace { word: false }).text =~= b.text.remove(b.caret - 1));
    }
}

/// Without a selection, deleting forward removes the one character behind the
/// caret and leaves the caret: it is stepping right and deleting back. At the
/// end it changes nothing.
pub proof fn law_delete_forward_removes_one(b: BufferModel)
    requires
        b.well_formed(),
        b.caret == b.anchor,
    ensures
        ({
            let after = edited(b, EditOp::DeleteForward);
            let right = EditOp::Move { motion: Motion::Right, select: false };
            if b.caret == b.text.len() {
                after == b
            } else {
                &&& after.text == b.text.remove(b.caret)
                &&& after.text.len() == b.text.len() - 1
                &&& after.caret == b.caret
                &&& after.anchor == b.anchor
                &&& after == edited(edited(b, right), EditOp::Backspace { word: false })
            }
        }),
{
    if b.caret < b.text.len() {
        let right = EditOp::Move { motion: Motion::Right, select: false };
        let after = edited(b, EditOp::DeleteForward);
        assert(after.text =~= b.text.remove(b.caret));
        assert(edited(edited(b, right), EditOp::Backspace { word: false }).text =~= after.text);
    }
}

/// Motions leave the text as it is. With `select` the anchor stays behind,
/// without it nothing is selected.
pub proof fn law_motions_keep_the_text(b: BufferModel, motion: Motion, select: bool)
    ensures
        ({
            let after = edited(b, EditOp::Move { motion, select });
            &&& after.text == b.text
            &&& select ==> after.anchor == b.anchor
            &&& !select ==> after.anchor == after.caret
            &&& edit_result(b, EditOp::Move { motion, select }) == EditResult::Moved
        }),
{
}

/// A step moves the caret by one place, not beyond either end of the text.
/// Without `select`, a step out of a selection goes to the end of it that lies
/// that way instead.
pub proof fn law_steps_move_by_one(b: BufferModel, select: bool)
    requires
        b.well_formed(),
    ensures
        ({
            let left = edited(b, EditOp::Move { motion: Motion::Left, select }).caret;
            let right = edited(b, EditOp::Move { motion: Motion::Right, select }).caret;
            if !select && b.caret != b.anchor {
                &&& left < right
                &&& (left == b.caret && right == b.anchor) || (left == b.anchor && right
                    == b.caret)
            } else {
                &&& b.caret > 0 ==> left == b.caret - 1
                &&& b.caret == 0 ==> left == 0
                &&& b.caret < b.text.len() ==> right == b.caret + 1
                &&& b.caret == b.text.len() ==> right == b.caret
            }
        }),
{
}

/// The line motions go to the two ends of the text, and selecting everything
/// spans them.
pub proof fn law_line_motions_reach_the_ends(b: BufferModel, select: bool)
    ensures
        edited(b, EditOp::Move { motion: Motion::LineStart, select }).caret == 0,
        edited(b, EditOp::Move { motion: Motion::LineEnd, select }).caret == b.text.len(),
        edited(b, EditOp::SelectAll).text == b.text,
        edited(b, EditOp::SelectAll).anchor == 0,
        edited(b, EditOp::SelectAll).caret == b.text.len(),
        edit_result(b, EditOp::SelectAll) == EditResult::Moved,
{
}

/// The characters from `from` up to `to` are all alphanumeric, where `kind`,
/// or none of them is.
pub open spec fn all_of_kind(s: Seq<char>, from: int, to: int, kind: bool) -> bool {
    forall|i: int| from <= i < to ==> alphanumeric(#[trigger] s[i]) == kind
}

/// A word motion to the left crosses what is no word, then one whole word, and
/// stops where that begins; deleting a word back removes what it crosses.
pub proof fn law_words_are_crossed_whole(b: BufferModel, select: bool)
    requires
        b.well_formed(),
    ensures
        ({
            let t = edited(b, EditOp::Move { motion: Motion::WordLeft, select }).caret;
            &&& 0 <= t <= b.caret
            &&& t > 0 ==> !alphanumeric(b.text[t - 1])
            &&& exists|gap: int|
                t <= gap <= b.caret && all_of_kind(b.text, gap, b.caret, false)
                    && #[trigger] all_of_kind(b.text, t, gap, true) && (t == gap ==> t == 0)
            &&& b.caret == b.anchor ==> {
                let after = edited(b, EditOp::Backspace { word: true });
                &&& after.text == b.text.subrange(0, t) + b.text.subrange(
                    b.caret,
                    b.text.len() as int,
                )
                &&& after.caret == t
                &&& after.anchor == t
            }
        }),
        ({
            let t = edited(b, EditOp::Move { motion: Motion::WordRight, select }).caret;
            &&& b.caret <= t <= b.text.len()
            &&& t < b.text.len() ==> !alphanumeric(b.text[t])
            &&& exists|gap: int|
                b.caret <= gap <= t && all_of_kind(b.text, b.caret, gap, false)
                    && #[trigger] all_of_kind(b.text, gap, t, true) && (t == gap ==> t
                    == b.text.len())
        }),
{
    let left = skip_back(b.text, b.caret, false);
    let right = skip_ahead(b.text, b.caret, false);
    lemma_skip_back(b.text, b.caret, false);
    lemma_skip_back(b.text, left, true);
    lemma_skip_ahead(b.text, b.caret, false);
    lemma_skip_ahead(b.text, right, true);
    let t = edited(b, EditOp::Move { motion: Motion::WordLeft, select }).caret;
    assert(all_of_kind(b.text, t, left, true));
    assert(all_of_kind(b.text, left, b.caret, false));
    let u = edited(b, EditOp::Move { motion: Motion::WordRight, select }).caret;
    assert(all_of_kind(b.text, right, u, true));
    assert(all_of_kind(b.text, b.caret, right, false));
    if b.caret == b.anchor {
        assert(edited(b, EditOp::Backspace { word: true }).text =~= b.text.subrange(0, t)
            + b.text.subrange(b.caret, b.text.len() as int));
    }
}

/// An edit is reported exactly where the text is another one: typing something
/// and deleting something are.
pub proof fn law_edits_are_reported(b: BufferModel, op: EditOp)
    requires
        b.well_formed(),
        b.caret == b.anchor,
    ensures
        edit_result(b, op) != EditResult::Ignored,
        edit_result(b, op) == EditResult::Moved <==> edited(b, op).text == b.text,
        op matches EditOp::Insert(input) ==> (edit_result(b, op) == EditResult::Edited
            <==> input@.len() > 0),
        op == EditOp::DeleteForward ==> (edit_result(b, op) == EditResult::Edited <==> b.caret
            < b.text.len()),
        op == (EditOp::Backspace { word: false }) ==> (edit_result(b, op) == EditResult::Edited
            <==> b.caret > 0),
{
    if let EditOp::Insert(input) = op {
        let after = edited(b, op).text;
        assert(after.len() == b.text.len() + input@.len());
        if input@.len() == 0 {
            assert(after =~= b.text);
        }
    }
    law_backspace_removes_one(b);
    law_delete_forward_removes_one(b);
}

/// Every operation keeps caret and anchor in the text.
pub proof fn law_edits_keep_positions_in_text(b: BufferModel, op: EditOp)
    requires
        b.well_formed(),
    ensures
        edited(b, op).well_formed(),
{
    lemma_skip_back(b.text, b.clip(b.caret), false);
    lemma_skip_back(b.text, skip_back(b.text, b.clip(b.caret), false), true);
    lemma_skip_ahead(b.text, b.clip(b.caret), false);
    lemma_skip_ahead(b.text, skip_ahead(b.text, b.clip(b.caret), false), true);
}

proof fn lemma_skip_back(s: Seq<char>, i: int, kind: bool)
    requires
        0 <= i <= s.len(),
    ensures
        0 <= skip_back(s, i, kind) <= i,
        all_of_kind(s, skip_back(s, i, kind), i, kind),
        skip_back(s, i, kind) > 0 ==> alphanumeric(s[skip_back(s, i, kind) - 1]) != kind,
    decreases i,
{
    if 0 < i && alphanumeric(s[i - 1]) == kind {
        lemma_skip_back(s, i - 1, kind);
    }
}

proof fn lemma_skip_ahead(s: Seq<char>, i: int, kind: bool)
    requires
        0 <= i <= s.len(),
    ensures
        i <= skip_ahead(s, i, kind) <= s.len(),
        all_of_kind(s, i, skip_ahead(s, i, kind), kind),
        skip_ahead(s, i, kind) < s.len() ==> alphanumeric(s[skip_ahead(s, i, kind)]) != kind,
    decreases s.len() - i,
{
    if i < s.len() && alphanumeric(s[i]) == kind {
        lemma_skip_ahead(s, i + 1, kind);
    }
}

// ---------------------------------------------------------------------------
// The display window
// ---------------------------------------------------------------------------
/// The focused control's editing state.
#[derive(Debug)]
pub struct TextEdit {
    pub node: usize,
    pub buffer: TextBuffer,
    /// Chars scrolled off the left edge of a single-line display window.
    pub window: usize,
}

/// A predicate says what a measuring function answers.
pub open spec fn agrees<F: Fn(usize, usize) -> bool>(
    fits: F,
    p: spec_fn(int, int) -> bool,
) -> bool {
    forall|a: usize, b: usize, r: bool|
        #[trigger] call_ensures(fits, (a, b), r) ==> r == p(a as int, b as int)
}

/// The result of halving `low..=high` down to one start: a start that fits
/// closes the range from above, one that does not from below.
pub open spec fn searched(p: spec_fn(int, int) -> bool, low: int, high: int, to: int) -> int
    decreases high - low,
{
    if low >= high {
        low
    } else {
        let mid = low + (high - low) / 2;
        if p(mid, to) {
            searched(p, low, mid, to)
        } else {
            searched(p, mid + 1, high, to)
        }
    }
}

/// The first character that a single-line control shows: the window slides
/// right until the caret is visible, then back while the whole tail fits.
pub open spec fn window_start(
    p: spec_fn(int, int) -> bool,
    previous: int,
    caret: int,
    len: int,
) -> int {
    let start = smaller(previous, caret);
    let visible = if p(start, caret) {
        start
    } else {
        searched(p, start, caret, caret)
    };
    if visible > 0 && p(visible - 1, len) {
        searched(p, 0, visible - 1, len)
    } else {
        visible
    }
}

fn search<F: Fn(usize, usize) -> bool>(fits: &F, from: usize, until: usize, to: usize) -> (r: usize)
    requires
        from <= until,
        forall|a: usize, b: usize| call_requires(*fits, (a, b)),
    ensures
        from <= r <= until,
        forall|p: spec_fn(int, int) -> bool| #[trigger]
            agrees(*fits, p) ==> r == searched(p, from as int, until as int, to as int),
{
    let mut low: usize = from;
    let mut high: usize = until;
    while low < high
        invariant
            from <= low <= high <= until,
            forall|a: usize, b: usize| call_requires(*fits, (a, b)),
            forall|p: spec_fn(int, int) -> bool| #[trigger]
                agrees(*fits, p) ==> searched(p, low as int, high as int, to as int) == searched(
                    p,
                    from as int,
                    until as int,
                    to as int,
                ),
        decreases high - low,
    {
        let mid: usize = low + (high - low) / 2;
        if fits(mid, to) {
            high = mid;
        } else {
            low = mid + 1;
        }
    }
    low
}

/// The first character that a single-line control shows, where `fits` tells
/// whether the text between two positions fits the control.
pub fn slide_window<F: Fn(usize, usize) -> bool>(
    previous: usize,
    caret: usize,
    len: usize,
    fits: F,
) -> (r: usize)
    requires
        forall|a: usize, b: usize| call_requires(fits, (a, b)),
    ensures
        r <= caret,
        forall|p: spec_fn(int, int) -> bool| #[trigger]
            agrees(fits, p) ==> r == window_start(p, previous as int, caret as int, len as int),
{
    let mut start: usize = lesser(previous, caret);
    if !fits(start, caret) {
        start = search(&fits, start, caret, caret);
    }
    if start > 0 && fits(start - 1, len) {
        start = search(&fits, 0, start - 1, len);
    }
    start
}

/// Texts do not get wider when they are cut from the left.
pub open spec fn narrows(p: spec_fn(int, int) -> bool) -> bool {
    forall|a: int, b: int, to: int|
        #![trigger p(a, to), p(b, to)]
        a <= b && p(a, to) ==> p(b, to)
}

/// Where texts do not get wider when they are cut from the left, the search
/// finds the smallest start that fits, or the upper end where none before it
/// does.
pub proof fn law_search_finds_smallest(
    p: spec_fn(int, int) -> bool,
    low: int,
    high: int,
    to: int,
)
    requires
        narrows(p),
        low <= high,
    ensures
        low <= searched(p, low, high, to) <= high,
        forall|i: int| low <= i < searched(p, low, high, to) ==> !#[trigger] p(i, to),
        searched(p, low, high, to) < high ==> p(searched(p, low, high, to), to),
    decreases high - low,
{
    if low < high {
        let mid = low + (high - low) / 2;
        if p(mid, to) {
            law_search_finds_smallest(p, low, mid, to);
        } else {
            law_search_finds_smallest(p, mid + 1, high, to);
            assert forall|i: int| low <= i < searched(p, low, high, to) implies !#[trigger] p(
                i,
                to,
            ) by {
                if i <= mid {
                    assert(p(i, to) ==> p(mid, to));
                }
            }
        }
    }
}

/// The caret stays visible: the text from the window's start up to the caret
/// fits, unless nothing is left of it.
pub proof fn law_window_keeps_caret_visible(
    p: spec_fn(int, int) -> bool,
    previous: int,
    caret: int,
    len: int,
)
    requires
        narrows(p),
        0 <= previous,
        0 <= caret <= len,
        forall|a: int, b: int, c: int|
            #![trigger p(a, b), p(a, c)]
            b <= c && p(a, c) ==> p(a, b),
    ensures
        window_start(p, previous, caret, len) <= caret,
        p(window_start(p, previous, caret, len), caret) || window_start(p, previous, caret, len)
            == caret,
{
    let start = smaller(previous, caret);
    law_search_finds_smallest(p, start, caret, caret);
    let visible = if p(start, caret) {
        start
    } else {
        searched(p, start, caret, caret)
    };
    if visible > 0 && p(visible - 1, len) {
        law_search_finds_smallest(p, 0, visible - 1, len);
        let r = searched(p, 0, visible - 1, len);
        assert(p(r, len));
        assert(p(r, len) ==> p(r, caret));
    }
}

/// The first position from `i` on, before `n`, whose prefix reaches the click,
/// or `n`.
pub open spec fn reached(p: spec_fn(int) -> bool, i: int, n: int) -> int
    decreases n - i,
{
    if i >= n {
        n
    } else if p(i) {
        i
    } else {
        reached(p, i + 1, n)
    }
}

pub open spec fn answers<F: Fn(usize) -> bool>(reaches: F, p: spec_fn(int) -> bool) -> bool {
    forall|a: usize, r: bool| #[trigger] call_ensures(reaches, (a,), r) ==> r == p(a as int)
}

/// The caret index under a click: the end of the first prefix of the `count`
/// shown characters that reaches the click (the empty one where the click is
/// left of the text), or of all of them.
pub fn caret_index_at<F: Fn(usize) -> bool>(window: usize, count: usize, reaches: F) -> (r: usize)
    requires
        window + count <= usize::MAX,
        forall|a: usize| call_requires(reaches, (a,)),
    ensures
        forall|p: spec_fn(int) -> bool| #[trigger]
            answers(reaches, p) ==> r == window + reached(p, 0, count as int),
{
    let mut i: usize = 0;
    while i < count
        invariant
            i <= count,
            window + count <= usize::MAX,
            forall|a: usize| call_requires(reaches, (a,)),
            forall|p: spec_fn(int) -> bool| #[trigger]
                answers(reaches, p) ==> reached(p, i as int, count as int) == reached(
                    p,
                    0,
                    count as int,
                ),
        decreases count - i,
    {
        if reaches(i) {
            return window + i;
        }
        i = i + 1;
    }
    window + count
}

// ---------------------------------------------------------------------------
// Display texts
// ---------------------------------------------------------------------------
/// What a control renders for a value.
pub open spec fn display_model(password: bool, value: Seq<char>) -> Seq<char> {
    if password {
        Seq::new(value.len(), |i: int| '\u{2022}')
    } else {
        value
    }
}

/// What a control renders for a value: passwords display bullets.
pub fn control_display_text(password: bool, value: &str) -> (r: String)
    ensures
        r@ == display_model(password, value@),
{
    if !password {
        return value.to_owned();
    }
    let count: usize = value.unicode_len();
    let mut r = String::new();
    let mut i: usize = 0;
    while i < count
        invariant
            i <= count == value@.len(),
            r@ == display_model(true, value@).take(i as int),
        decreases count - i,
    {
        r.push('\u{2022}');
        i = i + 1;
        assert(display_model(true, value@).take(i as int) =~= display_model(true, value@).take(
            i - 1,
        ).push('\u{2022}'));
    }
    assert(display_model(true, value@).take(count as int) =~= display_model(true, value@));
    r
}

/// How many line breaks stand before `n`.
pub open spec fn line_of(s: Seq<char>, n: int) -> nat
    decreases n,
{
    if n <= 0 || n > s.len() {
        0
    } else if s[n - 1] == '\n' {
        line_of(s, n - 1) + 1
    } else {
        line_of(s, n - 1)
    }
}

/// The line that a caret stands on.
pub fn caret_line(value: &str, caret: usize) -> (r: usize)
    ensures
        r == line_of(value@, smaller(caret as int, value@.len() as int)),
{
    let chars = text::chars_of(value);
    let end = lesser(caret, chars.len());
    let mut lines: usize = 0;
    let mut i: usize = 0;
    while i < end
        invariant
            i <= end <= chars@.len(),
            lines <= i,
            lines == line_of(chars@, i as int),
        decreases end - i,
    {
        if chars[i] == '\n' {
            lines = lines + 1;
        }
        i = i + 1;
    }
    lines
}

/// The texts whose widths place the overlay of an edited control.
#[derive(Debug, PartialEq, Eq)]
pub struct OverlayTexts {
    /// The line the caret stands on, counted from the window's start.
    pub line: usize,
    /// What stands before the caret on its line.
    pub before_caret: String,
    /// What stands before the selection's start and before its end; none
    /// without a selection, and none over several lines.
    pub selection: Option<(String, String)>,
}

pub struct OverlayModel {
    pub line: nat,
    pub before_caret: Seq<char>,
    pub selection: Option<(Seq<char>, Seq<char>)>,
}

impl View for OverlayTexts {
    type V = OverlayModel;

    open spec fn view(&self) -> OverlayModel {
        OverlayModel {
            line: self.line as nat,
            before_caret: self.before_caret@,
            selection: match self.selection {
                Some((a, b)) => Some((a@, b@)),
                None => None,
            },
        }
    }
}

/// The first `n` characters, or all where there are fewer.
pub open spec fn prefix(s: Seq<char>, n: int) -> Seq<char> {
    s.take(smaller(n, s.len() as int))
}

pub open spec fn behind(a: int, b: int) -> int {
    if a >= b {
        a - b
    } else {
        0
    }
}

/// What follows the last line break of a text.
pub open spec fn last_line(s: Seq<char>) -> Seq<char> {
    s.skip(text::find_char_back(s, '\n', s.len() as int) + 1)
}

/// The texts that place the overlay: a display text of several lines is not
/// windowed.
pub open spec fn overlay_model(display: Seq<char>, window: int, b: BufferModel) -> OverlayModel {
    let multiline = text::has_char(display, '\n');
    let w = if multiline {
        0
    } else {
        window
    };
    let shown = display.skip(smaller(w, display.len() as int));
    let head = prefix(shown, behind(b.caret, w));
    OverlayModel {
        line: line_of(shown, head.len() as int),
        before_caret: last_line(head),
        selection: if b.caret != b.anchor && !multiline {
            Some((prefix(shown, behind(b.start(), w)), prefix(shown, behind(b.end(), w))))
        } else {
            None
        },
    }
}

fn head(s: &[char], n: usize) -> (r: &[char])
    ensures
        r@ == prefix(s@, n as int),
{
    slice_subrange(s, 0, lesser(n, s.len()))
}

fn distance(a: usize, b: usize) -> (r: usize)
    ensures
        r == behind(a as int, b as int),
{
    if a >= b {
        a - b
    } else {
        0
    }
}

/// The texts whose widths place the caret and the selection of an edited
/// control, given what it displays and its window.
pub fn overlay_texts(display: &str, window: usize, buffer: &TextBuffer) -> (r: OverlayTexts)
    ensures
        r@ == overlay_model(display@, window as int, buffer@),
{
    let chars = text::chars_of(display);
    let all = chars.as_slice();
    let multiline = text::position(all, '\n') < all.len();
    let w: usize = if multiline {
        0
    } else {
        window
    };
    let shown = slice_subrange(all, lesser(w, all.len()), all.len());
    assert(shown@ =~= display@.skip(smaller(w as int, display@.len() as int)));
    let before = head(shown, distance(buffer.caret, w));
    let mut line: usize = 0;
    let mut i: usize = 0;
    while i < before.len()
        invariant
            i <= before@.len(),
            line <= i,
            before@.len() <= shown@.len(),
            before@ == shown@.take(before@.len() as int),
            line == line_of(shown@, i as int),
        decreases before@.len() - i,
    {
        assert(before@[i as int] == shown@[i as int]);
        if before[i] == '\n' {
            line = line + 1;
        }
        i = i + 1;
    }
    let mut start: usize = before.len();
    proof {
        text::lemma_find_char_back(before@, '\n', before@.len() as int);
    }
    while start > 0 && before[start - 1] != '\n'
        invariant
            start <= before@.len(),
            text::find_char_back(before@, '\n', start as int) == text::find_char_back(
                before@,
                '\n',
                before@.len() as int,
            ),
        decreases start,
    {
        start = start - 1;
    }
    let tail = slice_subrange(before, start, before.len());
    assert(tail@ =~= last_line(before@));
    let selection = if buffer.has_selection() && !multiline {
        let (from, to) = buffer.selection();
        Some(
            (
                text::text_of(head(shown, distance(from, w))),
                text::text_of(head(shown, distance(to, w))),
            ),
        )
    } else {
        None
    };
    OverlayTexts { line, before_caret: text::text_of(tail), selection }
}

// ---------------------------------------------------------------------------
// Laws of the display
// ---------------------------------------------------------------------------
/// A click goes to the first prefix that reaches it, and behind all of them
/// where none does.
pub proof fn law_clicks_go_to_the_first_prefix(p: spec_fn(int) -> bool, i: int, n: int)
    requires
        i <= n,
    ensures
        i <= reached(p, i, n) <= n,
        forall|k: int| i <= k < reached(p, i, n) ==> !#[trigger] p(k),
        reached(p, i, n) < n ==> p(reached(p, i, n)),
    decreases n - i,
{
    if i < n && !p(i) {
        law_clicks_go_to_the_first_prefix(p, i + 1, n);
    }
}

/// A password shows one bullet for each of its characters, so that two of one
/// length look alike; any other value shows as it is.
pub proof fn law_passwords_are_not_shown(value: Seq<char>, other: Seq<char>)
    ensures
        display_model(false, value) == value,
        display_model(true, value).len() == value.len(),
        forall|i: int|
            0 <= i < value.len() ==> #[trigger] display_model(true, value)[i] == '\u{2022}',
        value.len() == other.len() ==> display_model(true, value) == display_model(true, other),
{
    if value.len() == other.len() {
        assert(display_model(true, value) =~= display_model(true, other));
    }
}

/// A caret in front of any line break stands on the first line, and every line
/// break before it takes it one line further down.
pub proof fn law_line_breaks_count_lines(s: Seq<char>, n: int)
    requires
        0 <= n <= s.len(),
    ensures
        (forall|i: int| 0 <= i < n ==> s[i] != '\n') <==> line_of(s, n) == 0,
        n < s.len() ==> line_of(s, n + 1) == line_of(s, n) + (if s[n] == '\n' {
            1nat
        } else {
            0nat
        }),
    decreases n,
{
    if n > 0 {
        law_line_breaks_count_lines(s, n - 1);
        if line_of(s, n) != 0 {
            if s[n - 1] != '\n' {
                let i = choose|i: int| 0 <= i < n - 1 && s[i] == '\n';
                assert(s[i] == '\n');
            } else {
                assert(s[n - 1] == '\n');
            }
        }
    }
}

/// On one line, the caret is placed behind what the window shows of the text
/// before it, and a selection lies between what stands before its two ends.
pub proof fn law_overlay_of_one_line(display: Seq<char>, window: int, b: BufferModel)
    requires
        b.well_formed(),
        b.text.len() == display.len(),
        0 <= window <= b.caret,
        window <= b.anchor,
        forall|i: int| 0 <= i < display.len() ==> display[i] != '\n',
    ensures
        ({
            let overlay = overlay_model(display, window, b);
            &&& overlay.line == 0
            &&& overlay.before_caret == display.subrange(window, b.caret)
            &&& b.caret == b.anchor ==> overlay.selection is None
            &&& b.caret < b.anchor ==> overlay.selection == Some(
                (display.subrange(window, b.caret), display.subrange(window, b.anchor)),
            )
            &&& b.anchor < b.caret ==> overlay.selection == Some(
                (display.subrange(window, b.anchor), display.subrange(window, b.caret)),
            )
        }),
{
    text::lemma_find_char(display, '\n', 0);
    let shown = display.skip(window);
    let before = prefix(shown, b.caret - window);
    assert(before =~= display.subrange(window, b.caret));
    law_line_breaks_count_lines(shown, before.len() as int);
    text::lemma_find_char_back(before, '\n', before.len() as int);
    assert(last_line(before) =~= before);
    assert(prefix(shown, b.anchor - window) =~= display.subrange(window, b.anchor));
}

/// Over several lines nothing is windowed and no selection is drawn; the caret
/// is placed behind what its own line holds before it.
pub proof fn law_overlay_of_several_lines(
    display: Seq<char>,
    window: int,
    b: BufferModel,
    start: int,
    k: int,
)
    requires
        b.well_formed(),
        b.text.len() == display.len(),
        0 <= k < display.len() && display[k] == '\n',
        0 <= start <= b.caret,
        start > 0 ==> display[start - 1] == '\n',
        forall|i: int| start <= i < b.caret ==> display[i] != '\n',
    ensures
        ({
            let overlay = overlay_model(display, window, b);
            &&& overlay.line == line_of(display, b.caret)
            &&& overlay.before_caret == display.subrange(start, b.caret)
            &&& overlay.selection is None
        }),
{
    text::lemma_find_char(display, '\n', 0);
    let shown = display.skip(0);
    assert(shown =~= display);
    let before = prefix(shown, b.caret);
    text::lemma_find_char_back(before, '\n', before.len() as int);
    let f = text::find_char_back(before, '\n', before.len() as int);
    assert(f == start - 1) by {
        if f > start - 1 {
            assert(before[f] == '\n');
        }
        if f < start - 1 {
            assert(before[start - 1] == '\n');
        }
    }
    assert(last_line(before) =~= display.subrange(start, b.caret));
}

} // verus!

//! The text buffer: a line store with a cursor, visual selection, search
//! index, and an invertible change log (undo/redo).
//!
//! Lines are held as vectors of characters; columns count characters. A
//! buffer always holds at least one line, and the cursor always sits on a
//! line, at a column no further than one past its last character.
//!
//! Each recorded edit pushes one change record whose structural inverse,
//! applied by `undo`, restores the previous content exactly and returns the
//! cursor to the position it held before the edit.

use vstd::prelude::*;

use crate::clipboard::Clipboard;
use crate::util::{chars_to_string, spec_is_ws, str_chars};
use crate::viewport::Viewport;

verus! {

/// One invertible content mutation.
#[derive(Debug)]
pub enum BufferChange {
    /// Characters inserted at a position.
    Insert { position: (usize, usize), content: String },
    /// Characters removed starting at a position.
    Delete { position: (usize, usize), content: String },
    /// A line was split in two at a position; `content` is the remainder
    /// moved below the split.
    NewLine { position: (usize, usize), content: String },
    /// A line boundary was removed: the line that held `content` was joined
    /// onto the end of the line above it.
    DeleteLine { position: usize, content: String },
}

/// The mathematical shape of a [`BufferChange`].
pub ghost enum ChangeV {
    Insert { row: nat, col: nat, text: Seq<char> },
    Delete { row: nat, col: nat, text: Seq<char> },
    NewLine { row: nat, col: nat, text: Seq<char> },
    DeleteLine { row: nat, text: Seq<char> },
}

impl View for BufferChange {
    type V = ChangeV;

    open spec fn view(&self) -> ChangeV {
        match self {
            BufferChange::Insert { position, content } => ChangeV::Insert {
                row: position.0 as nat,
                col: position.1 as nat,
                text: content@,
            },
            BufferChange::Delete { position, content } => ChangeV::Delete {
                row: position.0 as nat,
                col: position.1 as nat,
                text: content@,
            },
            BufferChange::NewLine { position, content } => ChangeV::NewLine {
                row: position.0 as nat,
                col: position.1 as nat,
                text: content@,
            },
            BufferChange::DeleteLine { position, content } => ChangeV::DeleteLine {
                row: *position as nat,
                text: content@,
            },
        }
    }
}

/// One entry of the change log: the change, the cursor position held right
/// before the change was made, and a monotonically increasing change id.
#[derive(Debug)]
pub struct BufferChangeRecord {
    pub change: BufferChange,
    pub cursor: (usize, usize),
    pub change_id: usize,
}

/// The mathematical shape of a [`BufferChangeRecord`].
pub ghost struct RecV {
    pub change: ChangeV,
    pub cursor: (nat, nat),
    pub id: nat,
}

impl View for BufferChangeRecord {
    type V = RecV;

    open spec fn view(&self) -> RecV {
        RecV {
            change: self.change@,
            cursor: (self.cursor.0 as nat, self.cursor.1 as nat),
            id: self.change_id as nat,
        }
    }
}

/// Whether the structural inverse of a change can be applied to `lines`
/// without leaving any index out of range.
pub open spec fn change_applicable(ch: ChangeV, lines: Seq<Seq<char>>) -> bool {
    match ch {
        ChangeV::Insert { row, col, text } => row < lines.len() && col + text.len()
            <= lines[row as int].len(),
        ChangeV::Delete { row, col, text } => row < lines.len() && col <= lines[row as int].len()
            && lines[row as int].len() + text.len() <= usize::MAX,
        ChangeV::NewLine { row, col, text } => row + 1 < lines.len() && lines[row as int].len()
            + text.len() <= usize::MAX,
        ChangeV::DeleteLine { row, text } => 1 <= row <= lines.len() && text.len() <= lines[row
            - 1].len(),
    }
}

/// The content after applying the structural inverse of a change: an
/// insertion is removed, a deletion is re-inserted, a split is joined back,
/// and a join is split back.
pub open spec fn change_revert(ch: ChangeV, lines: Seq<Seq<char>>) -> Seq<Seq<char>> {
    match ch {
        ChangeV::Insert { row, col, text } => lines.update(
            row as int,
            lines[row as int].take(col as int) + lines[row as int].skip(col + text.len() as int),
        ),
        ChangeV::Delete { row, col, text } => lines.update(
            row as int,
            lines[row as int].take(col as int) + text + lines[row as int].skip(col as int),
        ),
        ChangeV::NewLine { row, col, text } => lines.update(
            row as int,
            lines[row as int] + text,
        ).remove(row as int + 1),
        ChangeV::DeleteLine { row, text } => lines.update(
            row - 1,
            lines[row - 1].take(lines[row - 1].len() - text.len()),
        ).insert(row as int, text),
    }
}

/// The change that, reverted in turn, redoes what reverting `ch` undid.
/// `lines` is the content before `ch` is reverted; it supplies the split
/// column when a join is turned back into a split.
pub open spec fn change_inverse(ch: ChangeV, lines: Seq<Seq<char>>) -> ChangeV {
    match ch {
        ChangeV::Insert { row, col, text } => ChangeV::Delete { row, col, text },
        ChangeV::Delete { row, col, text } => ChangeV::Insert { row, col, text },
        ChangeV::NewLine { row, col, text } => ChangeV::DeleteLine { row: row + 1, text },
        ChangeV::DeleteLine { row, text } => ChangeV::NewLine {
            row: (row - 1) as nat,
            col: (lines[row - 1].len() - text.len()) as nat,
            text,
        },
    }
}

/// The nearest valid cursor position to `rc` in `lines`.
pub open spec fn clamp_cursor(lines: Seq<Seq<char>>, rc: (nat, nat)) -> (nat, nat) {
    let row = if rc.0 < lines.len() {
        rc.0
    } else {
        (lines.len() - 1) as nat
    };
    let col = if rc.1 <= lines[row as int].len() {
        rc.1
    } else {
        lines[row as int].len()
    };
    (row, col)
}

/// The length of the leading whitespace run of a line.
pub open spec fn spec_indent_len(l: Seq<char>) -> nat
    decreases l.len(),
{
    if l.len() == 0 {
        0
    } else if !spec_is_ws(l[0]) {
        0
    } else {
        1 + spec_indent_len(l.drop_first())
    }
}

/// What [`spec_indent_len`] picks out: a whitespace prefix that is either the
/// whole line or is followed by a non-whitespace character.
pub proof fn lemma_indent_len(l: Seq<char>)
    ensures
        spec_indent_len(l) <= l.len(),
        forall|i: int| 0 <= i < spec_indent_len(l) ==> spec_is_ws(l[i]),
        spec_indent_len(l) < l.len() ==> !spec_is_ws(l[spec_indent_len(l) as int]),
    decreases l.len(),
{
    if l.len() > 0 && spec_is_ws(l[0]) {
        lemma_indent_len(l.drop_first());
        assert forall|i: int| 0 <= i < spec_indent_len(l) implies spec_is_ws(l[i]) by {
            if i > 0 {
                assert(spec_is_ws(l.drop_first()[i - 1]));
            }
        }
    }
}

/// How a pair of anchor and cursor positions is interpreted into a selected
/// region.
#[derive(Debug, Clone, Copy, PartialEq, Eq, Structural)]
pub enum VisualMode {
    /// Character-wise selection.
    Char,
    /// Line-wise selection.
    Line,
    /// Block-wise (column) selection.
    Block,
}

/// Whether a text object includes its surrounding delimiters.
#[derive(Debug, Clone, Copy, PartialEq, Eq, Structural)]
pub enum SelectionType {
    /// Inside the delimiters.
    Inner,
    /// Including the delimiters.
    Around,
}

/// A line-oriented text document with cursor, selection, search and change
/// log state.
#[derive(Debug)]
pub struct Buffer {
    /// Lines of text; always at least one.
    pub content: Vec<Vec<char>>,
    /// `(row, column)`; the column may equal the line length.
    pub cursor_position: (usize, usize),
    /// Anchor of the visual selection, present iff a selection is active.
    pub visual_start: Option<(usize, usize)>,
    /// Indent and dedent step, in spaces.
    pub tab_size: usize,
    /// `(row, start_col, end_col)` of each match of the last search, in
    /// document order.
    pub search_matches: Vec<(usize, usize, usize)>,
    /// Index into `search_matches` of the match the cursor was sent to.
    pub current_match: Option<usize>,
    /// Undone edits wait here; every new edit clears it.
    pub undo_stack: Vec<BufferChangeRecord>,
    /// Records of recorded edits, most recent last.
    pub redo_stack: Vec<BufferChangeRecord>,
    /// The active visual interpretation, if any.
    pub visual_mode: Option<VisualMode>,
    /// Selection bounds stashed across a search.
    pub visual_bounds: Option<((usize, usize), (usize, usize))>,
    /// Whether text objects select inside or around delimiters.
    pub selection_type: Option<SelectionType>,
    /// Rows marked as needing a repaint.
    pub dirty_lines: Vec<usize>,
    /// Buffer-local cut/yank target.
    pub clipboard: Option<Clipboard>,
    /// The window onto this buffer.
    pub viewport: Viewport,
    /// Change id recorded at the last save.
    pub last_save_change_id: usize,
    /// Monotonic counter handing out change ids.
    pub change_counter: usize,
}

impl Buffer {
    /// The content as a sequence of character sequences.
    pub open spec fn lines(&self) -> Seq<Seq<char>> {
        Seq::new(self.content@.len(), |i: int| self.content@[i]@)
    }

    /// The cursor as a pair of naturals.
    pub open spec fn cursor(&self) -> (nat, nat) {
        (self.cursor_position.0 as nat, self.cursor_position.1 as nat)
    }

    /// The undo stack, most recent record last.
    pub open spec fn undo_recs(&self) -> Seq<RecV> {
        Seq::new(self.undo_stack@.len(), |i: int| self.undo_stack@[i]@)
    }

    /// The redo stack, most recent record last.
    pub open spec fn redo_recs(&self) -> Seq<RecV> {
        Seq::new(self.redo_stack@.len(), |i: int| self.redo_stack@[i]@)
    }

    /// The id of the change the buffer currently sits at: the id of the top
    /// undo record, or the bare counter when nothing is recorded.
    pub open spec fn spec_current_change_id(&self) -> nat {
        if self.undo_recs().len() > 0 {
            self.undo_recs().last().id
        } else {
            self.change_counter as nat
        }
    }

    /// Dirty iff the current change id differs from the one recorded at the
    /// last save.
    pub open spec fn spec_has_unsaved(&self) -> bool {
        self.spec_current_change_id() != self.last_save_change_id as nat
    }

    /// The structural invariant: at least one line; the cursor on a line, at
    /// most one past its end; a sane clipboard; and change ids never ahead of
    /// the counter.
    pub open spec fn wf(&self) -> bool {
        &&& self.lines().len() >= 1
        &&& (self.cursor().0 as int) < self.lines().len()
        &&& self.cursor().1 <= self.lines()[self.cursor().0 as int].len()
        &&& self.tab_size >= 1
        &&& match self.clipboard {
            Some(c) => c.wf(),
            None => true,
        }
        &&& self.last_save_change_id <= self.change_counter
        &&& forall|i: int|
            0 <= i < self.undo_recs().len() ==> #[trigger] self.undo_recs()[i].id
                <= self.change_counter as nat
        &&& forall|i: int|
            0 <= i < self.redo_recs().len() ==> #[trigger] self.redo_recs()[i].id
                <= self.change_counter as nat
    }

    /// A fresh buffer: one empty line, cursor at the origin, four-space
    /// tabs, an empty change log, and its own clipboard.
    pub fn new() -> (r: Self)
        ensures
            r.wf(),
            r.lines() == seq![Seq::<char>::empty()],
            r.cursor() == (0nat, 0nat),
            r.tab_size == 4,
            r.undo_recs().len() == 0,
            r.redo_recs().len() == 0,
            r.visual_start is None,
            r.visual_mode is None,
            r.current_match is None,
            r.search_matches@.len() == 0,
            r.change_counter == 0,
            r.last_save_change_id == 0,
            !r.spec_has_unsaved(),
    {
        let mut content: Vec<Vec<char>> = Vec::new();
        content.push(Vec::new());
        let r = Buffer {
            content,
            cursor_position: (0, 0),
            visual_start: None,
            tab_size: 4,
            search_matches: Vec::new(),
            current_match: None,
            undo_stack: Vec::new(),
            redo_stack: Vec::new(),
            visual_mode: None,
            visual_bounds: None,
            selection_type: None,
            dirty_lines: Vec::new(),
            clipboard: Some(Clipboard::new()),
            viewport: Viewport { start: 0, height: 20, width: 80 },
            last_save_change_id: 0,
            change_counter: 0,
        };
        proof {
            assert(r.lines() =~= seq![Seq::<char>::empty()]);
        }
        r
    }

    /// The cursor as `(row, column)`.
    pub fn get_cursor_position(&self) -> (r: (usize, usize))
        ensures
            r == self.cursor_position,
    {
        self.cursor_position
    }

    /// Moves the cursor to the given row if it exists, clamping the column
    /// to the line length; out-of-range rows are ignored.
    pub fn set_cursor_position(&mut self, row: usize, col: usize)
        requires
            old(self).wf(),
        ensures
            final(self).wf(),
            *final(self) == (Buffer { cursor_position: final(self).cursor_position, ..*old(self) }),
            final(self).cursor_position == if (row as int) < old(self).lines().len() {
                (
                    row,
                    if col <= old(self).lines()[row as int].len() {
                        col
                    } else {
                        old(self).lines()[row as int].len() as usize
                    },
                )
            } else {
                old(self).cursor_position
            },
    {
        if row < self.content.len() {
            let line_len = self.content[row].len();
            self.cursor_position.0 = row;
            self.cursor_position.1 = if col < line_len {
                col
            } else {
                line_len
            };
        }
    }

    /// The number of lines.
    pub fn line_count(&self) -> (r: usize)
        ensures
            r == self.lines().len(),
    {
        self.content.len()
    }

    /// The text of the given line, if it exists.
    pub fn get_line(&self, index: usize) -> (r: Option<String>)
        ensures
            match r {
                Some(s) => index < self.lines().len() && s@ == self.lines()[index as int],
                None => index >= self.lines().len(),
            },
    {
        if index < self.content.len() {
            Some(chars_to_string(&self.content[index]))
        } else {
            None
        }
    }

    /// The text of the line under the cursor.
    pub fn get_current_line(&self) -> (r: Option<String>)
        ensures
            match r {
                Some(s) => self.cursor().0 < self.lines().len() && s@ == self.lines()[self.cursor().0 as int],
                None => self.cursor().0 >= self.lines().len(),
            },
    {
        if self.cursor_position.0 < self.content.len() {
            Some(chars_to_string(&self.content[self.cursor_position.0]))
        } else {
            None
        }
    }

    /// The texts of the rows in `[start, end)`, clamped to the document; the
    /// bounds must be in order.
    pub fn get_lines(&self, start: usize, end: usize) -> (r: Vec<String>)
        requires
            start <= end,
        ensures
            r@.len() == if end <= self.lines().len() {
                (end - start) as nat
            } else if start <= self.lines().len() {
                (self.lines().len() - start) as nat
            } else {
                0
            },
            forall|i: int|
                0 <= i < r@.len() ==> #[trigger] r@[i]@ == self.lines()[start + i],
    {
        let mut r: Vec<String> = Vec::new();
        let stop: usize = if end < self.content.len() {
            end
        } else {
            self.content.len()
        };
        let mut i: usize = if start < stop {
            start
        } else {
            stop
        };
        while i < stop
            invariant
                start <= i || i == stop,
                i <= stop,
                stop <= self.lines().len(),
                stop <= end,
                start < stop ==> r@.len() == (i - start) as nat,
                start >= stop ==> r@.len() == 0,
                forall|j: int|
                    0 <= j < r@.len() ==> #[trigger] r@[j]@ == self.lines()[start + j],
            decreases stop - i,
        {
            r.push(chars_to_string(&self.content[i]));
            i = i + 1;
        }
        r
    }

    /// All lines of the buffer as strings.
    pub fn get_content(&self) -> (r: Vec<String>)
        ensures
            r@.len() == self.lines().len(),
            forall|i: int| 0 <= i < r@.len() ==> #[trigger] r@[i]@ == self.lines()[i],
    {
        let mut r: Vec<String> = Vec::new();
        let mut i: usize = 0;
        while i < self.content.len()
            invariant
                i <= self.lines().len(),
                r@.len() == i,
                forall|j: int| 0 <= j < i ==> #[trigger] r@[j]@ == self.lines()[j],
            decreases self.content.len() - i,
        {
            r.push(chars_to_string(&self.content[i]));
            i = i + 1;
        }
        r
    }

    /// The character just before the cursor, if the cursor is not at the
    /// start of its line.
    pub fn get_char_before_cursor(&self) -> (r: Option<char>)
        requires
            self.wf(),
        ensures
            match r {
                Some(c) => self.cursor().1 > 0 && c == self.lines()[self.cursor().0 as int][self.cursor().1 - 1],
                None => self.cursor().1 == 0,
            },
    {
        if self.cursor_position.1 > 0 {
            Some(self.content[self.cursor_position.0][self.cursor_position.1 - 1])
        } else {
            None
        }
    }

    /// Replaces the text of an existing row; out-of-range rows are ignored.
    pub fn replace_line(&mut self, row: usize, content: String)
        requires
            old(self).wf(),
        ensures
            final(self).wf(),
            *final(self) == (Buffer {
                content: final(self).content,
                cursor_position: final(self).cursor_position,
                ..*old(self)
            }),
            final(self).lines() == if (row as int) < old(self).lines().len() {
                old(self).lines().update(row as int, content@)
            } else {
                old(self).lines()
            },
            final(self).cursor() == clamp_cursor(final(self).lines(), old(self).cursor()),
    {
        if row < self.content.len() {
            let chars = str_chars(content.as_str());
            self.content.set(row, chars);
            proof {
                assert(self.lines() =~= old(self).lines().update(row as int, content@));
            }
        }
        // The replacement may have shortened the cursor's line.
        let cur_row = self.cursor_position.0;
        let line_len = self.content[cur_row].len();
        if self.cursor_position.1 > line_len {
            self.cursor_position.1 = line_len;
        }
    }

    /// Inserts a new row at `row`, which may be one past the last row;
    /// positions beyond that are ignored.
    pub fn insert_at(&mut self, row: usize, content: String)
        requires
            old(self).wf(),
        ensures
            final(self).wf(),
            *final(self) == (Buffer {
                content: final(self).content,
                cursor_position: final(self).cursor_position,
                ..*old(self)
            }),
            final(self).lines() == if row <= old(self).lines().len() {
                old(self).lines().insert(row as int, content@)
            } else {
                old(self).lines()
            },
            final(self).cursor() == clamp_cursor(final(self).lines(), old(self).cursor()),
    {
        if row <= self.content.len() {
            let chars = str_chars(content.as_str());
            self.content.insert(row, chars);
            proof {
                assert(self.lines() =~= old(self).lines().insert(row as int, content@));
            }
        }
        let cur_row = self.cursor_position.0;
        let line_len = self.content[cur_row].len();
        if self.cursor_position.1 > line_len {
            self.cursor_position.1 = line_len;
        }
    }

    /// The viewport onto this buffer.
    pub fn get_viewport(&self) -> (r: &Viewport)
        ensures
            r == &self.viewport,
    {
        &self.viewport
    }

    /// Marks the rows `start..=end` as needing a repaint.
    pub fn mark_lines_dirty(&mut self, start: usize, end: usize)
        ensures
            *final(self) == (Buffer { dirty_lines: final(self).dirty_lines, ..*old(self) }),
            final(self).dirty_lines@.len() == old(self).dirty_lines@.len() + (if start <= end {
                end - start + 1
            } else {
                0
            }),
            forall|i: int|
                0 <= i < old(self).dirty_lines@.len() ==> #[trigger] final(self).dirty_lines@[i]
                    == old(self).dirty_lines@[i],
            forall|i: int|
                old(self).dirty_lines@.len() <= i < final(self).dirty_lines@.len()
                    ==> #[trigger] final(self).dirty_lines@[i] == start + (i - old(
                    self,
                ).dirty_lines@.len()),
    {
        if start > end {
            return;
        }
        let mut i: usize = start;
        while i < end
            invariant
                start <= i <= end,
                *self == (Buffer { dirty_lines: self.dirty_lines, ..*old(self) }),
                self.dirty_lines@.len() == old(self).dirty_lines@.len() + (i - start),
                forall|j: int|
                    0 <= j < old(self).dirty_lines@.len() ==> #[trigger] self.dirty_lines@[j]
                        == old(self).dirty_lines@[j],
                forall|j: int|
                    old(self).dirty_lines@.len() <= j < self.dirty_lines@.len()
                        ==> #[trigger] self.dirty_lines@[j] == start + (j - old(
                        self,
                    ).dirty_lines@.len()),
            decreases end - i,
        {
            self.dirty_lines.push(i);
            i = i + 1;
        }
        self.dirty_lines.push(end);
    }
}

} // verus!

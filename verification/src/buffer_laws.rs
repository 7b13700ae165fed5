//! The undo laws.
//!
//! The model here replays the recorded edit primitives on a mathematical
//! text state — exactly the transitions the `ensures` clauses of
//! `insert_char`, `delete_char`, `delete_char_forward`,
//! `insert_newline_auto_indent` and `undo` describe (change ids, which only
//! name records, are abstracted away). Over that model two laws are proved:
//!
//! * a sequence of recorded edits followed by the same number of undo calls
//!   restores content and cursor exactly;
//! * reverting the record that an undo pushes restores the content the
//!   buffer held right before that undo, so an immediate redo is an exact
//!   inverse — except for an auto-indented line split that copied non-empty
//!   indentation, whose redo recreates the split without the indentation.

use vstd::prelude::*;

use crate::buffer::{
    change_applicable, change_inverse, change_revert, clamp_cursor, ChangeV, RecV,
};

verus! {

/// A text state: content, cursor, and the undo log.
pub ghost struct TextState {
    pub lines: Seq<Seq<char>>,
    pub cursor: (nat, nat),
    pub undo: Seq<RecV>,
}

/// The recorded edit primitives.
pub enum EditOp {
    /// Insert one character at the cursor.
    InsertChar(char),
    /// Backspace: delete before the cursor, or join onto the previous line.
    DeleteChar,
    /// Delete at the cursor, or join the next line.
    DeleteCharForward,
    /// Split the line at the cursor with auto-indent.
    NewlineAutoIndent,
}

/// A state whose cursor sits on a line, at most one past its end, and
/// whose lines fit the machine's addressable size.
pub open spec fn st_inv(st: TextState) -> bool {
    &&& st.lines.len() >= 1
    &&& (st.cursor.0 as int) < st.lines.len()
    &&& st.cursor.1 <= st.lines[st.cursor.0 as int].len()
    &&& forall|i: int| 0 <= i < st.lines.len() ==> #[trigger] st.lines[i].len() <= usize::MAX
}

/// Whether an edit does something at the current cursor: the two deletions
/// are no-ops at the document's edges and record nothing there.
pub open spec fn op_enabled(st: TextState, op: EditOp) -> bool {
    let (row, col) = st.cursor;
    let l = st.lines[row as int];
    match op {
        EditOp::InsertChar(_) => l.len() < usize::MAX,
        EditOp::DeleteChar => (col > 0 || row > 0) && (col == 0 && row > 0 ==> st.lines[row
            - 1].len() + l.len() <= usize::MAX),
        EditOp::DeleteCharForward => (col < l.len() || row + 1 < st.lines.len()) && (col >= l.len()
            && row + 1 < st.lines.len() ==> l.len() + st.lines[row as int + 1].len()
            <= usize::MAX),
        EditOp::NewlineAutoIndent => 2 * l.len() <= usize::MAX,
    }
}

/// The record an enabled edit pushes: its change, and the cursor before the
/// edit.
pub open spec fn op_rec(st: TextState, op: EditOp) -> RecV {
    let (row, col) = st.cursor;
    let l = st.lines[row as int];
    match op {
        EditOp::InsertChar(c) => RecV {
            change: ChangeV::Insert { row, col, text: seq![c] },
            cursor: st.cursor,
            id: 0,
        },
        EditOp::DeleteChar => if col > 0 {
            RecV {
                change: ChangeV::Delete { row, col: (col - 1) as nat, text: seq![l[col - 1]] },
                cursor: st.cursor,
                id: 0,
            }
        } else {
            RecV { change: ChangeV::DeleteLine { row, text: l }, cursor: st.cursor, id: 0 }
        },
        EditOp::DeleteCharForward => if col < l.len() {
            RecV {
                change: ChangeV::Delete { row, col, text: seq![l[col as int]] },
                cursor: st.cursor,
                id: 0,
            }
        } else {
            RecV {
                change: ChangeV::DeleteLine { row: row + 1, text: st.lines[row as int + 1] },
                cursor: st.cursor,
                id: 0,
            }
        },
        EditOp::NewlineAutoIndent => RecV {
            change: ChangeV::NewLine { row, col, text: l.skip(col as int) },
            cursor: st.cursor,
            id: 0,
        },
    }
}

/// The state after an enabled edit: exactly what the executable primitive's
/// contract says it leaves behind.
pub open spec fn apply_op(st: TextState, op: EditOp) -> TextState {
    let (row, col) = st.cursor;
    let l = st.lines[row as int];
    let rec = op_rec(st, op);
    match op {
        EditOp::InsertChar(c) => TextState {
            lines: st.lines.update(row as int, l.take(col as int) + seq![c] + l.skip(col as int)),
            cursor: (row, col + 1),
            undo: st.undo.push(rec),
        },
        EditOp::DeleteChar => if col > 0 {
            TextState {
                lines: st.lines.update(row as int, l.take(col - 1) + l.skip(col as int)),
                cursor: (row, (col - 1) as nat),
                undo: st.undo.push(rec),
            }
        } else {
            let prev = st.lines[row - 1];
            TextState {
                lines: st.lines.update(row - 1, prev + l).remove(row as int),
                cursor: ((row - 1) as nat, prev.len()),
                undo: st.undo.push(rec),
            }
        },
        EditOp::DeleteCharForward => if col < l.len() {
            TextState {
                lines: st.lines.update(row as int, l.take(col as int) + l.skip(col as int + 1)),
                cursor: st.cursor,
                undo: st.undo.push(rec),
            }
        } else {
            let next = st.lines[row as int + 1];
            TextState {
                lines: st.lines.update(row as int, l + next).remove(row as int + 1),
                cursor: st.cursor,
                undo: st.undo.push(rec),
            }
        },
        EditOp::NewlineAutoIndent => {
            let w = l.take(crate::buffer::spec_indent_len(l) as int);
            let rem = l.skip(col as int);
            TextState {
                lines: st.lines.update(row as int, l.take(col as int)).insert(
                    row as int + 1,
                    w + rem,
                ),
                cursor: (row + 1, crate::buffer::spec_indent_len(l)),
                undo: st.undo.push(rec),
            }
        },
    }
}

/// The state after one undo call: the top record's structural inverse is
/// applied and its recorded cursor restored; nothing changes when the log
/// is empty or the record does not fit the content.
pub open spec fn undo_step(st: TextState) -> TextState {
    if st.undo.len() == 0 {
        st
    } else {
        let rec = st.undo.last();
        if change_applicable(rec.change, st.lines) {
            let lines1 = change_revert(rec.change, st.lines);
            TextState {
                lines: lines1,
                cursor: clamp_cursor(lines1, rec.cursor),
                undo: st.undo.drop_last(),
            }
        } else {
            st
        }
    }
}

/// A whole sequence of edits applied in order.
pub open spec fn apply_ops(st: TextState, ops: Seq<EditOp>) -> TextState
    decreases ops.len(),
{
    if ops.len() == 0 {
        st
    } else {
        apply_ops(apply_op(st, ops[0]), ops.drop_first())
    }
}

/// Whether every edit along the trace is enabled when its turn comes.
pub open spec fn ops_enabled(st: TextState, ops: Seq<EditOp>) -> bool
    decreases ops.len(),
{
    ops.len() == 0 || (op_enabled(st, ops[0]) && ops_enabled(apply_op(st, ops[0]), ops.drop_first()))
}

/// `n` undo calls in a row.
pub open spec fn undo_many(st: TextState, n: nat) -> TextState
    decreases n,
{
    if n == 0 {
        st
    } else {
        undo_many(undo_step(st), (n - 1) as nat)
    }
}

/// One enabled edit is exactly reverted by one undo: the pushed record fits
/// the new content, applying its structural inverse restores the previous
/// content, and the recorded cursor restores the previous cursor.
pub proof fn lemma_op_round_trip(st: TextState, op: EditOp)
    requires
        st_inv(st),
        op_enabled(st, op),
    ensures
        st_inv(apply_op(st, op)),
        apply_op(st, op).undo == st.undo.push(op_rec(st, op)),
        undo_step(apply_op(st, op)) == (TextState {
            lines: st.lines,
            cursor: st.cursor,
            undo: st.undo,
        }),
{
    let (row, col) = st.cursor;
    let l = st.lines[row as int];
    let post = apply_op(st, op);
    let rec = op_rec(st, op);
    assert(post.undo.last() == rec);
    assert(post.undo.drop_last() =~= st.undo);
    match op {
        EditOp::InsertChar(c) => {
            let nl = l.take(col as int) + seq![c] + l.skip(col as int);
            assert(change_applicable(rec.change, post.lines));
            assert(nl.take(col as int) + nl.skip(col as int + 1) =~= l);
            assert(change_revert(rec.change, post.lines) =~= st.lines);
            assert(clamp_cursor(st.lines, rec.cursor) == st.cursor);
        },
        EditOp::DeleteChar => {
            if col > 0 {
                let nl = l.take(col - 1) + l.skip(col as int);
                assert(change_applicable(rec.change, post.lines));
                assert(nl.take(col - 1) + seq![l[col - 1]] + nl.skip(col - 1) =~= l);
                assert(change_revert(rec.change, post.lines) =~= st.lines);
                assert(clamp_cursor(st.lines, rec.cursor) == st.cursor);
            } else {
                let prev = st.lines[row - 1];
                let joined = prev + l;
                let lines1 = st.lines.update(row - 1, joined).remove(row as int);
                assert(lines1[row - 1] == joined);
                assert(change_applicable(rec.change, post.lines));
                assert(joined.take(joined.len() - l.len()) =~= prev);
                assert(change_revert(rec.change, post.lines) =~= st.lines);
                assert(clamp_cursor(st.lines, rec.cursor) == st.cursor);
            }
        },
        EditOp::DeleteCharForward => {
            if col < l.len() {
                let nl = l.take(col as int) + l.skip(col as int + 1);
                assert(change_applicable(rec.change, post.lines));
                assert(nl.take(col as int) + seq![l[col as int]] + nl.skip(col as int) =~= l);
                assert(change_revert(rec.change, post.lines) =~= st.lines);
                assert(clamp_cursor(st.lines, rec.cursor) == st.cursor);
            } else {
                let next = st.lines[row as int + 1];
                let joined = l + next;
                assert(change_applicable(rec.change, post.lines));
                assert(joined.take(joined.len() - next.len()) =~= l);
                assert(change_revert(rec.change, post.lines) =~= st.lines);
                assert(clamp_cursor(st.lines, rec.cursor) == st.cursor);
            }
        },
        EditOp::NewlineAutoIndent => {
            let w = l.take(crate::buffer::spec_indent_len(l) as int);
            let rem = l.skip(col as int);
            let head = l.take(col as int);
            crate::buffer::lemma_indent_len(l);
            assert(change_applicable(rec.change, post.lines));
            assert(post.lines[row as int] == head);
            assert(head + rem =~= l);
            assert(change_revert(rec.change, post.lines) =~= st.lines);
            assert(clamp_cursor(st.lines, rec.cursor) == st.cursor);
        },
    }
    assert forall|i: int| 0 <= i < post.lines.len() implies #[trigger] post.lines[i].len()
        <= usize::MAX by {
        assert(st.lines[row as int].len() <= usize::MAX);
        if row > 0 {
            assert(st.lines[row - 1].len() <= usize::MAX);
        }
        if row + 1 < st.lines.len() {
            assert(st.lines[row as int + 1].len() <= usize::MAX);
        }
        if i < st.lines.len() {
            assert(st.lines[i].len() <= usize::MAX);
        }
        if i > 0 {
            assert(st.lines[i - 1].len() <= usize::MAX);
        }
    }
}

proof fn lemma_undo_many_split(st: TextState, a: nat, b: nat)
    ensures
        undo_many(st, a + b) == undo_many(undo_many(st, a), b),
    decreases a,
{
    if a > 0 {
        lemma_undo_many_split(undo_step(st), (a - 1) as nat, b);
        assert(a + b - 1 == (a - 1) + b);
    }
}

/// Any sequence of enabled recorded edits followed by the same number of
/// undo calls restores content and cursor exactly, and leaves the undo log
/// as it was.
pub proof fn lemma_edits_then_undos(st: TextState, ops: Seq<EditOp>)
    requires
        st_inv(st),
        ops_enabled(st, ops),
    ensures
        undo_many(apply_ops(st, ops), ops.len()) == (TextState {
            lines: st.lines,
            cursor: st.cursor,
            undo: st.undo,
        }),
    decreases ops.len(),
{
    if ops.len() == 0 {
        assert(st == TextState { lines: st.lines, cursor: st.cursor, undo: st.undo });
    } else {
        let st1 = apply_op(st, ops[0]);
        lemma_op_round_trip(st, ops[0]);
        lemma_edits_then_undos(st1, ops.drop_first());
        let x = apply_ops(st1, ops.drop_first());
        assert(apply_ops(st, ops) == x);
        lemma_undo_many_split(x, ops.drop_first().len(), 1);
        assert(ops.drop_first().len() + 1 == ops.len());
        assert(undo_many(x, ops.drop_first().len()) == TextState {
            lines: st1.lines,
            cursor: st1.cursor,
            undo: st1.undo,
        });
        let y = undo_many(x, ops.drop_first().len());
        assert(undo_many(y, 1) == undo_many(undo_step(y), 0));
        assert(undo_many(undo_step(y), 0) == undo_step(y));
        assert(undo_step(TextState { lines: st1.lines, cursor: st1.cursor, undo: st1.undo })
            == undo_step(st1));
    }
}

/// Whether redoing the record's inverse recreates the state exactly: the
/// record's text must still match the content it points at. Along recorded
/// edit traces every record satisfies this, with one exception: an
/// auto-indented line split that copied non-empty indentation, whose new
/// line carries more than the recorded remainder.
pub open spec fn change_replay_exact(ch: ChangeV, lines: Seq<Seq<char>>) -> bool {
    match ch {
        ChangeV::Insert { row, col, text } => lines[row as int].subrange(
            col as int,
            col + text.len() as int,
        ) == text,
        ChangeV::Delete { row, col, text } => true,
        ChangeV::NewLine { row, col, text } => lines[row as int + 1] == text,
        ChangeV::DeleteLine { row, text } => lines[row - 1].subrange(
            lines[row - 1].len() - text.len(),
            lines[row - 1].len() as int,
        ) == text,
    }
}

/// Undo then redo is the identity on content and cursor: the inverse record
/// that an undo pushes fits the reverted content, reverting it in turn
/// restores the content the buffer held right before the undo, and the
/// cursor stored in that inverse record is the pre-undo cursor unchanged.
pub proof fn lemma_undo_then_redo(lines: Seq<Seq<char>>, cursor: (nat, nat), rec: RecV)
    requires
        lines.len() >= 1,
        (cursor.0 as int) < lines.len(),
        cursor.1 <= lines[cursor.0 as int].len(),
        forall|i: int| 0 <= i < lines.len() ==> #[trigger] lines[i].len() <= usize::MAX,
        change_applicable(rec.change, lines),
        change_replay_exact(rec.change, lines),
    ensures
        ({
            let lines1 = change_revert(rec.change, lines);
            let inv = change_inverse(rec.change, lines);
            &&& change_applicable(inv, lines1)
            &&& change_revert(inv, lines1) == lines
            &&& clamp_cursor(lines, cursor) == cursor
        }),
{
    let lines1 = change_revert(rec.change, lines);
    let inv = change_inverse(rec.change, lines);
    match rec.change {
        ChangeV::Insert { row, col, text } => {
            let l = lines[row as int];
            let nl = l.take(col as int) + l.skip(col + text.len() as int);
            assert(lines1[row as int] == nl);
            assert(change_applicable(inv, lines1));
            assert(nl.take(col as int) + text + nl.skip(col as int) =~= l);
            assert(change_revert(inv, lines1) =~= lines);
        },
        ChangeV::Delete { row, col, text } => {
            let l = lines[row as int];
            let nl = l.take(col as int) + text + l.skip(col as int);
            assert(lines1[row as int] == nl);
            assert(change_applicable(inv, lines1));
            assert(nl.take(col as int) + nl.skip(col + text.len() as int) =~= l);
            assert(change_revert(inv, lines1) =~= lines);
        },
        ChangeV::NewLine { row, col, text } => {
            let l = lines[row as int];
            let joined = l + text;
            assert(lines1[row as int] == joined);
            assert(change_applicable(inv, lines1));
            assert(joined.take(joined.len() - text.len()) =~= l);
            assert(change_revert(inv, lines1) =~= lines);
        },
        ChangeV::DeleteLine { row, text } => {
            let prev = lines[row - 1];
            let cut = prev.take(prev.len() - text.len());
            assert(lines1[row - 1] == cut);
            assert(lines1[row as int] == text);
            assert(change_applicable(inv, lines1));
            assert(cut + text =~= prev);
            assert(change_revert(inv, lines1) =~= lines);
        },
    }
}

} // verus!


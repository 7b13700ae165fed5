//! Mode-gated editing helpers the input layer invokes once it has mapped a
//! raw key event: clipboard operations that work across modes, undo and
//! redo gated by the current mode, the insert-mode line helpers, and
//! text-object dispatch. Key decoding itself lives outside the library.

use vstd::prelude::*;

use crate::buffer::{Buffer, SelectionType, VisualMode};
use crate::buffer_visual::{
    spec_del_block_sel, spec_del_char_sel, spec_del_line_sel, spec_paste_over,
    spec_sel_in_bounds, spec_selected_text,
};
use crate::clipboard::spec_yank;
use crate::editor::Editor;

verus! {

/// Whether a selection is active and inside the content, so that selected
/// text exists.
pub open spec fn spec_has_selection_text(b: Buffer) -> bool {
    match b.visual_start {
        Some(s) => spec_sel_in_bounds(b.lines(), (s.0 as nat, s.1 as nat), b.cursor()),
        None => false,
    }
}

/// What a cross-mode copy takes: the selected text when a selection is
/// active and inside the content, the current line otherwise.
pub open spec fn spec_copy_text(b: Buffer) -> Seq<char> {
    match b.visual_start {
        Some(s) => if spec_sel_in_bounds(b.lines(), (s.0 as nat, s.1 as nat), b.cursor()) {
            spec_selected_text(b.lines(), (s.0 as nat, s.1 as nat), b.cursor())
        } else {
            b.lines()[b.cursor().0 as int]
        },
        None => b.lines()[b.cursor().0 as int],
    }
}

/// Handlers for key bindings that work across modes.
pub struct GlobalKeyHandler;

impl GlobalKeyHandler {
    /// Copies the selected text — or the current line when nothing is
    /// selected — into the editor clipboard.
    pub fn handle_global_copy(editor: &mut Editor) -> (r: bool)
        requires
            old(editor).wf(),
        ensures
            final(editor).wf(),
            r,
            *final(editor) == (Editor { clipboard: final(editor).clipboard, ..*old(editor) }),
            final(editor).clipboard.entries() == spec_yank(
                old(editor).clipboard.entries(),
                spec_copy_text(old(editor).buffer),
                old(editor).clipboard.max(),
            ),
            final(editor).clipboard.max() == old(editor).clipboard.max(),
    {
        let text: Option<String> = match editor.buffer.get_selected_text() {
            Some(t) => Some(t),
            None => editor.buffer.get_current_line(),
        };
        if let Some(content) = text {
            editor.clipboard.yank(content);
        }
        true
    }

    /// Cuts the selected text — or deletes the current line when nothing is
    /// selected — into the editor clipboard: the cut text is yanked, the
    /// selected region (per visual mode) or the current line is removed,
    /// and any selection is dropped.
    pub fn handle_global_cut(editor: &mut Editor) -> (r: bool)
        requires
            old(editor).wf(),
        ensures
            final(editor).wf(),
            r,
            *final(editor) == (Editor {
                clipboard: final(editor).clipboard,
                buffer: final(editor).buffer,
                ..*old(editor)
            }),
            final(editor).clipboard.entries() == spec_yank(
                old(editor).clipboard.entries(),
                spec_copy_text(old(editor).buffer),
                old(editor).clipboard.max(),
            ),
            final(editor).clipboard.max() == old(editor).clipboard.max(),
            spec_has_selection_text(old(editor).buffer) ==> ({
                let b = old(editor).buffer;
                let s = b.visual_start.unwrap();
                let a = (s.0 as nat, s.1 as nat);
                let out = match b.visual_mode {
                    Some(VisualMode::Line) => spec_del_line_sel(
                        b.lines(),
                        b.cursor(),
                        a.0,
                        b.cursor().0,
                    ),
                    Some(VisualMode::Block) => spec_del_block_sel(b.lines(), a, b.cursor()),
                    _ => spec_del_char_sel(b.lines(), b.cursor(), a, b.cursor()),
                };
                &&& final(editor).buffer.lines() == out.0
                &&& final(editor).buffer.cursor() == out.1
                &&& final(editor).buffer.visual_start is None
                &&& final(editor).buffer.visual_mode is None
            }),
            !spec_has_selection_text(old(editor).buffer) ==> ({
                let b = old(editor).buffer;
                &&& (b.lines().len() > 1 ==> final(editor).buffer.lines() == b.lines().remove(
                    b.cursor().0 as int,
                ))
                &&& (b.lines().len() == 1 ==> final(editor).buffer.lines() == seq![
                    Seq::<char>::empty(),
                ])
            }),
    {
        let selected = editor.buffer.get_selected_text();
        if let Some(text) = selected {
            editor.clipboard.yank(text);
            editor.buffer.delete_selection();
            editor.buffer.clear_visual();
        } else {
            let line = editor.buffer.get_current_line();
            if let Some(text) = line {
                editor.clipboard.yank(text);
                editor.buffer.delete_line();
            }
        }
        true
    }

    /// Pastes over the selection when one is active, at the cursor
    /// otherwise; both clipboards are read, never written.
    pub fn handle_global_paste(editor: &mut Editor) -> (r: bool)
        requires
            old(editor).wf(),
        ensures
            final(editor).wf(),
            r,
            *final(editor) == (Editor { buffer: final(editor).buffer, ..*old(editor) }),
            old(editor).buffer.visual_start is Some ==> ({
                let b = old(editor).buffer;
                &&& match b.clipboard {
                    Some(cb) => cb.entries().len() > 0 ==> ({
                        let out = spec_paste_over(
                            b.lines(),
                            b.cursor(),
                            (b.visual_start.unwrap().0 as nat, b.visual_start.unwrap().1 as nat),
                            b.visual_mode,
                            cb.entries()[0],
                        );
                        final(editor).buffer.lines() == out.0 && final(editor).buffer.cursor()
                            == out.1
                    }),
                    None => final(editor).buffer.lines() == b.lines(),
                }
                &&& final(editor).buffer.visual_start is None
                &&& final(editor).buffer.visual_mode is None
            }),
            old(editor).buffer.visual_start is None ==> final(editor).buffer.visual_start is None
                && (match old(editor).buffer.clipboard {
                Some(cb) => cb.entries().len() == 0 ==> final(editor).buffer == old(
                    editor,
                ).buffer,
                None => final(editor).buffer == old(editor).buffer,
            }),
    {
        let has_selection = match editor.buffer.get_visual_selection() {
            Some(_) => true,
            None => false,
        };
        if has_selection {
            editor.buffer.paste_over_selection();
            editor.buffer.clear_visual();
        } else {
            editor.buffer.paste();
        }
        true
    }

    /// Undoes the last change when the current mode allows undo.
    pub fn handle_undo(editor: &mut Editor) -> (r: bool)
        requires
            old(editor).wf(),
        ensures
            final(editor).wf(),
            r == old(editor).mode.spec_allows_undo(),
            !old(editor).mode.spec_allows_undo() ==> *final(editor) == *old(editor),
    {
        if editor.mode.allows_undo() {
            editor.buffer.undo();
            true
        } else {
            false
        }
    }

    /// Redoes the last undone change when the current mode allows undo.
    pub fn handle_redo(editor: &mut Editor) -> (r: bool)
        requires
            old(editor).wf(),
        ensures
            final(editor).wf(),
            r == old(editor).mode.spec_allows_undo(),
            !old(editor).mode.spec_allows_undo() ==> *final(editor) == *old(editor),
    {
        if editor.mode.allows_undo() {
            editor.buffer.redo();
            true
        } else {
            false
        }
    }
}

impl Editor {
    /// Inserts `size` spaces at the cursor (the insert-mode tab).
    pub fn indent_line(&mut self, size: usize)
        requires
            old(self).wf(),
        ensures
            final(self).wf(),
    {
        let row = self.buffer.get_cursor_position().0;
        let len = match self.buffer.get_line(row) {
            Some(l) => l.as_str().unicode_len(),
            None => 0,
        };
        if size <= usize::MAX - len {
            let spaces = crate::util::repeat_char(' ', size);
            let text = crate::util::chars_to_string(&spaces);
            self.buffer.insert_at_cursor(text.as_str());
        }
    }

    /// Removes up to `size` characters of leading whitespace before the
    /// cursor, backspacing through them; the cursor keeps its place in the
    /// text that remains.
    pub fn dedent_line(&mut self, size: usize)
        requires
            old(self).wf(),
        ensures
            final(self).wf(),
    {
        let current_pos = self.buffer.get_cursor_position();
        let row = current_pos.0;
        let ws = match self.buffer.get_line(row) {
            Some(l) => {
                let chars = crate::util::str_chars(l.as_str());
                crate::buffer::Buffer::indent_len_of(&chars)
            },
            None => 0,
        };
        let remove_count = if ws < size {
            ws
        } else {
            size
        };
        if remove_count > 0 {
            let mut i: usize = 0;
            while i < remove_count
                invariant
                    self.wf(),
                decreases remove_count - i,
            {
                if self.buffer.change_counter < usize::MAX && self.delete_guard() {
                    self.buffer.delete_char();
                }
                i = i + 1;
            }
            if current_pos.1 > remove_count {
                self.buffer.set_cursor_position(current_pos.0, current_pos.1 - remove_count);
            }
        }
    }

    /// Whether a backspace at the cursor stays within the machine's limits.
    fn delete_guard(&self) -> (r: bool)
        requires
            self.wf(),
        ensures
            r ==> (self.buffer.cursor().1 == 0 && self.buffer.cursor().0 > 0
                ==> self.buffer.lines()[self.buffer.cursor().0 - 1].len()
                + self.buffer.lines()[self.buffer.cursor().0 as int].len() <= usize::MAX),
    {
        let (row, col) = self.buffer.get_cursor_position();
        if col > 0 || row == 0 {
            true
        } else {
            let prev_len = match self.buffer.get_line(row - 1) {
                Some(l) => l.as_str().unicode_len(),
                None => 0,
            };
            let cur_len = match self.buffer.get_line(row) {
                Some(l) => l.as_str().unicode_len(),
                None => 0,
            };
            cur_len <= usize::MAX - prev_len
        }
    }

    /// Backspaces to the start of the word before the cursor, stopping
    /// after the first non-word character it removes.
    pub fn delete_word_backward(&mut self)
        requires
            old(self).wf(),
        ensures
            final(self).wf(),
    {
        loop
            invariant
                self.wf(),
            decreases self.buffer.cursor().1,
        {
            let before = match self.buffer.get_char_before_cursor() {
                Some(c) => c,
                None => {
                    return;
                },
            };
            if self.buffer.change_counter == usize::MAX {
                return;
            }
            self.buffer.delete_char();
            if !(crate::util::is_alnum(before) || before == '_') {
                return;
            }
        }
    }

    /// Backspaces everything before the cursor on the current line.
    pub fn delete_to_line_start(&mut self)
        requires
            old(self).wf(),
        ensures
            final(self).wf(),
    {
        while self.buffer.get_cursor_position().1 > 0
            invariant
                self.wf(),
            decreases self.buffer.cursor().1,
        {
            if self.buffer.change_counter == usize::MAX {
                return;
            }
            self.buffer.delete_char();
        }
    }
}

/// Dispatches a text-object key to the matching selection helper: `w` for
/// the word, `p` for the paragraph, and delimiter characters for their
/// balanced pairs; other keys select nothing.
pub fn handle_text_object(editor: &mut Editor, c: char, selection_type: SelectionType)
    requires
        old(editor).wf(),
    ensures
        final(editor).wf(),
{
    if c == 'w' {
        editor.buffer.select_word(selection_type);
    } else if c == 'p' {
        editor.buffer.select_paragraph(selection_type);
    } else if c == '(' || c == ')' || c == 'b' {
        editor.buffer.select_paired_chars('(', ')', selection_type);
    } else if c == '[' || c == ']' {
        editor.buffer.select_paired_chars('[', ']', selection_type);
    } else if c == '{' || c == '}' || c == 'B' {
        editor.buffer.select_paired_chars('{', '}', selection_type);
    } else if c == '<' || c == '>' {
        editor.buffer.select_paired_chars('<', '>', selection_type);
    } else if c == '\'' {
        editor.buffer.select_paired_chars('\'', '\'', selection_type);
    } else if c == '"' {
        editor.buffer.select_paired_chars('"', '"', selection_type);
    } else if c == '`' {
        editor.buffer.select_paired_chars('`', '`', selection_type);
    }
}

} // verus!

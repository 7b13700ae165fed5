//! The editor session: one buffer, an editor-level clipboard, the current
//! mode, configuration, and the command-line and message state the input
//! layer works with. Reading and writing files is an outer concern: the
//! session only prepares the text to save and records the chosen path.

use vstd::prelude::*;

use crate::buffer::Buffer;
use crate::clipboard::Clipboard;
use crate::config::EditorConfig;
use crate::mode::{Mode, VisualVariant};
use crate::util::{
    join_with_newlines, push_char, spec_dec, spec_join_lines, strs_view, usize_to_string,
};

verus! {

/// One editing session.
pub struct Editor {
    /// The document being edited.
    pub buffer: Buffer,
    /// Editor-level clipboard for cross-buffer yank and paste.
    pub clipboard: Clipboard,
    /// The current interaction mode.
    pub mode: Mode,
    /// Configuration consumed by the core.
    pub config: EditorConfig,
    /// Whether edits are refused by the input layer.
    pub is_readonly: bool,
    /// Text being typed on the command line, if any.
    pub command_buffer: Option<String>,
    /// Where the buffer is saved, once chosen.
    pub file_path: Option<String>,
    /// A short status message for the message area.
    pub message: Option<String>,
}

impl Editor {
    /// The session invariant: a sane buffer and clipboard.
    pub open spec fn wf(&self) -> bool {
        self.buffer.wf() && self.clipboard.wf()
    }

    /// A fresh session: an empty buffer, an empty clipboard, normal mode,
    /// no file, no message.
    pub fn new(config: EditorConfig) -> (r: Self)
        ensures
            r.wf(),
            r.mode == Mode::Normal,
            r.is_readonly == false,
            r.command_buffer is None,
            r.file_path is None,
            r.message is None,
            r.buffer.lines() == seq![Seq::<char>::empty()],
    {
        Editor {
            buffer: Buffer::new(),
            clipboard: Clipboard::new(),
            mode: Mode::Normal,
            config,
            is_readonly: false,
            command_buffer: None,
            file_path: None,
            message: None,
        }
    }

    /// The current mode.
    pub fn mode(&self) -> (r: &Mode)
        ensures
            r == &self.mode,
    {
        &self.mode
    }

    /// Replaces the current mode.
    pub fn set_mode(&mut self, mode: Mode)
        ensures
            *final(self) == (Editor { mode, ..*old(self) }),
    {
        self.mode = mode;
    }

    /// Whether the buffer holds changes made after the last save.
    pub fn has_unsaved_changes(&self) -> (r: bool)
        ensures
            r == self.buffer.spec_has_unsaved(),
    {
        self.buffer.has_unsaved_changes()
    }

    /// Records `path` as the buffer's file and returns the text to write
    /// there: the lines joined with newlines. The caller performs the write
    /// and, on success, marks the buffer saved.
    pub fn save_buffer_as(&mut self, path: String) -> (payload: String)
        requires
            old(self).wf(),
        ensures
            final(self).wf(),
            *final(self) == (Editor { file_path: Some(path), ..*old(self) }),
            payload@ == spec_join_lines(
                Seq::new(old(self).buffer.lines().len(), |i: int| old(self).buffer.lines()[i]),
            ),
    {
        self.file_path = Some(path);
        let lines = self.buffer.get_content();
        let payload = join_with_newlines(&lines);
        proof {
            assert(strs_view(lines@) =~= Seq::new(
                old(self).buffer.lines().len(),
                |i: int| old(self).buffer.lines()[i],
            ));
        }
        payload
    }

    /// Puts a message in the message area.
    pub fn show_message(&mut self, msg: &str)
        ensures
            *final(self) == (Editor { message: final(self).message, ..*old(self) }),
            match final(self).message {
                Some(m) => m@ == msg@,
                None => false,
            },
    {
        self.message = Some(msg.to_owned());
    }

    /// The current message, if any.
    pub fn get_message(&self) -> (r: Option<&String>)
        ensures
            match r {
                Some(m) => self.message == Some(*m),
                None => self.message is None,
            },
    {
        self.message.as_ref()
    }

    /// Clears the message area.
    pub fn clear_message(&mut self)
        ensures
            *final(self) == (Editor { message: None, ..*old(self) }),
    {
        self.message = None;
    }

    /// The file name to display: the recorded path, or a placeholder when
    /// none is set.
    pub fn file_info(&self) -> (r: String)
        ensures
            match self.file_path {
                Some(p) => r@ == p@,
                None => r@ == "[No Name]"@,
            },
    {
        match &self.file_path {
            Some(path) => path.clone(),
            None => String::from_str("[No Name]"),
        }
    }

    /// The text currently typed on the command line, or empty.
    pub fn command_line_content(&self) -> (r: String)
        ensures
            match self.command_buffer {
                Some(b) => r@ == b@,
                None => r@ == Seq::<char>::empty(),
            },
    {
        match &self.command_buffer {
            Some(buffer) => buffer.clone(),
            None => String::new(),
        }
    }

    /// Sends the cursor to the clicked cell, clamped to the content.
    pub fn handle_mouse_click(&mut self, col: usize, row: usize)
        requires
            old(self).wf(),
        ensures
            final(self).wf(),
            *final(self) == (Editor { buffer: final(self).buffer, ..*old(self) }),
    {
        self.buffer.set_cursor_position(row, col);
    }

    /// Extends (or starts) a character-wise selection towards the dragged
    /// cell.
    pub fn handle_mouse_drag(&mut self, col: usize, row: usize)
        requires
            old(self).wf(),
        ensures
            final(self).wf(),
            *final(self) == (Editor {
                buffer: final(self).buffer,
                mode: final(self).mode,
                ..*old(self)
            }),
            final(self).mode == if old(self).mode is Visual {
                old(self).mode
            } else {
                Mode::Visual(VisualVariant::Char)
            },
    {
        if !self.mode.is_visual() {
            self.buffer.start_visual();
            self.mode = Mode::Visual(VisualVariant::Char);
        }
        self.buffer.set_cursor_position(row, col);
    }

    /// Scrolls the view up a page by moving the cursor.
    pub fn scroll_up(&mut self)
        requires
            old(self).wf(),
        ensures
            final(self).wf(),
            *final(self) == (Editor { buffer: final(self).buffer, ..*old(self) }),
    {
        self.buffer.move_page_up();
    }

    /// Scrolls the view down a page by moving the cursor.
    pub fn scroll_down(&mut self)
        requires
            old(self).wf(),
        ensures
            final(self).wf(),
            *final(self) == (Editor { buffer: final(self).buffer, ..*old(self) }),
    {
        self.buffer.move_page_down();
    }

    /// Chooses whether text objects select inside or around delimiters.
    pub fn set_visual_object_mode(&mut self, selection_type: crate::buffer::SelectionType)
        ensures
            *final(self) == (Editor { buffer: final(self).buffer, ..*old(self) }),
            final(self).buffer == (Buffer {
                selection_type: Some(selection_type),
                ..old(self).buffer
            }),
    {
        self.buffer.set_selection_type(selection_type);
    }

    /// The buffer under edit.
    pub fn current_buffer(&self) -> (r: &Buffer)
        ensures
            r == &self.buffer,
    {
        &self.buffer
    }

    /// The buffer under edit, for mutation.
    pub fn current_buffer_mut(&mut self) -> (r: &mut Buffer)
        ensures
            *r == old(self).buffer,
            *final(self) == (Editor { buffer: *final(r), ..*old(self) }),
    {
        &mut self.buffer
    }

    /// The cursor as `(row, column)`.
    pub fn cursor_position(&self) -> (r: (usize, usize))
        ensures
            r == self.buffer.cursor_position,
    {
        self.buffer.get_cursor_position()
    }

    /// Marks the session read-only or writable.
    pub fn set_readonly(&mut self, readonly: bool)
        ensures
            *final(self) == (Editor { is_readonly: readonly, ..*old(self) }),
    {
        self.is_readonly = readonly;
    }

    /// Whether the session refuses edits.
    pub fn is_readonly(&self) -> (r: bool)
        ensures
            r == self.is_readonly,
    {
        self.is_readonly
    }

    /// The one-based `row:column` text for the status line.
    pub fn cursor_position_info(&self) -> (r: String)
        requires
            self.buffer.cursor_position.0 < usize::MAX,
            self.buffer.cursor_position.1 < usize::MAX,
        ensures
            r@ == spec_dec((self.buffer.cursor_position.0 + 1) as nat) + seq![':'] + spec_dec(
                (self.buffer.cursor_position.1 + 1) as nat,
            ),
    {
        let (row, col) = self.buffer.get_cursor_position();
        let mut r = usize_to_string(row + 1);
        push_char(&mut r, ':');
        let c = usize_to_string(col + 1);
        r.append(c.as_str());
        proof {
            assert(r@ =~= spec_dec((self.buffer.cursor_position.0 + 1) as nat) + seq![':']
                + spec_dec((self.buffer.cursor_position.1 + 1) as nat));
        }
        r
    }

    /// Appends one character to the command line, starting it if needed.
    pub fn append_to_command(&mut self, c: char)
        ensures
            *final(self) == (Editor { command_buffer: final(self).command_buffer, ..*old(self) }),
            match (old(self).command_buffer, final(self).command_buffer) {
                (Some(b0), Some(b1)) => b1@ == b0@.push(c),
                (None, Some(b1)) => b1@ == seq![c],
                _ => false,
            },
    {
        match &mut self.command_buffer {
            Some(buffer) => {
                push_char(buffer, c);
            },
            None => {
                let mut s = String::new();
                push_char(&mut s, c);
                self.command_buffer = Some(s);
                proof {
                    assert(Seq::<char>::empty().push(c) =~= seq![c]);
                }
            },
        }
    }

    /// Removes the last character of the command line, dropping the line
    /// entirely when it empties.
    pub fn delete_from_command(&mut self)
        ensures
            *final(self) == (Editor { command_buffer: final(self).command_buffer, ..*old(self) }),
            match old(self).command_buffer {
                Some(b0) => if b0@.len() <= 1 {
                    final(self).command_buffer is None
                } else {
                    match final(self).command_buffer {
                        Some(b1) => b1@ == b0@.drop_last(),
                        None => false,
                    }
                },
                None => final(self).command_buffer is None,
            },
    {
        let emptied = match &mut self.command_buffer {
            Some(buffer) => {
                pop_char(buffer);
                buffer.as_str().is_empty()
            },
            None => false,
        };
        if emptied {
            self.command_buffer = None;
        }
    }

    /// Drops the command line.
    pub fn clear_command(&mut self)
        ensures
            *final(self) == (Editor { command_buffer: None, ..*old(self) }),
    {
        self.command_buffer = None;
    }
}

/// Relies on `String::pop`: removes exactly the last character, if any.
#[verifier::external_body]
fn pop_char(s: &mut String)
    ensures
        final(s)@ == if old(s)@.len() == 0 {
            old(s)@
        } else {
            old(s)@.drop_last()
        },
{
    s.pop();
}

} // verus!

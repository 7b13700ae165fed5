//! The modal-editing state machine: the editing modes, the triggers that move
//! between them, and the permission predicates that gate which buffer
//! operations the input layer may invoke in each mode.
//!
//! `transition` is a pure function of the current mode and the trigger; it
//! never touches buffer content, and unrecognised pairs leave the mode
//! unchanged.

use vstd::prelude::*;

verus! {

/// The current top-level interaction state.
#[derive(Debug, Clone, Copy, PartialEq, Eq, Structural)]
pub enum Mode {
    /// Default mode for navigation and commands.
    Normal,
    /// Text insertion modes.
    Insert(InsertVariant),
    /// Selection modes.
    Visual(VisualVariant),
    /// Command and search modes.
    Command(CommandType),
}

/// Variants of command mode.
#[derive(Debug, Clone, Copy, PartialEq, Eq, Structural)]
pub enum CommandType {
    /// For `:` commands.
    Regular,
    /// For `/` forward search.
    Search,
    /// For `?` backward search.
    Backward,
}

/// Variants of insert mode.
#[derive(Debug, Clone, Copy, PartialEq, Eq, Structural)]
pub enum InsertVariant {
    /// `i` — insert at cursor.
    Insert,
    /// `a` — append after cursor.
    Append,
    /// `A` — append at end of line.
    AppendEnd,
    /// `I` — insert at first non-whitespace character.
    LineStart,
    /// `o` — open new line below.
    LineBelow,
    /// `O` — open new line above.
    LineAbove,
    /// `R` — replace existing text.
    Replace,
}

/// Variants of visual mode.
#[derive(Debug, Clone, Copy, PartialEq, Eq, Structural)]
pub enum VisualVariant {
    /// `v` — character-wise selection.
    Char,
    /// `V` — line-wise selection.
    Line,
    /// `Ctrl-v` — block-wise selection.
    Block,
}

/// Input triggers that can cause mode transitions or actions.
#[derive(Debug, Clone, Copy, PartialEq, Eq, Structural)]
pub enum ModeTrigger {
    ArrowLeft,
    ArrowRight,
    ArrowUp,
    ArrowDown,
    Home,
    End,
    SystemCopy,
    SystemPaste,
    SystemCut,
    MouseClick,
    MouseDrag,
    MouseScroll,
    MouseDoubleClick,
    MouseTripleClick,
    Escape,
    Enter,
    Quit,
    QuitForce,
    InsertNormal,
    InsertAppend,
    InsertAppendEnd,
    InsertLineStart,
    InsertLineBelow,
    InsertLineAbove,
    InsertReplace,
    VisualChar,
    VisualLine,
    VisualBlock,
    CommandMode,
    SearchForward,
    SearchBackward,
    MoveLeft,
    MoveDown,
    MoveUp,
    MoveRight,
    MoveWordForward,
    MoveWordBackward,
    MoveEndWord,
    MoveLineStart,
    MoveLineEnd,
    MoveFileStart,
    MoveFileEnd,
    Undo,
    Redo,
    DeleteChar,
    DeleteLine,
    YankLine,
    PasteLine,
    PasteLineBefore,
    JoinLines,
    RepeatLastChange,
    Indent,
    Dedent,
    InsertTab,
    InsertBackTab,
    InsertNewLine,
    InsertCharacter,
    DeleteCharBefore,
    DeleteCharAfter,
    DeleteWordBefore,
    DeleteLineBefore,
    CompleteWord,
    CompleteLineUp,
    CompleteLineDown,
    VisualToggle,
    VisualIndent,
    VisualDedent,
    VisualYank,
    VisualDelete,
    VisualChange,
    VisualJoin,
    VisualUpper,
    VisualLower,
    CommandBackspace,
    CommandComplete,
    CommandHistoryUp,
    CommandHistoryDown,
    ScrollUp,
    ScrollDown,
    ScrollPageUp,
    ScrollPageDown,
    WindowSplitH,
    WindowSplitV,
    WindowNext,
    WindowClose,
}

/// The style of cursor to display.
#[derive(Debug, Clone, Copy, PartialEq, Eq, Structural)]
pub enum CursorStyle {
    /// Full block cursor for normal mode.
    Block,
    /// Vertical line for insert mode.
    Line,
    /// Underscore for replace mode.
    Underline,
}

/// Triggers that only move the cursor.
pub open spec fn spec_is_movement_trigger(t: ModeTrigger) -> bool {
    t == ModeTrigger::ArrowLeft || t == ModeTrigger::ArrowRight || t == ModeTrigger::ArrowUp
        || t == ModeTrigger::ArrowDown || t == ModeTrigger::Home || t == ModeTrigger::End || t
        == ModeTrigger::MoveLeft || t == ModeTrigger::MoveRight || t == ModeTrigger::MoveUp || t
        == ModeTrigger::MoveDown || t == ModeTrigger::MoveWordForward || t
        == ModeTrigger::MoveWordBackward || t == ModeTrigger::MoveEndWord || t
        == ModeTrigger::MoveLineStart || t == ModeTrigger::MoveLineEnd || t
        == ModeTrigger::MoveFileStart || t == ModeTrigger::MoveFileEnd
}

/// Executable twin of [`spec_is_movement_trigger`].
pub fn is_movement_trigger(trigger: ModeTrigger) -> (r: bool)
    ensures
        r == spec_is_movement_trigger(trigger),
{
    match trigger {
        ModeTrigger::ArrowLeft | ModeTrigger::ArrowRight | ModeTrigger::ArrowUp
        | ModeTrigger::ArrowDown | ModeTrigger::Home | ModeTrigger::End | ModeTrigger::MoveLeft
        | ModeTrigger::MoveRight | ModeTrigger::MoveUp | ModeTrigger::MoveDown
        | ModeTrigger::MoveWordForward | ModeTrigger::MoveWordBackward
        | ModeTrigger::MoveEndWord | ModeTrigger::MoveLineStart | ModeTrigger::MoveLineEnd
        | ModeTrigger::MoveFileStart | ModeTrigger::MoveFileEnd => true,
        _ => false,
    }
}

/// Triggers for the system clipboard.
pub open spec fn spec_is_clipboard_trigger(t: ModeTrigger) -> bool {
    t == ModeTrigger::SystemCopy || t == ModeTrigger::SystemPaste || t == ModeTrigger::SystemCut
}

/// Executable twin of [`spec_is_clipboard_trigger`].
pub fn is_clipboard_trigger(trigger: ModeTrigger) -> (r: bool)
    ensures
        r == spec_is_clipboard_trigger(trigger),
{
    match trigger {
        ModeTrigger::SystemCopy | ModeTrigger::SystemPaste | ModeTrigger::SystemCut => true,
        _ => false,
    }
}

/// Triggers classified as insert operations, which leave insert mode
/// unchanged.
pub open spec fn spec_is_insert_operation(t: ModeTrigger) -> bool {
    t == ModeTrigger::InsertCharacter || t == ModeTrigger::DeleteCharBefore || t
        == ModeTrigger::DeleteCharAfter || t == ModeTrigger::DeleteWordBefore || t
        == ModeTrigger::DeleteLineBefore || t == ModeTrigger::InsertTab || t
        == ModeTrigger::InsertBackTab || t == ModeTrigger::InsertNewLine || t
        == ModeTrigger::CompleteWord || t == ModeTrigger::CompleteLineUp || t
        == ModeTrigger::CompleteLineDown
}

/// Executable twin of [`spec_is_insert_operation`].
pub fn is_insert_operation(trigger: ModeTrigger) -> (r: bool)
    ensures
        r == spec_is_insert_operation(trigger),
{
    match trigger {
        ModeTrigger::InsertCharacter | ModeTrigger::DeleteCharBefore
        | ModeTrigger::DeleteCharAfter | ModeTrigger::DeleteWordBefore
        | ModeTrigger::DeleteLineBefore | ModeTrigger::InsertTab | ModeTrigger::InsertBackTab
        | ModeTrigger::InsertNewLine | ModeTrigger::CompleteWord | ModeTrigger::CompleteLineUp
        | ModeTrigger::CompleteLineDown => true,
        _ => false,
    }
}

/// Triggers that act on a selection.
pub open spec fn spec_is_selection_trigger(t: ModeTrigger) -> bool {
    t == ModeTrigger::MouseDrag || t == ModeTrigger::MouseDoubleClick || t
        == ModeTrigger::MouseTripleClick || t == ModeTrigger::VisualToggle || t
        == ModeTrigger::VisualIndent || t == ModeTrigger::VisualDedent || t
        == ModeTrigger::VisualYank || t == ModeTrigger::VisualDelete || t
        == ModeTrigger::VisualChange
}

/// Executable twin of [`spec_is_selection_trigger`].
pub fn is_selection_trigger(trigger: ModeTrigger) -> (r: bool)
    ensures
        r == spec_is_selection_trigger(trigger),
{
    match trigger {
        ModeTrigger::MouseDrag | ModeTrigger::MouseDoubleClick | ModeTrigger::MouseTripleClick
        | ModeTrigger::VisualToggle | ModeTrigger::VisualIndent | ModeTrigger::VisualDedent
        | ModeTrigger::VisualYank | ModeTrigger::VisualDelete | ModeTrigger::VisualChange => true,
        _ => false,
    }
}

/// Triggers that scroll the viewport.
pub open spec fn spec_is_scroll_trigger(t: ModeTrigger) -> bool {
    t == ModeTrigger::ScrollUp || t == ModeTrigger::ScrollDown || t == ModeTrigger::ScrollPageUp
        || t == ModeTrigger::ScrollPageDown || t == ModeTrigger::MouseScroll
}

/// Executable twin of [`spec_is_scroll_trigger`].
pub fn is_scroll_trigger(trigger: ModeTrigger) -> (r: bool)
    ensures
        r == spec_is_scroll_trigger(trigger),
{
    match trigger {
        ModeTrigger::ScrollUp | ModeTrigger::ScrollDown | ModeTrigger::ScrollPageUp
        | ModeTrigger::ScrollPageDown | ModeTrigger::MouseScroll => true,
        _ => false,
    }
}

impl Mode {
    /// Whether text input should be processed.
    pub open spec fn spec_allows_text_input(self) -> bool {
        self is Insert || self is Command
    }

    /// Whether cursor movement is allowed.
    pub open spec fn spec_allows_cursor_movement(self) -> bool {
        !(self is Command)
    }

    /// Whether system clipboard operations are allowed.
    pub open spec fn spec_allows_system_clipboard(self) -> bool {
        true
    }

    /// Whether mouse operations are allowed.
    pub open spec fn spec_allows_mouse(self) -> bool {
        !(self is Command)
    }

    /// Whether deletion is allowed; visual mode routes deletion through
    /// selection-delete instead.
    pub open spec fn spec_allows_deletion(self) -> bool {
        !(self is Visual)
    }

    /// Whether cutting is allowed.
    pub open spec fn spec_allows_cut(self) -> bool {
        self is Normal || self is Visual
    }

    /// Whether undo and redo are allowed.
    pub open spec fn spec_allows_undo(self) -> bool {
        self is Normal
    }

    /// Whether selection operations are allowed.
    pub open spec fn spec_allows_selection(self) -> bool {
        !(self is Command)
    }

    /// Whether scrolling is allowed.
    pub open spec fn spec_allows_scrolling(self) -> bool {
        !(self is Command)
    }

    /// The mode an editor starts in.
    pub fn default() -> (r: Self)
        ensures
            r == Mode::Normal,
    {
        Mode::Normal
    }

    /// Returns true if text input should be processed.
    pub fn allows_text_input(&self) -> (r: bool)
        ensures
            r == self.spec_allows_text_input(),
    {
        match self {
            Mode::Insert(_) | Mode::Command(_) => true,
            _ => false,
        }
    }

    /// Returns true if cursor movement is allowed.
    pub fn allows_cursor_movement(&self) -> (r: bool)
        ensures
            r == self.spec_allows_cursor_movement(),
    {
        match self {
            Mode::Command(_) => false,
            _ => true,
        }
    }

    /// Returns true if system clipboard operations are allowed.
    pub fn allows_system_clipboard(&self) -> (r: bool)
        ensures
            r == self.spec_allows_system_clipboard(),
    {
        true
    }

    /// Returns true if mouse operations are allowed.
    pub fn allows_mouse(&self) -> (r: bool)
        ensures
            r == self.spec_allows_mouse(),
    {
        match self {
            Mode::Command(_) => false,
            _ => true,
        }
    }

    /// Returns true if deletion is allowed.
    pub fn allows_deletion(&self) -> (r: bool)
        ensures
            r == self.spec_allows_deletion(),
    {
        match self {
            Mode::Normal => true,
            Mode::Insert(_) => true,
            Mode::Visual(_) => false,
            Mode::Command(_) => true,
        }
    }

    /// Returns true if cutting is allowed.
    pub fn allows_cut(&self) -> (r: bool)
        ensures
            r == self.spec_allows_cut(),
    {
        match self {
            Mode::Normal => true,
            Mode::Visual(_) => true,
            _ => false,
        }
    }

    /// Returns true if undo/redo operations are allowed.
    pub fn allows_undo(&self) -> (r: bool)
        ensures
            r == self.spec_allows_undo(),
    {
        match self {
            Mode::Normal => true,
            _ => false,
        }
    }

    /// Returns true if in visual mode.
    pub fn is_visual(&self) -> (r: bool)
        ensures
            r == (self is Visual),
    {
        match self {
            Mode::Visual(_) => true,
            _ => false,
        }
    }

    /// Returns true if selection operations are allowed.
    pub fn allows_selection(&self) -> (r: bool)
        ensures
            r == self.spec_allows_selection(),
    {
        match self {
            Mode::Normal | Mode::Visual(_) => true,
            Mode::Insert(_) => true,
            Mode::Command(_) => false,
        }
    }

    /// Returns true if scrolling operations are allowed.
    pub fn allows_scrolling(&self) -> (r: bool)
        ensures
            r == self.spec_allows_scrolling(),
    {
        match self {
            Mode::Command(_) => false,
            _ => true,
        }
    }

    /// Returns the visual variant if in visual mode.
    pub fn get_visual_variant(&self) -> (r: Option<VisualVariant>)
        ensures
            match r {
                Some(v) => *self == Mode::Visual(v),
                None => !(*self is Visual),
            },
    {
        match self {
            Mode::Visual(variant) => Some(*variant),
            _ => None,
        }
    }

    /// The prefix shown on the command line for each command mode.
    pub open spec fn spec_command_prefix(self) -> Seq<char> {
        match self {
            Mode::Command(CommandType::Regular) => ":"@,
            Mode::Command(CommandType::Search) => "/"@,
            Mode::Command(CommandType::Backward) => "?"@,
            _ => ""@,
        }
    }

    /// Returns the prefix for the command line (`:`, `/` or `?`).
    pub fn command_prefix(&self) -> (r: &str)
        ensures
            r@ == self.spec_command_prefix(),
    {
        match self {
            Mode::Command(CommandType::Regular) => ":",
            Mode::Command(CommandType::Search) => "/",
            Mode::Command(CommandType::Backward) => "?",
            _ => "",
        }
    }

    /// The user-facing name of each mode.
    pub open spec fn spec_display_name(self) -> Seq<char> {
        match self {
            Mode::Normal => "NORMAL"@,
            Mode::Insert(variant) => match variant {
                InsertVariant::Insert => "INSERT"@,
                InsertVariant::Append => "INSERT (APPEND)"@,
                InsertVariant::AppendEnd => "INSERT (APPEND END)"@,
                InsertVariant::LineStart => "INSERT (LINE START)"@,
                InsertVariant::LineBelow => "INSERT (BELOW)"@,
                InsertVariant::LineAbove => "INSERT (ABOVE)"@,
                InsertVariant::Replace => "REPLACE"@,
            },
            Mode::Visual(variant) => match variant {
                VisualVariant::Char => "VISUAL"@,
                VisualVariant::Line => "VISUAL LINE"@,
                VisualVariant::Block => "VISUAL BLOCK"@,
            },
            Mode::Command(cmd_type) => match cmd_type {
                CommandType::Regular => "COMMAND"@,
                CommandType::Search => "SEARCH"@,
                CommandType::Backward => "REVERSE SEARCH"@,
            },
        }
    }

    /// Returns a user-friendly name for the current mode.
    pub fn display_name(&self) -> (r: &str)
        ensures
            r@ == self.spec_display_name(),
    {
        match self {
            Mode::Normal => "NORMAL",
            Mode::Insert(variant) => match variant {
                InsertVariant::Insert => "INSERT",
                InsertVariant::Append => "INSERT (APPEND)",
                InsertVariant::AppendEnd => "INSERT (APPEND END)",
                InsertVariant::LineStart => "INSERT (LINE START)",
                InsertVariant::LineBelow => "INSERT (BELOW)",
                InsertVariant::LineAbove => "INSERT (ABOVE)",
                InsertVariant::Replace => "REPLACE",
            },
            Mode::Visual(variant) => match variant {
                VisualVariant::Char => "VISUAL",
                VisualVariant::Line => "VISUAL LINE",
                VisualVariant::Block => "VISUAL BLOCK",
            },
            Mode::Command(cmd_type) => match cmd_type {
                CommandType::Regular => "COMMAND",
                CommandType::Search => "SEARCH",
                CommandType::Backward => "REVERSE SEARCH",
            },
        }
    }

    /// The cursor shape each mode displays.
    pub open spec fn spec_cursor_style(self) -> CursorStyle {
        match self {
            Mode::Normal => CursorStyle::Block,
            Mode::Insert(InsertVariant::Replace) => CursorStyle::Underline,
            Mode::Insert(_) => CursorStyle::Line,
            Mode::Visual(_) => CursorStyle::Block,
            Mode::Command(_) => CursorStyle::Line,
        }
    }

    /// Returns the appropriate cursor style for the current mode.
    pub fn cursor_style(&self) -> (r: CursorStyle)
        ensures
            r == self.spec_cursor_style(),
    {
        match self {
            Mode::Normal => CursorStyle::Block,
            Mode::Insert(InsertVariant::Replace) => CursorStyle::Underline,
            Mode::Insert(_) => CursorStyle::Line,
            Mode::Visual(_) => CursorStyle::Block,
            Mode::Command(_) => CursorStyle::Line,
        }
    }

    /// The next mode for a `(mode, trigger)` pair. The rules apply in
    /// priority order; an unrecognised pair leaves the mode unchanged.
    pub open spec fn spec_transition(self, t: ModeTrigger) -> Mode {
        if t == ModeTrigger::Escape {
            Mode::Normal
        } else if self is Command && t == ModeTrigger::Enter {
            Mode::Normal
        } else if self.spec_allows_cursor_movement() && spec_is_movement_trigger(t) {
            self
        } else if self.spec_allows_system_clipboard() && spec_is_clipboard_trigger(t) {
            self
        } else if t == ModeTrigger::MouseClick && self.spec_allows_mouse() {
            self
        } else if t == ModeTrigger::MouseDrag && self.spec_allows_mouse() {
            if self is Visual {
                self
            } else {
                Mode::Visual(VisualVariant::Char)
            }
        } else if self is Normal && t == ModeTrigger::MouseDoubleClick {
            Mode::Visual(VisualVariant::Char)
        } else if self is Normal && t == ModeTrigger::MouseTripleClick {
            Mode::Visual(VisualVariant::Line)
        } else if self is Normal && t == ModeTrigger::InsertNormal {
            Mode::Insert(InsertVariant::Insert)
        } else if self is Normal && t == ModeTrigger::InsertAppend {
            Mode::Insert(InsertVariant::Append)
        } else if self is Normal && t == ModeTrigger::InsertAppendEnd {
            Mode::Insert(InsertVariant::AppendEnd)
        } else if self is Normal && t == ModeTrigger::InsertLineStart {
            Mode::Insert(InsertVariant::LineStart)
        } else if self is Normal && t == ModeTrigger::InsertLineBelow {
            Mode::Insert(InsertVariant::LineBelow)
        } else if self is Normal && t == ModeTrigger::InsertLineAbove {
            Mode::Insert(InsertVariant::LineAbove)
        } else if self is Normal && t == ModeTrigger::InsertReplace {
            Mode::Insert(InsertVariant::Replace)
        } else if self is Normal && t == ModeTrigger::VisualChar {
            Mode::Visual(VisualVariant::Char)
        } else if self is Normal && t == ModeTrigger::VisualLine {
            Mode::Visual(VisualVariant::Line)
        } else if self is Normal && t == ModeTrigger::VisualBlock {
            Mode::Visual(VisualVariant::Block)
        } else if self is Normal && t == ModeTrigger::CommandMode {
            Mode::Command(CommandType::Regular)
        } else if self is Normal && t == ModeTrigger::SearchForward {
            Mode::Command(CommandType::Search)
        } else if self is Normal && t == ModeTrigger::SearchBackward {
            Mode::Command(CommandType::Backward)
        } else if self is Insert && spec_is_insert_operation(t) {
            self
        } else if self is Visual && t == ModeTrigger::VisualChar {
            Mode::Visual(VisualVariant::Char)
        } else if self is Visual && t == ModeTrigger::VisualLine {
            Mode::Visual(VisualVariant::Line)
        } else if self is Visual && t == ModeTrigger::VisualBlock {
            Mode::Visual(VisualVariant::Block)
        } else if self is Visual && (t == ModeTrigger::VisualIndent || t
            == ModeTrigger::VisualDedent) {
            self
        } else if self is Visual && (t == ModeTrigger::VisualYank || t
            == ModeTrigger::VisualDelete) {
            Mode::Normal
        } else if self is Visual && t == ModeTrigger::VisualChange {
            Mode::Insert(InsertVariant::Insert)
        } else if self.spec_allows_selection() && spec_is_selection_trigger(t) {
            if self is Normal {
                Mode::Visual(VisualVariant::Char)
            } else {
                self
            }
        } else {
            self
        }
    }

    /// Computes the mode that follows this one for the given trigger; a pure
    /// function that never touches buffer content.
    pub fn transition(&self, trigger: ModeTrigger) -> (r: Mode)
        ensures
            r == self.spec_transition(trigger),
    {
        if matches!(trigger, ModeTrigger::Escape) {
            return Mode::Normal;
        }
        if matches!(self, Mode::Command(_)) && matches!(trigger, ModeTrigger::Enter) {
            return Mode::Normal;
        }
        if self.allows_cursor_movement() && is_movement_trigger(trigger) {
            return *self;
        }
        if self.allows_system_clipboard() && is_clipboard_trigger(trigger) {
            return *self;
        }
        if matches!(trigger, ModeTrigger::MouseClick) && self.allows_mouse() {
            return *self;
        }
        if matches!(trigger, ModeTrigger::MouseDrag) && self.allows_mouse() {
            if matches!(self, Mode::Visual(_)) {
                return *self;
            }
            return Mode::Visual(VisualVariant::Char);
        }
        if matches!(self, Mode::Normal) {
            match trigger {
                ModeTrigger::MouseDoubleClick => {
                    return Mode::Visual(VisualVariant::Char);
                },
                ModeTrigger::MouseTripleClick => {
                    return Mode::Visual(VisualVariant::Line);
                },
                ModeTrigger::InsertNormal => {
                    return Mode::Insert(InsertVariant::Insert);
                },
                ModeTrigger::InsertAppend => {
                    return Mode::Insert(InsertVariant::Append);
                },
                ModeTrigger::InsertAppendEnd => {
                    return Mode::Insert(InsertVariant::AppendEnd);
                },
                ModeTrigger::InsertLineStart => {
                    return Mode::Insert(InsertVariant::LineStart);
                },
                ModeTrigger::InsertLineBelow => {
                    return Mode::Insert(InsertVariant::LineBelow);
                },
                ModeTrigger::InsertLineAbove => {
                    return Mode::Insert(InsertVariant::LineAbove);
                },
                ModeTrigger::InsertReplace => {
                    return Mode::Insert(InsertVariant::Replace);
                },
                ModeTrigger::VisualChar => {
                    return Mode::Visual(VisualVariant::Char);
                },
                ModeTrigger::VisualLine => {
                    return Mode::Visual(VisualVariant::Line);
                },
                ModeTrigger::VisualBlock => {
                    return Mode::Visual(VisualVariant::Block);
                },
                ModeTrigger::CommandMode => {
                    return Mode::Command(CommandType::Regular);
                },
                ModeTrigger::SearchForward => {
                    return Mode::Command(CommandType::Search);
                },
                ModeTrigger::SearchBackward => {
                    return Mode::Command(CommandType::Backward);
                },
                _ => {},
            }
        }
        if matches!(self, Mode::Insert(_)) && is_insert_operation(trigger) {
            return *self;
        }
        if matches!(self, Mode::Visual(_)) {
            match trigger {
                ModeTrigger::VisualChar => {
                    return Mode::Visual(VisualVariant::Char);
                },
                ModeTrigger::VisualLine => {
                    return Mode::Visual(VisualVariant::Line);
                },
                ModeTrigger::VisualBlock => {
                    return Mode::Visual(VisualVariant::Block);
                },
                ModeTrigger::VisualIndent | ModeTrigger::VisualDedent => {
                    return *self;
                },
                ModeTrigger::VisualYank | ModeTrigger::VisualDelete => {
                    return Mode::Normal;
                },
                ModeTrigger::VisualChange => {
                    return Mode::Insert(InsertVariant::Insert);
                },
                _ => {},
            }
        }
        if self.allows_selection() && is_selection_trigger(trigger) {
            if matches!(self, Mode::Normal) {
                return Mode::Visual(VisualVariant::Char);
            }
            return *self;
        }
        *self
    }
}

impl CursorStyle {
    /// The glyph each cursor style draws.
    pub open spec fn spec_as_str(self) -> Seq<char> {
        match self {
            CursorStyle::Block => "█"@,
            CursorStyle::Line => "│"@,
            CursorStyle::Underline => "_"@,
        }
    }

    /// Returns the string representation of the cursor style.
    pub fn as_str(&self) -> (r: &str)
        ensures
            r@ == self.spec_as_str(),
    {
        match self {
            CursorStyle::Block => "█",
            CursorStyle::Line => "│",
            CursorStyle::Underline => "_",
        }
    }
}

} // verus!

//! Editor configuration: the tab size the core consumes, plus the theme
//! colours a renderer reads. Loading and saving configuration files is an
//! outer concern; the library only defines the values and their defaults.

use vstd::prelude::*;

verus! {

/// A colour by name, as a sixteen-colour terminal knows them.
#[derive(Debug, Clone, Copy, PartialEq, Eq, Structural)]
pub enum NamedColor {
    Black,
    Red,
    Green,
    Yellow,
    Blue,
    Magenta,
    Cyan,
    White,
    BrightBlack,
    BrightRed,
    BrightGreen,
    BrightYellow,
    BrightBlue,
    BrightMagenta,
    BrightCyan,
    BrightWhite,
}

/// A colour, either named or by RGB components.
#[derive(Debug, Clone, Copy, PartialEq, Eq, Structural)]
pub enum ColorDef {
    Named(NamedColor),
    Rgb { r: u8, g: u8, b: u8 },
}

/// Colours of the status line, one per mode family.
#[derive(Debug, Clone)]
pub struct StatusLineTheme {
    pub normal: ColorDef,
    pub insert: ColorDef,
    pub visual: ColorDef,
    pub command: ColorDef,
}

impl StatusLineTheme {
    /// The stock status-line colours.
    pub fn default() -> (r: Self)
        ensures
            r.normal == ColorDef::Named(NamedColor::BrightBlack),
            r.insert == ColorDef::Named(NamedColor::BrightGreen),
            r.visual == ColorDef::Named(NamedColor::BrightBlue),
            r.command == ColorDef::Named(NamedColor::BrightYellow),
    {
        StatusLineTheme {
            normal: ColorDef::Named(NamedColor::BrightBlack),
            insert: ColorDef::Named(NamedColor::BrightGreen),
            visual: ColorDef::Named(NamedColor::BrightBlue),
            command: ColorDef::Named(NamedColor::BrightYellow),
        }
    }
}

/// Colours of window chrome.
#[derive(Debug, Clone)]
pub struct UiTheme {
    pub background: ColorDef,
    pub foreground: ColorDef,
    pub selected: ColorDef,
    pub active: ColorDef,
    pub inactive: ColorDef,
}

impl UiTheme {
    /// The stock window-chrome colours.
    pub fn default() -> (r: Self)
        ensures
            r.background == ColorDef::Named(NamedColor::Black),
            r.foreground == ColorDef::Named(NamedColor::White),
            r.selected == ColorDef::Named(NamedColor::BrightBlue),
            r.active == ColorDef::Named(NamedColor::BrightWhite),
            r.inactive == ColorDef::Named(NamedColor::BrightBlack),
    {
        UiTheme {
            background: ColorDef::Named(NamedColor::Black),
            foreground: ColorDef::Named(NamedColor::White),
            selected: ColorDef::Named(NamedColor::BrightBlue),
            active: ColorDef::Named(NamedColor::BrightWhite),
            inactive: ColorDef::Named(NamedColor::BrightBlack),
        }
    }
}

/// A full colour theme.
#[derive(Debug, Clone)]
pub struct Theme {
    pub name: String,
    pub background: ColorDef,
    pub foreground: ColorDef,
    pub cursor: ColorDef,
    pub selection: ColorDef,
    pub search_highlight: ColorDef,
    pub line_numbers: ColorDef,
    pub line_numbers_highlight: ColorDef,
    pub status_line: StatusLineTheme,
    pub ui: UiTheme,
}

impl Theme {
    /// The stock theme.
    pub fn default() -> (r: Self)
        ensures
            r.name@ == "default"@,
            r.background == ColorDef::Named(NamedColor::Black),
            r.foreground == ColorDef::Named(NamedColor::White),
            r.cursor == ColorDef::Named(NamedColor::White),
            r.selection == ColorDef::Named(NamedColor::BrightBlue),
            r.search_highlight == ColorDef::Named(NamedColor::Yellow),
            r.line_numbers == ColorDef::Named(NamedColor::BrightBlack),
            r.line_numbers_highlight == ColorDef::Named(NamedColor::White),
    {
        Theme {
            name: String::from_str("default"),
            background: ColorDef::Named(NamedColor::Black),
            foreground: ColorDef::Named(NamedColor::White),
            cursor: ColorDef::Named(NamedColor::White),
            selection: ColorDef::Named(NamedColor::BrightBlue),
            search_highlight: ColorDef::Named(NamedColor::Yellow),
            line_numbers: ColorDef::Named(NamedColor::BrightBlack),
            line_numbers_highlight: ColorDef::Named(NamedColor::White),
            status_line: StatusLineTheme::default(),
            ui: UiTheme::default(),
        }
    }
}

/// Why configuration could not be produced: no configuration directory, or
/// an I/O or parse failure reported by the loader, carried as its message.
#[derive(Debug, Clone)]
pub enum ConfigError {
    NoConfigDir,
    Io(String),
    Toml(String),
    TomlSer(String),
}

/// The configuration surface the editor core consumes, plus rendering
/// switches.
#[derive(Debug, Clone)]
pub struct EditorConfig {
    pub tab_size: usize,
    pub theme: Theme,
    pub line_numbers: bool,
    pub auto_indent: bool,
    pub highlight_current_line: bool,
    pub show_whitespace: bool,
    pub word_wrap: bool,
}

impl EditorConfig {
    /// The stock configuration: four-space tabs, line numbers, auto-indent,
    /// current-line highlight and word wrap on.
    pub fn default() -> (r: Self)
        ensures
            r.tab_size == 4,
            r.line_numbers == true,
            r.auto_indent == true,
            r.highlight_current_line == true,
            r.show_whitespace == false,
            r.word_wrap == true,
    {
        EditorConfig {
            tab_size: 4,
            theme: Theme::default(),
            line_numbers: true,
            auto_indent: true,
            highlight_current_line: true,
            show_whitespace: false,
            word_wrap: true,
        }
    }

    /// The stock configuration, in the shape loaders report.
    pub fn load_default() -> (r: Result<Self, ConfigError>)
        ensures
            match r {
                Ok(c) => c.tab_size == 4 && c.word_wrap == true,
                Err(_) => false,
            },
    {
        Ok(Self::default())
    }
}

} // verus!

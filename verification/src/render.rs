//! Plain geometry and options consumed by a renderer: rectangular screen
//! regions and the rendering switches. Painting itself is a terminal concern
//! and lives outside the library.

use vstd::prelude::*;

verus! {

/// Switches a renderer consults when drawing a buffer.
#[derive(Debug, Clone)]
pub struct RenderOptions {
    pub show_line_numbers: bool,
    pub tab_size: usize,
    pub highlight_current_line: bool,
    pub show_whitespace: bool,
    pub window_width: usize,
    pub window_height: usize,
}

impl RenderOptions {
    /// The default rendering switches: line numbers on, four-space tabs,
    /// current-line highlight on, an eighty-by-twenty-four window.
    pub fn default() -> (r: Self)
        ensures
            r.show_line_numbers == true,
            r.tab_size == 4,
            r.highlight_current_line == true,
            r.show_whitespace == false,
            r.window_width == 80,
            r.window_height == 24,
    {
        RenderOptions {
            show_line_numbers: true,
            tab_size: 4,
            highlight_current_line: true,
            show_whitespace: false,
            window_width: 80,
            window_height: 24,
        }
    }
}

/// A half-open rectangle of screen cells: rows `[start_row, end_row)` by
/// columns `[start_col, end_col)`.
#[derive(Debug)]
pub struct RenderRegion {
    pub start_row: usize,
    pub end_row: usize,
    pub start_col: usize,
    pub end_col: usize,
}

impl RenderRegion {
    /// Builds the rectangle from its four bounds.
    pub fn new(start_row: usize, end_row: usize, start_col: usize, end_col: usize) -> (r: Self)
        ensures
            r.start_row == start_row,
            r.end_row == end_row,
            r.start_col == start_col,
            r.end_col == end_col,
    {
        RenderRegion { start_row, end_row, start_col, end_col }
    }

    /// Whether the cell at `(row, col)` lies inside the rectangle.
    pub fn contains_point(&self, row: usize, col: usize) -> (r: bool)
        ensures
            r == (self.start_row <= row && row < self.end_row && self.start_col <= col && col
                < self.end_col),
    {
        row >= self.start_row && row < self.end_row && col >= self.start_col && col < self.end_col
    }

    /// Whether the two rectangles share at least one cell position in both
    /// axes.
    pub fn overlaps(&self, other: &RenderRegion) -> (r: bool)
        ensures
            r == !(self.end_row <= other.start_row || other.end_row <= self.start_row
                || self.end_col <= other.start_col || other.end_col <= self.start_col),
    {
        !(self.end_row <= other.start_row || other.end_row <= self.start_row || self.end_col
            <= other.start_col || other.end_col <= self.start_col)
    }

    /// The number of rows the rectangle spans.
    pub fn height(&self) -> (r: usize)
        requires
            self.start_row <= self.end_row,
        ensures
            r == self.end_row - self.start_row,
    {
        self.end_row - self.start_row
    }

    /// The number of columns the rectangle spans.
    pub fn width(&self) -> (r: usize)
        requires
            self.start_col <= self.end_col,
        ensures
            r == self.end_col - self.start_col,
    {
        self.end_col - self.start_col
    }
}

} // verus!

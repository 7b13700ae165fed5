//! The window onto the buffer: which rows are visible and how wide the view
//! is.

use vstd::prelude::*;

verus! {

/// A contiguous range of visible buffer rows plus the view width.
#[derive(Debug, Clone, Copy)]
pub struct Viewport {
    /// First visible row.
    pub start: usize,
    /// Number of visible rows.
    pub height: usize,
    /// View width in columns.
    pub width: usize,
}

impl Viewport {
    /// The visible rows as a half-open range `(first, one past last)`.
    pub fn visible_lines(&self) -> (r: (usize, usize))
        requires
            self.start + self.height <= usize::MAX,
        ensures
            r.0 == self.start,
            r.1 == self.start + self.height,
    {
        (self.start, self.start + self.height)
    }

    /// Whether the given row is visible.
    pub fn contains(&self, line: usize) -> (r: bool)
        requires
            self.start + self.height <= usize::MAX,
        ensures
            r == (self.start <= line && line < self.start + self.height),
    {
        line >= self.start && line < self.start + self.height
    }

    /// Moves the first visible row.
    pub fn set_start(&mut self, start: usize)
        ensures
            final(self).start == start,
            final(self).height == old(self).height,
            final(self).width == old(self).width,
    {
        self.start = start;
    }

    /// Changes the number of visible rows.
    pub fn set_height(&mut self, height: usize)
        ensures
            final(self).height == height,
            final(self).start == old(self).start,
            final(self).width == old(self).width,
    {
        self.height = height;
    }

    /// Changes the view width.
    pub fn set_width(&mut self, width: usize)
        ensures
            final(self).width == width,
            final(self).start == old(self).start,
            final(self).height == old(self).height,
    {
        self.width = width;
    }
}

} // verus!

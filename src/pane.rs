//! Panes: blocks of rows, already wrapped to a width, that are stacked on
//! the screen.

use crate::styled::{rows_view, StyledGraphemes};
use vstd::prelude::*;

verus! {

/// Builds the pane of a widget for a terminal of the given size.
pub trait PaneFactory {
    fn create_pane(&self, width: u16, height: u16) -> Pane;
}

/// A block of rows ready to be drawn.
pub struct Pane {
    pub layout: Vec<StyledGraphemes>,
}

impl Pane {
    /// A pane of the given rows.
    pub fn new(layout: Vec<StyledGraphemes>) -> (r: Pane)
        ensures
            r.layout@ == layout@,
    {
        Pane { layout }
    }

    /// The number of rows.
    pub fn visible_row_count(&self) -> (r: usize)
        ensures
            r == self.layout@.len(),
    {
        self.layout.len()
    }

    /// Whether the pane has no row.
    pub fn is_empty(&self) -> (r: bool)
        ensures
            r == (self.layout@.len() == 0),
    {
        self.layout.len() == 0
    }

    /// Copies of the first `viewport_height` rows, or of all rows when there
    /// are fewer.
    pub fn extract(&self, viewport_height: usize) -> (r: Vec<StyledGraphemes>)
        ensures
            rows_view(r@) == rows_view(self.layout@).take(
                if viewport_height < self.layout@.len() {
                    viewport_height as int
                } else {
                    self.layout@.len() as int
                },
            ),
    {
        let end = if viewport_height < self.layout.len() {
            viewport_height
        } else {
            self.layout.len()
        };
        let mut v: Vec<StyledGraphemes> = Vec::new();
        let mut i: usize = 0;
        while i < end
            invariant
                i <= end <= self.layout@.len(),
                rows_view(v@) == rows_view(self.layout@).take(i as int),
            decreases end - i,
        {
            let ghost v0 = rows_view(v@);
            let row = self.layout[i].duplicate();
            assert(row@ == rows_view(self.layout@)[i as int]);
            v.push(row);
            assert(rows_view(v@) =~= v0.push(row@));
            i = i + 1;
            assert(rows_view(v@) =~= rows_view(self.layout@).take(i as int));
        }
        v
    }
}

} // verus!

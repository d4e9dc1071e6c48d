//! A list of styled items with a cursor on one of them.

use crate::cursor::{backward_pos, forward_pos, Cursor};
use crate::style::Style;
use crate::styled::{graphemes_of, rows_view, StyledGraphemes};
use vstd::prelude::*;

verus! {

/// The items that a list of strings becomes, each under the plain style.
pub open spec fn plain_items(items: Seq<String>) -> Seq<Seq<crate::styled::StyledGrapheme>> {
    items.map_values(|s: String| graphemes_of(s@, Style::plain()))
}

/// An ordered list of items and the position of the one under the cursor;
/// the cursor stops at both ends.
pub struct Listbox(pub Cursor<StyledGraphemes>);

impl Listbox {
    /// The cursor lies within the items and does not wrap.
    pub open spec fn wf(&self) -> bool {
        self.0.wf() && !self.0.cyclic
    }

    /// The items.
    pub open spec fn items_view(&self) -> Seq<Seq<crate::styled::StyledGrapheme>> {
        rows_view(self.0.contents@)
    }

    /// A list of `items`, each under the plain style, with the cursor on the first.
    pub fn from_displayable(items: Vec<String>) -> (r: Listbox)
        ensures
            r.wf(),
            r.items_view() == plain_items(items@),
            r.0.position == 0,
    {
        let mut v: Vec<StyledGraphemes> = Vec::new();
        let mut i: usize = 0;
        while i < items.len()
            invariant
                i <= items@.len(),
                rows_view(v@) == plain_items(items@.subrange(0, i as int)),
            decreases items@.len() - i,
        {
            let ghost v0 = rows_view(v@);
            let g = StyledGraphemes::from(items[i].as_str());
            assert(g@ == graphemes_of(items@[i as int]@, Style::plain()));
            v.push(g);
            assert(rows_view(v@) =~= v0.push(g@));
            i = i + 1;
            assert(rows_view(v@) =~= plain_items(items@.subrange(0, i as int)));
        }
        assert(items@.subrange(0, i as int) =~= items@);
        Listbox(Cursor::new(v, 0, false))
    }

    /// A list of `items`, with the cursor on the first.
    pub fn from_styled_graphemes(items: Vec<StyledGraphemes>) -> (r: Listbox)
        ensures
            r.wf(),
            r.0.contents@ == items@,
            r.0.position == 0,
    {
        Listbox(Cursor::new(items, 0, false))
    }

    /// The items.
    pub fn items(&self) -> (r: &Vec<StyledGraphemes>)
        ensures
            r == &self.0.contents,
    {
        &self.0.contents
    }

    /// The position of the cursor.
    pub fn position(&self) -> (r: usize)
        ensures
            r == self.0.position,
    {
        self.0.position
    }

    /// Moves to the previous item; false at the first.
    pub fn backward(&mut self) -> (r: bool)
        requires
            old(self).wf(),
        ensures
            final(self).wf(),
            final(self).0.contents == old(self).0.contents,
            final(self).0.position == backward_pos(
                old(self).0.contents@.len(),
                old(self).0.position as nat,
                false,
            ),
            r == (final(self).0.position != old(self).0.position),
    {
        self.0.backward()
    }

    /// Moves to the next item; false at the last.
    pub fn forward(&mut self) -> (r: bool)
        requires
            old(self).wf(),
        ensures
            final(self).wf(),
            final(self).0.contents == old(self).0.contents,
            final(self).0.position == forward_pos(
                old(self).0.contents@.len(),
                old(self).0.position as nat,
                false,
            ),
            r == (final(self).0.position != old(self).0.position),
    {
        self.0.forward()
    }

    /// Moves to the first item.
    pub fn move_to_head(&mut self)
        requires
            old(self).wf(),
        ensures
            final(self).wf(),
            final(self).0.contents == old(self).0.contents,
            final(self).0.position == 0,
    {
        self.0.move_to_head();
    }

    /// Moves to the last item.
    pub fn move_to_tail(&mut self)
        requires
            old(self).wf(),
        ensures
            final(self).wf(),
            final(self).0.contents == old(self).0.contents,
            final(self).0.position == if old(self).0.contents@.len() == 0 {
                0
            } else {
                (old(self).0.contents@.len() - 1) as nat
            },
    {
        self.0.move_to_tail();
    }
}

} // verus!

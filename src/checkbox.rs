//! A list whose items can be picked: a listbox and the set of picked indices.

use crate::listbox::{plain_items, Listbox};
use crate::styled::{rows_view, StyledGraphemes};
use std::collections::HashSet;
use vstd::prelude::*;

verus! {

broadcast use vstd::std_specs::hash::group_hash_axioms;

/// The indices of the items marked as picked.
pub open spec fn checked_indices(items: Seq<(String, bool)>) -> Set<usize> {
    Set::new(|i: usize| (i as int) < items.len() && items[i as int].1)
}

/// The items at the picked indices, in the order of the list.
pub open spec fn picked_in_order(
    items: Seq<Seq<crate::styled::StyledGrapheme>>,
    picked: Set<usize>,
    k: int,
) -> Seq<Seq<crate::styled::StyledGrapheme>>
    decreases k,
{
    if k <= 0 || k > items.len() {
        Seq::empty()
    } else if picked.contains((k - 1) as usize) {
        picked_in_order(items, picked, k - 1).push(items[k - 1])
    } else {
        picked_in_order(items, picked, k - 1)
    }
}

/// A listbox and the set of picked item indices.
pub struct Checkbox {
    pub listbox: Listbox,
    pub picked: HashSet<usize>,
}

impl Checkbox {
    /// The listbox is well formed.
    pub open spec fn wf(&self) -> bool {
        self.listbox.wf()
    }

    /// A checkbox over `items`, under the plain style, none picked.
    pub fn from_displayable(items: Vec<String>) -> (r: Checkbox)
        ensures
            r.wf(),
            r.listbox.items_view() == plain_items(items@),
            r.listbox.0.position == 0,
            r.picked@ == Set::<usize>::empty(),
    {
        Checkbox { listbox: Listbox::from_displayable(items), picked: HashSet::new() }
    }

    /// A checkbox over `items`, none picked.
    pub fn from_styled_graphemes(items: Vec<StyledGraphemes>) -> (r: Checkbox)
        ensures
            r.wf(),
            r.listbox.0.contents@ == items@,
            r.listbox.0.position == 0,
            r.picked@ == Set::<usize>::empty(),
    {
        Checkbox { listbox: Listbox::from_styled_graphemes(items), picked: HashSet::new() }
    }

    /// A checkbox over the first elements of `items`, with an item picked where
    /// its second element is true.
    pub fn new_with_checked(items: Vec<(String, bool)>) -> (r: Checkbox)
        ensures
            r.wf(),
            r.listbox.items_view() == plain_items(items@.map_values(|e: (String, bool)| e.0)),
            r.listbox.0.position == 0,
            r.picked@ == checked_indices(items@),
    {
        let mut names: Vec<String> = Vec::new();
        let mut picked: HashSet<usize> = HashSet::new();
        let mut i: usize = 0;
        while i < items.len()
            invariant
                i <= items@.len(),
                names@ == items@.subrange(0, i as int).map_values(|e: (String, bool)| e.0),
                picked@ == checked_indices(items@.subrange(0, i as int)),
            decreases items@.len() - i,
        {
            names.push(items[i].0.clone());
            if items[i].1 {
                picked.insert(i);
            }
            i = i + 1;
            assert(names@ =~= items@.subrange(0, i as int).map_values(|e: (String, bool)| e.0));
            assert(picked@ =~= checked_indices(items@.subrange(0, i as int)));
        }
        assert(items@.subrange(0, i as int) =~= items@);
        Checkbox { listbox: Listbox::from_displayable(names), picked }
    }

    /// The items.
    pub fn items(&self) -> (r: &Vec<StyledGraphemes>)
        ensures
            r == &self.listbox.0.contents,
    {
        self.listbox.items()
    }

    /// The position of the cursor.
    pub fn position(&self) -> (r: usize)
        ensures
            r == self.listbox.0.position,
    {
        self.listbox.position()
    }

    /// The picked indices.
    pub fn picked_indexes(&self) -> (r: &HashSet<usize>)
        ensures
            r == &self.picked,
    {
        &self.picked
    }

    /// Copies of the picked items, in the order of the list.
    pub fn get(&self) -> (r: Vec<StyledGraphemes>)
        ensures
            rows_view(r@) == picked_in_order(
                self.listbox.items_view(),
                self.picked@,
                self.listbox.items_view().len() as int,
            ),
    {
        let items = self.listbox.items();
        let mut ret: Vec<StyledGraphemes> = Vec::new();
        let mut i: usize = 0;
        while i < items.len()
            invariant
                i <= items@.len(),
                items == &self.listbox.0.contents,
                rows_view(ret@) == picked_in_order(self.listbox.items_view(), self.picked@, i as int),
            decreases items@.len() - i,
        {
            let ghost r0 = rows_view(ret@);
            if self.picked.contains(&i) {
                let g = items[i].duplicate();
                ret.push(g);
                assert(rows_view(ret@) =~= r0.push(g@));
            }
            i = i + 1;
        }
        ret
    }

    /// Picks the item under the cursor, or unpicks it when it is picked.
    pub fn toggle(&mut self)
        requires
            old(self).wf(),
        ensures
            final(self).wf(),
            final(self).listbox == old(self).listbox,
            old(self).picked@.contains(old(self).listbox.0.position) ==> final(self).picked@ == old(
                self,
            ).picked@.remove(old(self).listbox.0.position),
            !old(self).picked@.contains(old(self).listbox.0.position) ==> final(self).picked@ == old(
                self,
            ).picked@.insert(old(self).listbox.0.position),
    {
        let pos = self.listbox.position();
        if self.picked.contains(&pos) {
            self.picked.remove(&pos);
        } else {
            self.picked.insert(pos);
        }
    }

    /// Moves to the previous item; false at the first.
    pub fn backward(&mut self) -> (r: bool)
        requires
            old(self).wf(),
        ensures
            final(self).wf(),
            final(self).picked == old(self).picked,
            final(self).listbox.0.contents == old(self).listbox.0.contents,
            final(self).listbox.0.position == crate::cursor::backward_pos(
                old(self).listbox.0.contents@.len(),
                old(self).listbox.0.position as nat,
                false,
            ),
            r == (final(self).listbox.0.position != old(self).listbox.0.position),
    {
        self.listbox.backward()
    }

    /// Moves to the next item; false at the last.
    pub fn forward(&mut self) -> (r: bool)
        requires
            old(self).wf(),
        ensures
            final(self).wf(),
            final(self).picked == old(self).picked,
            final(self).listbox.0.contents == old(self).listbox.0.contents,
            final(self).listbox.0.position == crate::cursor::forward_pos(
                old(self).listbox.0.contents@.len(),
                old(self).listbox.0.position as nat,
                false,
            ),
            r == (final(self).listbox.0.position != old(self).listbox.0.position),
    {
        self.listbox.forward()
    }

    /// Moves to the first item.
    pub fn move_to_head(&mut self)
        requires
            old(self).wf(),
        ensures
            final(self).wf(),
            final(self).picked == old(self).picked,
            final(self).listbox.0.contents == old(self).listbox.0.contents,
            final(self).listbox.0.position == 0,
    {
        self.listbox.move_to_head()
    }

    /// Moves to the last item.
    pub fn move_to_tail(&mut self)
        requires
            old(self).wf(),
        ensures
            final(self).wf(),
            final(self).picked == old(self).picked,
            final(self).listbox.0.contents == old(self).listbox.0.contents,
            final(self).listbox.0.position == if old(self).listbox.0.contents@.len() == 0 {
                0
            } else {
                (old(self).listbox.0.contents@.len() - 1) as nat
            },
    {
        self.listbox.move_to_tail()
    }
}

} // verus!

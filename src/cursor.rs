//! A cursor over a sequence: a position that moves within the bounds of the
//! contents, optionally wrapping around at both ends.

use vstd::prelude::*;

verus! {

/// Where `forward` leaves a cursor at `pos` over `len` items.
pub open spec fn forward_pos(len: nat, pos: nat, cyclic: bool) -> nat {
    if len == 0 {
        pos
    } else if pos + 1 < len {
        pos + 1
    } else if cyclic {
        0
    } else {
        pos
    }
}

/// Where `backward` leaves a cursor at `pos` over `len` items.
pub open spec fn backward_pos(len: nat, pos: nat, cyclic: bool) -> nat {
    if len == 0 {
        pos
    } else if pos > 0 {
        (pos - 1) as nat
    } else if cyclic {
        (len - 1) as nat
    } else {
        pos
    }
}

/// Where `shift(backward, forward)` leaves a cursor at `pos` over `len`
/// items: the target, when it lies within the contents.
pub open spec fn shift_pos(len: nat, pos: nat, backward: nat, forward: nat) -> nat {
    let target = pos - backward + forward;
    if 0 <= target < len {
        target as nat
    } else {
        pos
    }
}

/// A position over a sequence of items. The position is within the contents,
/// or 0 when they are empty.
pub struct Cursor<T> {
    pub contents: Vec<T>,
    pub position: usize,
    pub cyclic: bool,
}

impl<T> Cursor<T> {
    /// Whether the position lies within the contents.
    pub open spec fn wf(&self) -> bool {
        if self.contents@.len() == 0 {
            self.position == 0
        } else {
            self.position < self.contents@.len()
        }
    }

    /// Whether the position is on the last item, or the contents are empty.
    pub open spec fn at_tail(&self) -> bool {
        self.contents@.len() == 0 || self.position + 1 == self.contents@.len()
    }

    /// A cursor over `contents` at `position`, moved back to the last item
    /// when it lies beyond them.
    pub fn new(contents: Vec<T>, position: usize, cyclic: bool) -> (r: Cursor<T>)
        ensures
            r.wf(),
            r.contents@ == contents@,
            r.cyclic == cyclic,
            r.position == if position < contents@.len() {
                position as nat
            } else if contents@.len() == 0 {
                0
            } else {
                (contents@.len() - 1) as nat
            },
    {
        let len = contents.len();
        let position = if position < len {
            position
        } else if len == 0 {
            0
        } else {
            len - 1
        };
        Cursor { contents, position, cyclic }
    }

    /// The position.
    pub fn position(&self) -> (r: usize)
        ensures
            r == self.position,
    {
        self.position
    }

    /// The contents.
    pub fn contents(&self) -> (r: &Vec<T>)
        ensures
            r == &self.contents,
    {
        &self.contents
    }

    /// Whether the position is on the first item.
    pub fn is_head(&self) -> (r: bool)
        ensures
            r == (self.position == 0),
    {
        self.position == 0
    }

    /// Whether the position is on the last item, or the contents are empty.
    pub fn is_tail(&self) -> (r: bool)
        requires
            self.wf(),
        ensures
            r == self.at_tail(),
    {
        self.contents.len() == 0 || self.position + 1 == self.contents.len()
    }

    /// Moves one item forward, wrapping to the first when cyclic; returns
    /// whether the position changed.
    pub fn forward(&mut self) -> (r: bool)
        requires
            old(self).wf(),
        ensures
            final(self).wf(),
            final(self).contents == old(self).contents,
            final(self).cyclic == old(self).cyclic,
            final(self).position == forward_pos(
                old(self).contents@.len(),
                old(self).position as nat,
                old(self).cyclic,
            ),
            r == (final(self).position != old(self).position),
    {
        let len = self.contents.len();
        if len == 0 {
            false
        } else if self.position + 1 < len {
            self.position = self.position + 1;
            true
        } else if self.cyclic {
            let changed = self.position != 0;
            self.position = 0;
            changed
        } else {
            false
        }
    }

    /// Moves one item backward, wrapping to the last when cyclic; returns
    /// whether the position changed.
    pub fn backward(&mut self) -> (r: bool)
        requires
            old(self).wf(),
        ensures
            final(self).wf(),
            final(self).contents == old(self).contents,
            final(self).cyclic == old(self).cyclic,
            final(self).position == backward_pos(
                old(self).contents@.len(),
                old(self).position as nat,
                old(self).cyclic,
            ),
            r == (final(self).position != old(self).position),
    {
        let len = self.contents.len();
        if len == 0 {
            false
        } else if self.position > 0 {
            self.position = self.position - 1;
            true
        } else if self.cyclic {
            let changed = self.position != len - 1;
            self.position = len - 1;
            changed
        } else {
            false
        }
    }

    /// Moves to `position` when it lies within the contents; returns whether
    /// the position changed.
    pub fn move_to(&mut self, position: usize) -> (r: bool)
        requires
            old(self).wf(),
        ensures
            final(self).wf(),
            final(self).contents == old(self).contents,
            final(self).cyclic == old(self).cyclic,
            final(self).position == if position < old(self).contents@.len() {
                position
            } else {
                old(self).position
            },
            r == (final(self).position != old(self).position),
    {
        if position < self.contents.len() {
            let changed = self.position != position;
            self.position = position;
            changed
        } else {
            false
        }
    }

    /// Moves to the first item; returns whether the position changed.
    pub fn move_to_head(&mut self) -> (r: bool)
        requires
            old(self).wf(),
        ensures
            final(self).wf(),
            final(self).contents == old(self).contents,
            final(self).cyclic == old(self).cyclic,
            final(self).position == 0,
            r == (old(self).position != 0),
    {
        let changed = self.position != 0;
        self.position = 0;
        changed
    }

    /// Moves to the last item; returns whether the position changed.
    pub fn move_to_tail(&mut self) -> (r: bool)
        requires
            old(self).wf(),
        ensures
            final(self).wf(),
            final(self).contents == old(self).contents,
            final(self).cyclic == old(self).cyclic,
            final(self).position == if old(self).contents@.len() == 0 {
                0
            } else {
                (old(self).contents@.len() - 1) as nat
            },
            r == (final(self).position != old(self).position),
    {
        let len = self.contents.len();
        let target = if len == 0 {
            0
        } else {
            len - 1
        };
        let changed = self.position != target;
        self.position = target;
        changed
    }

    /// Moves `backward` items back and then `forward` items on, when the
    /// target lies within the contents; returns whether the position changed.
    pub fn shift(&mut self, backward: usize, forward: usize) -> (r: bool)
        requires
            old(self).wf(),
        ensures
            final(self).wf(),
            final(self).contents == old(self).contents,
            final(self).cyclic == old(self).cyclic,
            final(self).position == shift_pos(
                old(self).contents@.len(),
                old(self).position as nat,
                backward as nat,
                forward as nat,
            ),
            r == (final(self).position != old(self).position),
    {
        let len = self.contents.len();
        let target: usize;
        if backward <= self.position {
            let base = self.position - backward;
            if base < len && forward < len - base {
                target = base + forward;
            } else {
                return false;
            }
        } else {
            let deficit = backward - self.position;
            if deficit <= forward && forward - deficit < len {
                target = forward - deficit;
            } else {
                return false;
            }
        }
        let changed = target != self.position;
        self.position = target;
        changed
    }
}

/// Moving forward and then backward comes back to the same position, unless
/// the cursor started on the last item.
pub proof fn lemma_forward_backward(len: nat, pos: nat, cyclic: bool)
    requires
        len == 0 || pos < len,
        !(len == 0 || pos + 1 == len),
    ensures
        backward_pos(len, forward_pos(len, pos, cyclic), cyclic) == pos,
{
}

} // verus!

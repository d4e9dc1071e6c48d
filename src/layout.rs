//! The layout engine: greedy wrapping of graphemes into rows of bounded
//! display width, and the scroll model that keeps a window of rows.

use crate::styled::{rows_view, StyledGrapheme, StyledGraphemes};
use vstd::prelude::*;

verus! {

/// The total width of `row`, each item measured by `wf`.
pub open spec fn row_width<G>(row: Seq<G>, wf: spec_fn(G) -> nat) -> nat
    decreases row.len(),
{
    if row.len() == 0 {
        0
    } else {
        row_width(row.drop_last(), wf) + wf(row.last())
    }
}

/// The state of greedy wrapping after reading all of `s`: the rows completed
/// so far and the row being filled. An item that does not fit after the
/// current row closes it; an item wider than `width` is dropped.
pub open spec fn wrap_state<G>(s: Seq<G>, wf: spec_fn(G) -> nat, width: nat) -> (
    Seq<Seq<G>>,
    Seq<G>,
)
    decreases s.len(),
{
    if s.len() == 0 {
        (Seq::empty(), Seq::empty())
    } else {
        let (rows, row) = wrap_state(s.drop_last(), wf, width);
        let g = s.last();
        let (rows2, row2) = if row.len() > 0 && width < row_width(row, wf) + wf(g) {
            (rows.push(row), Seq::empty())
        } else {
            (rows, row)
        };
        if wf(g) <= width {
            (rows2, row2.push(g))
        } else {
            (rows2, row2)
        }
    }
}

/// The rows of greedy wrapping of `s` to `width`; no row is empty.
pub open spec fn wrap<G>(s: Seq<G>, wf: spec_fn(G) -> nat, width: nat) -> Seq<Seq<G>> {
    let (rows, row) = wrap_state(s, wf, width);
    if row.len() > 0 {
        rows.push(row)
    } else {
        rows
    }
}

/// The items of `s` no wider than `width`, in order.
pub open spec fn fitting<G>(s: Seq<G>, wf: spec_fn(G) -> nat, width: nat) -> Seq<G>
    decreases s.len(),
{
    if s.len() == 0 {
        Seq::empty()
    } else if wf(s.last()) <= width {
        fitting(s.drop_last(), wf, width).push(s.last())
    } else {
        fitting(s.drop_last(), wf, width)
    }
}

/// All rows, one after the other.
pub open spec fn concat<G>(rows: Seq<Seq<G>>) -> Seq<G>
    decreases rows.len(),
{
    if rows.len() == 0 {
        Seq::empty()
    } else {
        concat(rows.drop_last()) + rows.last()
    }
}

/// The window of `height` rows that scrolling by `offset` keeps, and the
/// offset that remains: the offset is first clamped to the last row, rows are
/// dropped from the front while the offset lasts, then from the back.
pub open spec fn paginate<R>(rows: Seq<R>, height: nat, offset: nat) -> (Seq<R>, nat) {
    if rows.len() == 0 {
        (Seq::empty(), 0)
    } else {
        let o: nat = if offset < rows.len() {
            offset
        } else {
            (rows.len() - 1) as nat
        };
        if rows.len() <= height {
            (rows, o)
        } else {
            let f: nat = if o < rows.len() - height {
                o
            } else {
                (rows.len() - height) as nat
            };
            (rows.subrange(f as int, (f + height) as int), (o - f) as nat)
        }
    }
}

/// The display width of a styled grapheme.
pub open spec fn grapheme_width() -> spec_fn(StyledGrapheme) -> nat {
    |g: StyledGrapheme| g.width as nat
}

/// Wrapping keeps every item that fits and drops only those wider than the
/// row: the rows, read one after the other, are the items no wider than
/// `width`, in their order.
pub proof fn lemma_wrap_keeps_fitting<G>(s: Seq<G>, wf: spec_fn(G) -> nat, width: nat)
    ensures
        concat(wrap(s, wf, width)) == fitting(s, wf, width),
{
    lemma_wrap_state_concat(s, wf, width);
    let (rows, row) = wrap_state(s, wf, width);
    if row.len() > 0 {
        assert(rows.push(row).drop_last() =~= rows);
    } else {
        assert(concat(rows) + row =~= concat(rows));
    }
}

/// With room for every row and no offset, the rows that `matrixify` returns,
/// read one after the other, are the graphemes of the sequence that fit in
/// `width`, in their order: nothing else is lost and nothing is reordered.
pub proof fn lemma_matrixify_loses_only_too_wide(s: Seq<StyledGrapheme>, width: nat, height: nat)
    requires
        wrap(s, grapheme_width(), width).len() <= height,
    ensures
        concat(paginate(wrap(s, grapheme_width(), width), height, 0).0) == fitting(
            s,
            grapheme_width(),
            width,
        ),
{
    lemma_wrap_keeps_fitting(s, grapheme_width(), width);
    if wrap(s, grapheme_width(), width).len() == 0 {
        assert(concat(Seq::<Seq<StyledGrapheme>>::empty()) == Seq::<StyledGrapheme>::empty());
    }
}

proof fn lemma_wrap_state_concat<G>(s: Seq<G>, wf: spec_fn(G) -> nat, width: nat)
    ensures
        concat(wrap_state(s, wf, width).0) + wrap_state(s, wf, width).1 == fitting(s, wf, width),
    decreases s.len(),
{
    if s.len() == 0 {
        assert(concat(Seq::<Seq<G>>::empty()) + Seq::<G>::empty() =~= Seq::<G>::empty());
    } else {
        lemma_wrap_state_concat(s.drop_last(), wf, width);
        let (rows, row) = wrap_state(s.drop_last(), wf, width);
        let g = s.last();
        if row.len() > 0 && width < row_width(row, wf) + wf(g) {
            assert(rows.push(row).drop_last() =~= rows);
            assert(concat(rows.push(row)) + Seq::<G>::empty() =~= concat(rows) + row);
            assert(concat(rows.push(row)) + seq![g] =~= concat(rows) + row + seq![g]);
        } else {
            assert(concat(rows) + row.push(g) =~= concat(rows) + row + seq![g]);
        }
        if wf(g) <= width {
            assert(fitting(s, wf, width) =~= fitting(s.drop_last(), wf, width) + seq![g]);
        }
    }
}

impl StyledGraphemes {
    /// Wraps the graphemes into rows no wider than `width` and keeps the window
    /// of at most `height` rows that scrolling by `offset` selects; returns the
    /// rows and the offset that remains.
    pub fn matrixify(&self, width: usize, height: usize, offset: usize) -> (r: (
        Vec<StyledGraphemes>,
        usize,
    ))
        ensures
            rows_view(r.0@) == paginate(
                wrap(self@, grapheme_width(), width as nat),
                height as nat,
                offset as nat,
            ).0,
            r.1 == paginate(wrap(self@, grapheme_width(), width as nat), height as nat, offset as nat).1,
    {
        let ghost wf = grapheme_width();
        let len = self.0.len();
        let mut all: Vec<StyledGraphemes> = Vec::new();
        let mut row: Vec<StyledGrapheme> = Vec::new();
        let mut rw: usize = 0;
        let mut i: usize = 0;
        while i < len
            invariant
                i <= len,
                len == self@.len(),
                wf == grapheme_width(),
                (rows_view(all@), row@) == wrap_state(self@.subrange(0, i as int), wf, width as nat),
                rw == row_width(row@, wf),
                rw <= width,
            decreases len - i,
        {
            let g = self.0[i];
            let ghost pre = self@.subrange(0, i as int);
            assert(self@.subrange(0, i as int + 1).drop_last() =~= pre);
            assert(self@.subrange(0, i as int + 1).last() == g);
            assert(wf(g) == g.width as nat);
            if row.len() > 0 && width - rw < g.width {
                let ghost old_all = all@;
                all.push(StyledGraphemes(row));
                row = Vec::new();
                rw = 0;
                assert(row_width(row@, wf) == 0);
                assert(rows_view(all@) =~= rows_view(old_all).push(wrap_state(pre, wf, width as nat).1));
            }
            if g.width <= width {
                let ghost old_row = row@;
                row.push(g);
                assert(row@.drop_last() =~= old_row);
                assert(row@.last() == g);
                assert(row_width(row@, wf) == row_width(old_row, wf) + wf(g));
                rw = rw + g.width;
            }
            i = i + 1;
        }
        assert(self@.subrange(0, len as int) =~= self@);
        if row.len() > 0 {
            let ghost old_all = all@;
            all.push(StyledGraphemes(row));
            assert(rows_view(all@) =~= rows_view(old_all).push(wrap_state(self@, wf, width as nat).1));
        }
        let n = all.len();
        if n == 0 {
            assert(rows_view(all@).len() == 0);
            return (Vec::new(), 0);
        }
        let o: usize = if offset < n {
            offset
        } else {
            n - 1
        };
        if n <= height {
            return (all, o);
        }
        let f: usize = if o < n - height {
            o
        } else {
            n - height
        };
        let ghost full = rows_view(all@);
        all.truncate(f + height);
        let rest = all.split_off(f);
        assert(rows_view(rest@) =~= full.subrange(f as int, f + height));
        (rest, o - f)
    }
}

} // verus!

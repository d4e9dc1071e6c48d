//! Plain rows of graphemes: characters with their display widths and a
//! style, wrapped or trimmed to the width of a terminal.

use crate::layout::{row_width, wrap_state};
use crate::style::Style;
use crate::text::{char_width, chars_of, width_of};
use vstd::prelude::*;

verus! {

/// A character, its display width and its style.
#[derive(Clone, Copy, Debug, PartialEq, Eq, Structural)]
pub struct Grapheme {
    pub ch: char,
    pub width: usize,
    pub style: Style,
}

/// The display width of a grapheme.
pub open spec fn width_fn() -> spec_fn(Grapheme) -> nat {
    |g: Grapheme| g.width as nat
}

impl Grapheme {
    /// The grapheme of `ch` under the plain style.
    pub fn new(ch: char) -> (r: Grapheme)
        ensures
            r == (Grapheme { ch, width: char_width(ch), style: Style::plain() }),
    {
        Grapheme::new_with_style(ch, Style::new())
    }

    /// The grapheme of `ch` under `style`.
    pub fn new_with_style(ch: char, style: Style) -> (r: Grapheme)
        ensures
            r == (Grapheme { ch, width: char_width(ch), style }),
    {
        Grapheme { ch, width: width_of(ch), style }
    }
}

/// A row of graphemes.
#[derive(Clone, Debug, Default, PartialEq, Eq)]
pub struct Graphemes(pub Vec<Grapheme>);

impl View for Graphemes {
    type V = Seq<Grapheme>;

    open spec fn view(&self) -> Seq<Grapheme> {
        self.0@
    }
}

/// The graphemes of the characters of `s` under `style`.
pub open spec fn plain_row(s: Seq<char>, style: Style) -> Seq<Grapheme> {
    s.map_values(|c: char| grapheme_spec(c, style))
}

/// The grapheme of `ch` under `style`.
pub open spec fn grapheme_spec(ch: char, style: Style) -> Grapheme {
    Grapheme { ch, width: char_width(ch), style }
}

/// The views of a sequence of rows.
pub open spec fn graphemes_rows(rows: Seq<Graphemes>) -> Seq<Seq<Grapheme>> {
    rows.map_values(|r: Graphemes| r@)
}

impl Graphemes {
    /// The graphemes of `string` under the plain style.
    pub fn new(string: &str) -> (r: Graphemes)
        ensures
            r@ == plain_row(string@, Style::plain()),
    {
        Graphemes::new_with_style(string, Style::new())
    }

    /// The graphemes of `string` under `style`.
    pub fn new_with_style(string: &str, style: Style) -> (r: Graphemes)
        ensures
            r@ == plain_row(string@, style),
    {
        let cs = chars_of(string);
        let mut v: Vec<Grapheme> = Vec::new();
        let mut i: usize = 0;
        assert(plain_row(cs@.subrange(0, 0), style) =~= v@);
        while i < cs.len()
            invariant
                i <= cs@.len(),
                cs@ == string@,
                v@ == plain_row(cs@.subrange(0, i as int), style),
            decreases cs@.len() - i,
        {
            let g = Grapheme::new_with_style(cs[i], style);
            v.push(g);
            i = i + 1;
            assert(cs@.subrange(0, i as int) =~= cs@.subrange(0, i - 1).push(cs@[i - 1]));
            assert(plain_row(cs@.subrange(0, i as int), style) =~= plain_row(cs@.subrange(0, i - 1), style).push(g));
            assert(v@ =~= plain_row(cs@.subrange(0, i as int), style));
        }
        assert(cs@.subrange(0, i as int) =~= cs@);
        Graphemes(v)
    }

    /// The total display width.
    pub fn widths(&self) -> (r: usize)
        requires
            row_width(self@, width_fn()) <= usize::MAX,
        ensures
            r == row_width(self@, width_fn()),
    {
        let mut total: usize = 0;
        let mut i: usize = 0;
        while i < self.0.len()
            invariant
                i <= self@.len(),
                row_width(self@, width_fn()) <= usize::MAX,
                total == row_width(self@.subrange(0, i as int), width_fn()),
            decreases self@.len() - i,
        {
            proof {
                lemma_row_width_prefix(self@, i as int + 1);
                assert(self@.subrange(0, i as int + 1).drop_last() =~= self@.subrange(0, i as int));
            }
            total = total + self.0[i].width;
            i = i + 1;
        }
        assert(self@.subrange(0, i as int) =~= self@);
        total
    }

    /// The row with the grapheme at `idx` under `style`; nothing changes when
    /// `idx` is out of range.
    pub fn stylize(self, idx: usize, style: Style) -> (r: Graphemes)
        ensures
            idx < self@.len() ==> r@ == self@.update(idx as int, Grapheme { style, ..self@[idx as int] }),
            idx >= self@.len() ==> r@ == self@,
    {
        let mut v = self.0;
        if idx < v.len() {
            let mut g = v[idx];
            g.style = style;
            v.set(idx, g);
        }
        Graphemes(v)
    }
}

proof fn lemma_row_width_prefix(s: Seq<Grapheme>, n: int)
    requires
        0 <= n <= s.len(),
    ensures
        row_width(s.subrange(0, n), width_fn()) <= row_width(s, width_fn()),
    decreases s.len(),
{
    if n < s.len() {
        assert(s.drop_last().subrange(0, n) =~= s.subrange(0, n));
        lemma_row_width_prefix(s.drop_last(), n);
    } else {
        assert(s.subrange(0, n) =~= s);
    }
}

/// The rows of greedy wrapping of `g` to `width`, the row being filled at the
/// end included even when it is empty.
pub open spec fn wrapped_rows(g: Seq<Grapheme>, width: nat) -> Seq<Seq<Grapheme>> {
    wrap_state(g, width_fn(), width).0.push(wrap_state(g, width_fn(), width).1)
}

/// Wraps `g` into rows no wider than `width`, dropping graphemes wider than a
/// row; the last row is kept even when it is empty.
pub fn matrixify(width: usize, g: &Graphemes) -> (r: Vec<Graphemes>)
    ensures
        graphemes_rows(r@) == wrapped_rows(g@, width as nat),
{
    let ghost wf = width_fn();
    let len = g.0.len();
    let mut all: Vec<Graphemes> = Vec::new();
    let mut row: Vec<Grapheme> = Vec::new();
    let mut rw: usize = 0;
    let mut i: usize = 0;
    while i < len
        invariant
            i <= len,
            len == g@.len(),
            wf == width_fn(),
            (graphemes_rows(all@), row@) == wrap_state(g@.subrange(0, i as int), wf, width as nat),
            rw == row_width(row@, wf),
            rw <= width,
        decreases len - i,
    {
        let ch = g.0[i];
        let ghost pre = g@.subrange(0, i as int);
        assert(g@.subrange(0, i as int + 1).drop_last() =~= pre);
        assert(g@.subrange(0, i as int + 1).last() == ch);
        assert(wf(ch) == ch.width as nat);
        if row.len() > 0 && width - rw < ch.width {
            let ghost old_all = all@;
            all.push(Graphemes(row));
            row = Vec::new();
            rw = 0;
            assert(row_width(row@, wf) == 0);
            assert(graphemes_rows(all@) =~= graphemes_rows(old_all).push(wrap_state(pre, wf, width as nat).1));
        }
        if ch.width <= width {
            let ghost old_row = row@;
            row.push(ch);
            assert(row@.drop_last() =~= old_row);
            assert(row@.last() == ch);
            assert(row_width(row@, wf) == row_width(old_row, wf) + wf(ch));
            rw = rw + ch.width;
        }
        i = i + 1;
    }
    assert(g@.subrange(0, len as int) =~= g@);
    let ghost old_all = all@;
    let ghost last = row@;
    all.push(Graphemes(row));
    assert(graphemes_rows(all@) =~= graphemes_rows(old_all).push(last));
    all
}

/// The longest prefix of `g` no wider than `width`.
pub fn trim(width: usize, g: &Graphemes) -> (r: Graphemes)
    ensures
        r@.len() <= g@.len(),
        r@ == g@.subrange(0, r@.len() as int),
        row_width(r@, width_fn()) <= width,
        r@.len() == g@.len() || row_width(g@.subrange(0, r@.len() + 1 as int), width_fn()) > width,
{
    let ghost wf = width_fn();
    let len = g.0.len();
    let mut row: Vec<Grapheme> = Vec::new();
    let mut rw: usize = 0;
    let mut i: usize = 0;
    while i < len
        invariant
            i <= len,
            len == g@.len(),
            wf == width_fn(),
            row@ == g@.subrange(0, i as int),
            rw == row_width(row@, wf),
            rw <= width,
        decreases len - i,
    {
        let ch = g.0[i];
        assert(g@.subrange(0, i as int + 1).drop_last() =~= g@.subrange(0, i as int));
        assert(g@.subrange(0, i as int + 1).last() == ch);
        assert(wf(ch) == ch.width as nat);
        if width - rw < ch.width {
            assert(row_width(g@.subrange(0, i as int + 1), wf) > width);
            return Graphemes(row);
        }
        row.push(ch);
        assert(row@ =~= g@.subrange(0, i as int + 1));
        rw = rw + ch.width;
        i = i + 1;
    }
    assert(row@ =~= g@.subrange(0, len as int));
    Graphemes(row)
}

} // verus!

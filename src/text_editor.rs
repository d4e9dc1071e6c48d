//! A one-line text editor: a cursor over styled graphemes whose buffer always
//! ends with a space on which the cursor rests at the end of the text.

use crate::cursor::{backward_pos, forward_pos, shift_pos, Cursor};
use crate::style::Style;
use crate::styled::{grapheme_of, graphemes_of, StyledGrapheme, StyledGraphemes};
use crate::text::chars_of;
use vstd::prelude::*;

verus! {

/// Whether typing inserts characters or overwrites those under the cursor.
#[derive(Clone, Copy, Debug, PartialEq, Eq, Structural)]
pub enum Mode {
    Insert,
    Overwrite,
}

impl Default for Mode {
    fn default() -> (r: Mode)
        ensures
            r == Mode::Insert,
    {
        Mode::Insert
    }
}

/// The space that ends every buffer.
pub open spec fn sentinel() -> StyledGrapheme {
    grapheme_of(' ', Style::plain())
}

/// The graphemes of a character under the plain style.
pub open spec fn plain_graphemes(s: Seq<char>) -> Seq<StyledGrapheme> {
    graphemes_of(s, Style::plain())
}

/// Whether a grapheme's character is in `set`.
pub open spec fn breaks_at(set: Seq<char>, g: StyledGrapheme) -> bool {
    set.contains(g.ch)
}

/// Where moving to the previous word break leaves the cursor: just after the
/// greatest index below `pos - 1` whose character is in `set`, or at 0.
pub open spec fn previous_break(text: Seq<StyledGrapheme>, pos: int, set: Seq<char>) -> int {
    if exists|i: int| 0 <= i < pos - 1 && #[trigger] breaks_at(set, text[i]) {
        let i = choose|i: int|
            0 <= i < pos - 1 && #[trigger] breaks_at(set, text[i]) && forall|j: int|
                i < j < pos - 1 ==> !#[trigger] breaks_at(set, text[j]);
        i + 1
    } else {
        0
    }
}

/// Where moving to the next word break leaves the cursor: just after the least
/// index above `pos` whose character is in `set`, never past the final space.
pub open spec fn next_break(text: Seq<StyledGrapheme>, pos: int, set: Seq<char>) -> int {
    if exists|i: int| pos < i < text.len() && #[trigger] breaks_at(set, text[i]) {
        let i = choose|i: int|
            pos < i < text.len() && #[trigger] breaks_at(set, text[i]) && forall|j: int|
                pos < j < i ==> !#[trigger] breaks_at(set, text[j]);
        if i < text.len() - 1 {
            i + 1
        } else {
            text.len() - 1
        }
    } else {
        text.len() - 1
    }
}

/// The buffer after erasing between the cursor at `pos` and `target`.
pub open spec fn erased_between(text: Seq<StyledGrapheme>, pos: int, target: int) -> Seq<
    StyledGrapheme,
> {
    if target > pos {
        text.subrange(0, pos) + text.subrange(target, text.len() as int)
    } else {
        text.subrange(0, target) + text.subrange(pos, text.len() as int)
    }
}

/// Whether `c` is one of `set`.
fn contains_char(set: &Vec<char>, c: char) -> (r: bool)
    ensures
        r == set@.contains(c),
{
    let mut i: usize = 0;
    while i < set.len()
        invariant
            i <= set@.len(),
            forall|j: int| 0 <= j < i ==> set@[j] != c,
        decreases set@.len() - i,
    {
        if set[i] == c {
            assert(set@[i as int] == c);
            return true;
        }
        i = i + 1;
    }
    false
}

/// An editable line held by a cursor over its graphemes.
pub struct TextEditor(pub Cursor<StyledGrapheme>);

impl Default for TextEditor {
    /// The empty editor: the space alone, with the cursor on it.
    fn default() -> (r: TextEditor)
        ensures
            r.wf(),
            r.buffer() == seq![sentinel()],
            r.pos() == 0,
    {
        let mut v: Vec<StyledGrapheme> = Vec::new();
        v.push(StyledGrapheme::plain(' '));
        TextEditor(Cursor::new(v, 0, false))
    }
}

impl TextEditor {
    /// The buffer ends with the space and the cursor lies within it.
    pub open spec fn wf(&self) -> bool {
        &&& self.0.wf()
        &&& self.0.contents@.len() > 0
        &&& self.0.contents@.last() == sentinel()
        &&& !self.0.cyclic
    }

    /// The buffer, final space included.
    pub open spec fn buffer(&self) -> Seq<StyledGrapheme> {
        self.0.contents@
    }

    /// The cursor position.
    pub open spec fn pos(&self) -> int {
        self.0.position as int
    }

    /// An editor holding `s`, with the cursor at its end.
    pub fn new(s: &str) -> (r: TextEditor)
        ensures
            r.wf(),
            r.buffer() == plain_graphemes(s@).push(sentinel()),
            r.pos() == s@.len(),
    {
        let mut g = StyledGraphemes::from(s);
        let pos = g.0.len();
        g.0.push(StyledGrapheme::plain(' '));
        TextEditor(Cursor::new(g.0, pos, false))
    }

    /// The buffer, final space included.
    pub fn text(&self) -> (r: StyledGraphemes)
        ensures
            r@ == self.buffer(),
    {
        StyledGraphemes::copy_of(&self.0.contents)
    }

    /// The buffer without the final space.
    pub fn text_without_cursor(&self) -> (r: StyledGraphemes)
        requires
            self.wf(),
        ensures
            r@ == self.buffer().drop_last(),
    {
        let mut t = StyledGraphemes::copy_of(&self.0.contents);
        t.0.pop();
        t
    }

    /// The cursor position.
    pub fn position(&self) -> (r: usize)
        ensures
            r == self.pos(),
    {
        self.0.position
    }

    /// The buffer with every grapheme but the final space shown as `mask`,
    /// all under the plain style.
    pub fn masking(&self, mask: char) -> (r: StyledGraphemes)
        requires
            self.wf(),
        ensures
            r@ == Seq::new(
                self.buffer().len(),
                |i: int|
                    if i == self.buffer().len() - 1 {
                        grapheme_of(self.buffer()[i].ch, Style::plain())
                    } else {
                        grapheme_of(mask, Style::plain())
                    },
            ),
    {
        let n = self.0.contents.len();
        let mut v: Vec<StyledGrapheme> = Vec::new();
        let mut i: usize = 0;
        while i < n
            invariant
                i <= n,
                n == self.buffer().len(),
                v@ == Seq::new(
                    i as nat,
                    |j: int|
                        if j == n - 1 {
                            grapheme_of(self.buffer()[j].ch, Style::plain())
                        } else {
                            grapheme_of(mask, Style::plain())
                        },
                ),
            decreases n - i,
        {
            let c = if i == n - 1 {
                self.0.contents[i].ch
            } else {
                mask
            };
            v.push(StyledGrapheme::plain(c));
            i = i + 1;
            assert(v@ =~= Seq::new(
                i as nat,
                |j: int|
                    if j == n - 1 {
                        grapheme_of(self.buffer()[j].ch, Style::plain())
                    } else {
                        grapheme_of(mask, Style::plain())
                    },
            ));
        }
        StyledGraphemes(v)
    }

    /// Discards the buffer and holds `new`, with the cursor at its end.
    pub fn replace(&mut self, new: &str)
        ensures
            final(self).wf(),
            final(self).buffer() == plain_graphemes(new@).push(sentinel()),
            final(self).pos() == new@.len(),
    {
        *self = TextEditor::new(new);
    }

    /// Inserts `ch` at the cursor and moves past it.
    pub fn insert(&mut self, ch: char)
        requires
            old(self).wf(),
        ensures
            final(self).wf(),
            final(self).buffer() == old(self).buffer().insert(
                old(self).pos(),
                grapheme_of(ch, Style::plain()),
            ),
            final(self).pos() == old(self).pos() + 1,
    {
        let pos = self.0.position;
        self.0.contents.insert(pos, StyledGrapheme::plain(ch));
        self.0.forward();
    }

    /// Inserts the characters one after the other.
    pub fn insert_chars(&mut self, vch: &Vec<char>)
        requires
            old(self).wf(),
        ensures
            final(self).wf(),
            final(self).buffer() == old(self).buffer().subrange(0, old(self).pos()) + plain_graphemes(
                vch@,
            ) + old(self).buffer().subrange(old(self).pos(), old(self).buffer().len() as int),
            final(self).pos() == old(self).pos() + vch@.len(),
    {
        let ghost t = self.buffer();
        let ghost p = self.pos();
        let mut k: usize = 0;
        assert(t =~= t.subrange(0, p) + plain_graphemes(vch@.subrange(0, 0)) + t.subrange(p, t.len() as int));
        while k < vch.len()
            invariant
                k <= vch@.len(),
                0 <= p < t.len(),
                self.wf(),
                self.buffer() == t.subrange(0, p) + plain_graphemes(vch@.subrange(0, k as int))
                    + t.subrange(p, t.len() as int),
                self.pos() == p + k,
            decreases vch@.len() - k,
        {
            self.insert(vch[k]);
            k = k + 1;
            assert(plain_graphemes(vch@.subrange(0, k as int)) =~= plain_graphemes(
                vch@.subrange(0, k - 1),
            ).push(grapheme_of(vch@[k - 1], Style::plain())));
            assert(self.buffer() =~= t.subrange(0, p) + plain_graphemes(vch@.subrange(0, k as int))
                + t.subrange(p, t.len() as int));
        }
        assert(vch@.subrange(0, k as int) =~= vch@);
    }

    /// Replaces the grapheme under the cursor by `ch` and moves past it; on the
    /// final space it inserts instead.
    pub fn overwrite(&mut self, ch: char)
        requires
            old(self).wf(),
        ensures
            final(self).wf(),
            final(self).buffer() == if old(self).pos() == old(self).buffer().len() - 1 {
                old(self).buffer().insert(old(self).pos(), grapheme_of(ch, Style::plain()))
            } else {
                old(self).buffer().update(old(self).pos(), grapheme_of(ch, Style::plain()))
            },
            final(self).pos() == old(self).pos() + 1,
    {
        if self.0.is_tail() {
            self.insert(ch);
        } else {
            let pos = self.0.position;
            self.0.contents.set(pos, StyledGrapheme::plain(ch));
            self.0.forward();
        }
    }

    /// Overwrites with the characters one after the other.
    pub fn overwrite_chars(&mut self, vch: &Vec<char>)
        requires
            old(self).wf(),
        ensures
            final(self).wf(),
            final(self).buffer() == old(self).buffer().subrange(0, old(self).pos()) + plain_graphemes(
                vch@,
            ) + old(self).buffer().subrange(
                if old(self).pos() + vch@.len() < old(self).buffer().len() - 1 {
                    old(self).pos() + vch@.len()
                } else {
                    old(self).buffer().len() - 1
                },
                old(self).buffer().len() as int,
            ),
            final(self).pos() == old(self).pos() + vch@.len(),
    {
        let ghost t = self.buffer();
        let ghost p = self.pos();
        let ghost n = t.len() as int;
        let mut k: usize = 0;
        assert(t =~= t.subrange(0, p) + plain_graphemes(vch@.subrange(0, 0)) + t.subrange(p, n));
        while k < vch.len()
            invariant
                k <= vch@.len(),
                self.wf(),
                t.len() == n,
                0 <= p < n,
                t.last() == sentinel(),
                self.buffer() == t.subrange(0, p) + plain_graphemes(vch@.subrange(0, k as int))
                    + t.subrange(if p + k < n - 1 { p + k } else { n - 1 }, n),
                self.pos() == p + k,
            decreases vch@.len() - k,
        {
            self.overwrite(vch[k]);
            k = k + 1;
            let ghost g = grapheme_of(vch@[k - 1], Style::plain());
            assert(plain_graphemes(vch@.subrange(0, k as int)) =~= plain_graphemes(
                vch@.subrange(0, k - 1),
            ).push(g));
            assert(self.buffer() =~= t.subrange(0, p) + plain_graphemes(vch@.subrange(0, k as int))
                + t.subrange(if p + k < n - 1 { p + k } else { n - 1 }, n));
        }
        assert(vch@.subrange(0, k as int) =~= vch@);
    }

    /// Erases the grapheme before the cursor and moves back onto its place;
    /// nothing happens at the head.
    pub fn erase(&mut self)
        requires
            old(self).wf(),
        ensures
            final(self).wf(),
            old(self).pos() == 0 ==> final(self).buffer() == old(self).buffer() && final(self).pos() == 0,
            old(self).pos() > 0 ==> final(self).buffer() == old(self).buffer().remove(old(self).pos() - 1)
                && final(self).pos() == old(self).pos() - 1,
    {
        if self.0.position != 0 {
            self.0.backward();
            let pos = self.0.position;
            self.0.contents.remove(pos);
        }
    }

    /// Clears the buffer: the space alone, with the cursor on it.
    pub fn erase_all(&mut self)
        ensures
            final(self).wf(),
            final(self).buffer() == seq![sentinel()],
            final(self).pos() == 0,
    {
        *self = TextEditor::default();
    }

    /// Erases between the cursor and `pos`, and leaves the cursor at the
    /// lower of the two.
    fn erase_to_position(&mut self, pos: usize)
        requires
            old(self).wf(),
            pos < old(self).buffer().len(),
        ensures
            final(self).wf(),
            final(self).buffer() == erased_between(old(self).buffer(), old(self).pos(), pos as int),
            final(self).pos() == if pos as int > old(self).pos() {
                old(self).pos()
            } else {
                pos as int
            },
    {
        let current = self.0.position;
        let ghost t = self.buffer();
        if pos > current {
            let mut tail = self.0.contents.split_off(pos);
            self.0.contents.truncate(current);
            self.0.contents.append(&mut tail);
        } else {
            let mut tail = self.0.contents.split_off(current);
            self.0.contents.truncate(pos);
            self.0.contents.append(&mut tail);
            self.0.position = pos;
        }
        assert(self.buffer() =~= erased_between(t, current as int, pos as int));
    }

    /// The position just after the nearest word break before the cursor, or 0.
    pub fn find_previous_nearest_index(&self, word_break_chars: &Vec<char>) -> (r: usize)
        requires
            self.wf(),
        ensures
            r == previous_break(self.buffer(), self.pos(), word_break_chars@),
            r <= self.pos(),
    {
        let t = &self.0.contents;
        let p = self.0.position;
        let mut i: usize = if p > 0 {
            p - 1
        } else {
            0
        };
        while i > 0
            invariant
                i <= p,
                p > 0 ==> i <= p - 1,
                p == self.pos(),
                t == &self.0.contents,
                self.wf(),
                forall|j: int| i <= j < p - 1 ==> !#[trigger] breaks_at(word_break_chars@, t@[j]),
            decreases i,
        {
            if contains_char(word_break_chars, t[i - 1].ch) {
                proof {
                    let w = (i - 1) as int;
                    assert(breaks_at(word_break_chars@, t@[w]));
                    let c = choose|c: int|
                        0 <= c < p - 1 && #[trigger] breaks_at(word_break_chars@, t@[c]) && forall|j: int|
                            c < j < p - 1 ==> !#[trigger] breaks_at(word_break_chars@, t@[j]);
                    if c < w {
                        assert(breaks_at(word_break_chars@, t@[w]));
                    }
                    assert(c == w);
                }
                return i;
            }
            i = i - 1;
        }
        0
    }

    /// The position just after the nearest word break after the cursor, never
    /// past the final space.
    pub fn find_next_nearest_index(&self, word_break_chars: &Vec<char>) -> (r: usize)
        requires
            self.wf(),
        ensures
            r == next_break(self.buffer(), self.pos(), word_break_chars@),
            self.pos() <= r < self.buffer().len(),
    {
        let t = &self.0.contents;
        let n = t.len();
        let p = self.0.position;
        let mut i: usize = p + 1;
        while i < n
            invariant
                p < n,
                p + 1 <= i <= n,
                n == t@.len(),
                p == self.pos(),
                t == &self.0.contents,
                forall|j: int| p < j < i ==> !#[trigger] breaks_at(word_break_chars@, t@[j]),
            decreases n - i,
        {
            if contains_char(word_break_chars, t[i].ch) {
                proof {
                    let w = i as int;
                    assert(breaks_at(word_break_chars@, t@[w]));
                    let c = choose|c: int|
                        p < c < n && #[trigger] breaks_at(word_break_chars@, t@[c]) && forall|j: int|
                            p < j < c ==> !#[trigger] breaks_at(word_break_chars@, t@[j]);
                    if c > w {
                        assert(breaks_at(word_break_chars@, t@[w]));
                    }
                    assert(c == w);
                }
                if i < n - 1 {
                    return i + 1;
                } else {
                    return n - 1;
                }
            }
            i = i + 1;
        }
        n - 1
    }

    /// Erases back to just after the nearest word break before the cursor.
    pub fn erase_to_previous_nearest(&mut self, word_break_chars: &Vec<char>)
        requires
            old(self).wf(),
        ensures
            final(self).wf(),
            final(self).buffer() == erased_between(
                old(self).buffer(),
                old(self).pos(),
                previous_break(old(self).buffer(), old(self).pos(), word_break_chars@),
            ),
            final(self).pos() == previous_break(old(self).buffer(), old(self).pos(), word_break_chars@),
    {
        let pos = self.find_previous_nearest_index(word_break_chars);
        self.erase_to_position(pos);
    }

    /// Moves to just after the nearest word break before the cursor.
    pub fn move_to_previous_nearest(&mut self, word_break_chars: &Vec<char>)
        requires
            old(self).wf(),
        ensures
            final(self).wf(),
            final(self).buffer() == old(self).buffer(),
            final(self).pos() == previous_break(old(self).buffer(), old(self).pos(), word_break_chars@),
    {
        let pos = self.find_previous_nearest_index(word_break_chars);
        self.0.move_to(pos);
    }

    /// Erases forward to just after the nearest word break after the cursor.
    pub fn erase_to_next_nearest(&mut self, word_break_chars: &Vec<char>)
        requires
            old(self).wf(),
        ensures
            final(self).wf(),
            final(self).buffer() == erased_between(
                old(self).buffer(),
                old(self).pos(),
                next_break(old(self).buffer(), old(self).pos(), word_break_chars@),
            ),
            final(self).pos() == old(self).pos(),
    {
        let pos = self.find_next_nearest_index(word_break_chars);
        self.erase_to_position(pos);
    }

    /// Moves to just after the nearest word break after the cursor.
    pub fn move_to_next_nearest(&mut self, word_break_chars: &Vec<char>)
        requires
            old(self).wf(),
        ensures
            final(self).wf(),
            final(self).buffer() == old(self).buffer(),
            final(self).pos() == next_break(old(self).buffer(), old(self).pos(), word_break_chars@),
    {
        let pos = self.find_next_nearest_index(word_break_chars);
        self.0.move_to(pos);
    }

    /// Moves to the start of the text.
    pub fn move_to_head(&mut self)
        requires
            old(self).wf(),
        ensures
            final(self).wf(),
            final(self).buffer() == old(self).buffer(),
            final(self).pos() == 0,
    {
        self.0.move_to_head();
    }

    /// Moves onto the final space.
    pub fn move_to_tail(&mut self)
        requires
            old(self).wf(),
        ensures
            final(self).wf(),
            final(self).buffer() == old(self).buffer(),
            final(self).pos() == old(self).buffer().len() - 1,
    {
        self.0.move_to_tail();
    }

    /// Moves `backward` back and then `forward` on, when the target lies
    /// within the buffer; returns whether the cursor moved.
    pub fn shift(&mut self, backward: usize, forward: usize) -> (r: bool)
        requires
            old(self).wf(),
        ensures
            final(self).wf(),
            final(self).buffer() == old(self).buffer(),
            final(self).pos() == shift_pos(
                old(self).buffer().len(),
                old(self).pos() as nat,
                backward as nat,
                forward as nat,
            ),
            r == (final(self).pos() != old(self).pos()),
    {
        self.0.shift(backward, forward)
    }

    /// Moves one grapheme back, if not at the head; returns whether it moved.
    pub fn backward(&mut self) -> (r: bool)
        requires
            old(self).wf(),
        ensures
            final(self).wf(),
            final(self).buffer() == old(self).buffer(),
            final(self).pos() == backward_pos(old(self).buffer().len(), old(self).pos() as nat, false),
            r == (final(self).pos() != old(self).pos()),
    {
        self.0.backward()
    }

    /// Moves one grapheme on, if not on the final space; returns whether it
    /// moved.
    pub fn forward(&mut self) -> (r: bool)
        requires
            old(self).wf(),
        ensures
            final(self).wf(),
            final(self).buffer() == old(self).buffer(),
            final(self).pos() == forward_pos(old(self).buffer().len(), old(self).pos() as nat, false),
            r == (final(self).pos() != old(self).pos()),
    {
        self.0.forward()
    }
}

/// Inserting a character and erasing it again gives back the buffer and the
/// cursor position as they were (this holds at every position, the head
/// included).
pub proof fn lemma_insert_then_erase(buffer: Seq<StyledGrapheme>, pos: int, c: char)
    requires
        0 <= pos < buffer.len(),
    ensures
        buffer.insert(pos, grapheme_of(c, Style::plain())).remove(pos) == buffer,
{
    assert(buffer.insert(pos, grapheme_of(c, Style::plain())).remove(pos) =~= buffer);
}

/// After `replace(s)`, the text without the final space reads `s` and the
/// cursor stands at its length.
pub proof fn lemma_replace_then_text(s: Seq<char>)
    ensures
        plain_graphemes(s).push(sentinel()).drop_last().map_values(|g: StyledGrapheme| g.ch) == s,
        plain_graphemes(s).push(sentinel()).drop_last().len() == s.len(),
{
    assert(plain_graphemes(s).push(sentinel()).drop_last() =~= plain_graphemes(s));
    assert(plain_graphemes(s).map_values(|g: StyledGrapheme| g.ch) =~= s);
}

} // verus!

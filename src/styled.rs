//! Styled grapheme sequences: Unicode-aware text where each character
//! carries its display width and its own style, with search, replacement,
//! highlighting and the wrapping and scrolling layout that every widget uses.

use crate::style::{Attribute, Style};
use crate::text::{char_width, chars_of, width_of};
use vstd::prelude::*;

verus! {

/// A character with its display width and its style.
#[derive(Clone, Copy, Debug, PartialEq, Eq, Structural)]
pub struct StyledGrapheme {
    pub ch: char,
    pub width: usize,
    pub style: Style,
}

/// The grapheme that a character becomes under a style.
pub open spec fn grapheme_of(ch: char, style: Style) -> StyledGrapheme {
    StyledGrapheme { ch, width: char_width(ch), style }
}

/// The graphemes that the characters of a string become under a style.
pub open spec fn graphemes_of(s: Seq<char>, style: Style) -> Seq<StyledGrapheme> {
    s.map_values(|c: char| grapheme_of(c, style))
}

/// The sum of the display widths of a sequence of graphemes.
pub open spec fn sum_widths(s: Seq<StyledGrapheme>) -> nat
    decreases s.len(),
{
    if s.len() == 0 {
        0
    } else {
        sum_widths(s.drop_last()) + s.last().width as nat
    }
}

impl StyledGrapheme {
    /// The grapheme of `ch` under `style`.
    pub fn new(ch: char, style: Style) -> (r: StyledGrapheme)
        ensures
            r == grapheme_of(ch, style),
    {
        StyledGrapheme { ch, width: width_of(ch), style }
    }

    /// The grapheme of `ch` under the plain style.
    pub fn plain(ch: char) -> (r: StyledGrapheme)
        ensures
            r == grapheme_of(ch, Style::plain()),
    {
        StyledGrapheme::new(ch, Style::new())
    }

    /// The character.
    pub fn ch(&self) -> (r: char)
        ensures
            r == self.ch,
    {
        self.ch
    }

    /// The display width in columns.
    pub fn width(&self) -> (r: usize)
        ensures
            r == self.width,
    {
        self.width
    }

    /// The style.
    pub fn style(&self) -> (r: Style)
        ensures
            r == self.style,
    {
        self.style
    }

    /// Replaces the style.
    pub fn apply_style(&mut self, style: Style)
        ensures
            *final(self) == (StyledGrapheme { style, ..*old(self) }),
    {
        self.style = style;
    }
}

/// An ordered sequence of styled graphemes; indices count graphemes, not bytes.
#[derive(Clone, Debug, Default, PartialEq, Eq)]
pub struct StyledGraphemes(pub Vec<StyledGrapheme>);

impl View for StyledGraphemes {
    type V = Seq<StyledGrapheme>;

    open spec fn view(&self) -> Seq<StyledGrapheme> {
        self.0@
    }
}

/// The views of a sequence of grapheme sequences.
pub open spec fn rows_view(rows: Seq<StyledGraphemes>) -> Seq<Seq<StyledGrapheme>> {
    rows.map_values(|r: StyledGraphemes| r@)
}

impl StyledGraphemes {
    /// The empty sequence.
    pub fn new() -> (r: StyledGraphemes)
        ensures
            r@ == Seq::<StyledGrapheme>::empty(),
    {
        StyledGraphemes(Vec::new())
    }

    /// A copy of this sequence.
    pub fn duplicate(&self) -> (r: StyledGraphemes)
        ensures
            r@ == self@,
    {
        StyledGraphemes::copy_of(&self.0)
    }

    /// A sequence holding copies of the graphemes of `g`.
    pub fn copy_of(g: &Vec<StyledGrapheme>) -> (r: StyledGraphemes)
        ensures
            r@ == g@,
    {
        let mut v: Vec<StyledGrapheme> = Vec::new();
        let mut i: usize = 0;
        while i < g.len()
            invariant
                i <= g@.len(),
                v@ == g@.subrange(0, i as int),
            decreases g@.len() - i,
        {
            v.push(g[i]);
            i = i + 1;
            assert(v@ =~= g@.subrange(0, i as int));
        }
        assert(v@ =~= g@);
        StyledGraphemes(v)
    }

    /// The graphemes of `string`, each under `style`.
    pub fn from_str(string: &str, style: Style) -> (r: StyledGraphemes)
        ensures
            r@ == graphemes_of(string@, style),
    {
        let cs = chars_of(string);
        let mut v: Vec<StyledGrapheme> = Vec::new();
        let mut i: usize = 0;
        while i < cs.len()
            invariant
                i <= cs@.len(),
                cs@ == string@,
                v@ == graphemes_of(cs@.subrange(0, i as int), style),
            decreases cs@.len() - i,
        {
            v.push(StyledGrapheme::new(cs[i], style));
            i = i + 1;
            assert(v@ =~= graphemes_of(cs@.subrange(0, i as int), style));
        }
        assert(cs@.subrange(0, i as int) =~= cs@);
        StyledGraphemes(v)
    }

    /// The graphemes of `string` under the plain style.
    pub fn from(string: &str) -> (r: StyledGraphemes)
        ensures
            r@ == graphemes_of(string@, Style::plain()),
    {
        StyledGraphemes::from_str(string, Style::new())
    }

    /// The number of graphemes.
    pub fn len(&self) -> (r: usize)
        ensures
            r == self@.len(),
    {
        self.0.len()
    }

    /// Whether the sequence is empty.
    pub fn is_empty(&self) -> (r: bool)
        ensures
            r == (self@.len() == 0),
    {
        self.0.len() == 0
    }

    /// The characters, in order.
    pub fn chars(&self) -> (r: Vec<char>)
        ensures
            r@ == self@.map_values(|g: StyledGrapheme| g.ch),
    {
        let mut v: Vec<char> = Vec::new();
        let mut i: usize = 0;
        while i < self.0.len()
            invariant
                i <= self@.len(),
                v@ == self@.subrange(0, i as int).map_values(|g: StyledGrapheme| g.ch),
            decreases self@.len() - i,
        {
            v.push(self.0[i].ch);
            i = i + 1;
            assert(v@ =~= self@.subrange(0, i as int).map_values(|g: StyledGrapheme| g.ch));
        }
        assert(self@.subrange(0, i as int) =~= self@);
        v
    }

    /// The characters as a string.
    pub fn to_string(&self) -> (r: String)
        ensures
            r@ == self@.map_values(|g: StyledGrapheme| g.ch),
    {
        let mut s = String::new();
        let mut i: usize = 0;
        while i < self.0.len()
            invariant
                i <= self@.len(),
                s@ == self@.subrange(0, i as int).map_values(|g: StyledGrapheme| g.ch),
            decreases self@.len() - i,
        {
            s.push(self.0[i].ch);
            i = i + 1;
            assert(s@ =~= self@.subrange(0, i as int).map_values(|g: StyledGrapheme| g.ch));
        }
        assert(self@.subrange(0, i as int) =~= self@);
        s
    }

    /// The total display width.
    pub fn widths(&self) -> (r: usize)
        requires
            sum_widths(self@) <= usize::MAX,
        ensures
            r == sum_widths(self@),
    {
        let mut total: usize = 0;
        let mut i: usize = 0;
        while i < self.0.len()
            invariant
                i <= self@.len(),
                sum_widths(self@) <= usize::MAX,
                total == sum_widths(self@.subrange(0, i as int)),
            decreases self@.len() - i,
        {
            proof {
                lemma_sum_widths_prefix(self@, i as int + 1);
                assert(self@.subrange(0, i as int + 1).drop_last() =~= self@.subrange(0, i as int));
            }
            total = total + self.0[i].width;
            i = i + 1;
        }
        assert(self@.subrange(0, i as int) =~= self@);
        total
    }
}

/// A prefix is no wider than the whole.
pub proof fn lemma_sum_widths_prefix(s: Seq<StyledGrapheme>, n: int)
    requires
        0 <= n <= s.len(),
    ensures
        sum_widths(s.subrange(0, n)) <= sum_widths(s),
    decreases s.len(),
{
    if n < s.len() {
        assert(s.drop_last().subrange(0, n) =~= s.subrange(0, n));
        lemma_sum_widths_prefix(s.drop_last(), n);
    } else {
        assert(s.subrange(0, n) =~= s);
    }
}


/// Whether the characters of `q` stand in `s` from position `p` on; an empty
/// query matches nowhere.
pub open spec fn matches_at(s: Seq<StyledGrapheme>, q: Seq<char>, p: int) -> bool {
    &&& q.len() > 0
    &&& 0 <= p
    &&& p + q.len() <= s.len()
    &&& forall|i: int| 0 <= i < q.len() ==> #[trigger] s[p + i].ch == q[i]
}

/// The positions below `n` at which `q` matches `s`, in increasing order.
pub open spec fn match_positions(s: Seq<StyledGrapheme>, q: Seq<char>, n: int) -> Seq<usize>
    decreases n,
{
    if n <= 0 {
        Seq::empty()
    } else if matches_at(s, q, n - 1) {
        match_positions(s, q, n - 1).push((n - 1) as usize)
    } else {
        match_positions(s, q, n - 1)
    }
}

/// The number of positions below `n` at which `q` matches `s`.
pub open spec fn count_matches(s: Seq<StyledGrapheme>, q: Seq<char>, n: int) -> nat
    decreases n,
{
    if n <= 0 {
        0
    } else {
        count_matches(s, q, n - 1) + if matches_at(s, q, n - 1) {
            1nat
        } else {
            0nat
        }
    }
}

/// Whether position `i` lies inside one of the matches at `starts`.
pub open spec fn covered_by(starts: Seq<usize>, qlen: nat, i: int) -> bool {
    exists|k: int| 0 <= k < starts.len() && #[trigger] starts[k] <= i < starts[k] + qlen
}

/// Whether position `i` of `s` lies inside a match of `q`.
pub open spec fn covered(s: Seq<StyledGrapheme>, q: Seq<char>, i: int) -> bool {
    exists|p: int| #[trigger] matches_at(s, q, p) && p <= i < p + q.len()
}

/// `s` with `style` on every grapheme that lies inside a match of `q`.
pub open spec fn highlighted(s: Seq<StyledGrapheme>, q: Seq<char>, style: Style) -> Seq<
    StyledGrapheme,
> {
    Seq::new(
        s.len(),
        |i: int|
            if covered(s, q, i) {
                StyledGrapheme { style, ..s[i] }
            } else {
                s[i]
            },
    )
}

/// `s` with every occurrence of `from`, taken left to right without overlap,
/// replaced by `to`.
pub open spec fn replaced(s: Seq<StyledGrapheme>, from: Seq<char>, to: Seq<StyledGrapheme>) -> Seq<
    StyledGrapheme,
>
    decreases s.len(),
{
    if s.len() == 0 || from.len() == 0 {
        s
    } else if matches_at(s, from, 0) {
        to + replaced(s.skip(from.len() as int), from, to)
    } else {
        seq![s[0]] + replaced(s.skip(1), from, to)
    }
}

/// The match positions are exactly the positions below `n` where `q` matches,
/// each once and in increasing order.
pub proof fn lemma_match_positions(s: Seq<StyledGrapheme>, q: Seq<char>, n: int)
    requires
        0 <= n <= s.len() <= usize::MAX,
    ensures
        forall|k: int|
            0 <= k < match_positions(s, q, n).len() ==> {
                let p = #[trigger] match_positions(s, q, n)[k];
                matches_at(s, q, p as int) && p < n
            },
        forall|k: int, l: int|
            0 <= k < l < match_positions(s, q, n).len() ==> match_positions(s, q, n)[k]
                < match_positions(s, q, n)[l],
        forall|p: int|
            0 <= p < n && #[trigger] matches_at(s, q, p) ==> match_positions(s, q, n).contains(
                p as usize,
            ),
        match_positions(s, q, n).len() == count_matches(s, q, n),
    decreases n,
{
    if n > 0 {
        lemma_match_positions(s, q, n - 1);
        let prev = match_positions(s, q, n - 1);
        let cur = match_positions(s, q, n);
        if matches_at(s, q, n - 1) {
            assert(cur == prev.push((n - 1) as usize));
            assert forall|k: int| 0 <= k < cur.len() implies {
                let p = #[trigger] cur[k];
                matches_at(s, q, p as int) && p < n
            } by {
                if k < prev.len() {
                    assert(cur[k] == prev[k]);
                }
            }
        }
        assert forall|p: int| 0 <= p < n && #[trigger] matches_at(s, q, p) implies cur.contains(
            p as usize,
        ) by {
            if p < n - 1 {
                let k = choose|k: int| 0 <= k < prev.len() && prev[k] == p as usize;
                assert(cur[k] == prev[k]);
            } else {
                assert(cur[cur.len() - 1] == p as usize);
            }
        }
    }
}

/// Whether the characters of `s` from `p` on read `q`.
pub open spec fn occurs_at(s: Seq<StyledGrapheme>, q: Seq<char>, p: int) -> bool {
    0 <= p && p + q.len() <= s.len() && s.subrange(p, p + q.len()).map_values(
        |g: StyledGrapheme| g.ch,
    ) == q
}

/// The number of positions below `n` at which `q` occurs in `s`.
pub open spec fn count_occurrences(s: Seq<StyledGrapheme>, q: Seq<char>, n: int) -> nat
    decreases n,
{
    if n <= 0 {
        0
    } else {
        count_occurrences(s, q, n - 1) + if occurs_at(s, q, n - 1) {
            1nat
        } else {
            0nat
        }
    }
}

/// For a non-empty query, `find_all` gives one position for each place where
/// the query occurs in the sequence.
pub proof fn lemma_find_all_counts(s: Seq<StyledGrapheme>, q: Seq<char>)
    requires
        q.len() > 0,
        s.len() <= usize::MAX,
    ensures
        match_positions(s, q, s.len() as int).len() == count_occurrences(s, q, s.len() as int),
{
    lemma_match_positions(s, q, s.len() as int);
    lemma_counts_agree(s, q, s.len() as int);
}

proof fn lemma_counts_agree(s: Seq<StyledGrapheme>, q: Seq<char>, n: int)
    requires
        q.len() > 0,
    ensures
        count_matches(s, q, n) == count_occurrences(s, q, n),
    decreases n,
{
    if n > 0 {
        lemma_counts_agree(s, q, n - 1);
        let p = n - 1;
        if p + q.len() <= s.len() {
            let sub = s.subrange(p, p + q.len()).map_values(|g: StyledGrapheme| g.ch);
            if matches_at(s, q, p) {
                assert forall|i: int| 0 <= i < q.len() implies sub[i] == q[i] by {
                    assert(s[p + i].ch == q[i]);
                }
                assert(sub =~= q);
            }
            if sub == q {
                assert forall|i: int| 0 <= i < q.len() implies #[trigger] s[p + i].ch == q[i] by {
                    assert(sub[i] == s[p + i].ch);
                }
            }
        }
    }
}

impl StyledGraphemes {
    /// Every position at which the characters of `query` stand contiguously,
    /// overlapping matches included, in increasing order; none for an empty
    /// query.
    pub fn find_all(&self, query: &str) -> (r: Vec<usize>)
        ensures
            r@ == match_positions(self@, query@, self@.len() as int),
    {
        let q = chars_of(query);
        let qlen = q.len();
        let len = self.0.len();
        let mut indices: Vec<usize> = Vec::new();
        let mut pos: usize = 0;
        while pos < len
            invariant
                pos <= len,
                len == self@.len(),
                q@ == query@,
                qlen == q@.len(),
                indices@ == match_positions(self@, query@, pos as int),
            decreases len - pos,
        {
            let mut found = qlen > 0 && qlen <= len - pos;
            if found {
                let mut i: usize = 0;
                while i < qlen
                    invariant
                        0 < qlen <= len - pos,
                        i <= qlen,
                        len == self@.len(),
                        q@ == query@,
                        qlen == q@.len(),
                        found == forall|j: int| 0 <= j < i ==> #[trigger] self@[pos + j].ch == q@[j],
                    decreases qlen - i,
                {
                    let same = self.0[pos + i].ch == q[i];
                    proof {
                        if found && same {
                            assert forall|j: int| 0 <= j < i + 1 implies #[trigger] self@[pos + j].ch
                                == q@[j] by {
                                if j == i as int {
                                } else {
                                }
                            }
                        }
                        if !same {
                            assert(self@[pos + i as int].ch != q@[i as int]);
                        }
                    }
                    found = found && same;
                    i = i + 1;
                }
            }
            assert(found == matches_at(self@, query@, pos as int));
            if found {
                indices.push(pos);
            }
            pos = pos + 1;
        }
        indices
    }
}


impl StyledGraphemes {
    /// A copy with `style` on every grapheme inside a match of `query`;
    /// `None` when a non-empty query matches nowhere, and the sequence as it
    /// is for an empty query.
    pub fn highlight(self, query: &str, style: Style) -> (r: Option<StyledGraphemes>)
        ensures
            query@.len() == 0 ==> (r matches Some(h) && h@ == self@),
            query@.len() > 0 && count_matches(self@, query@, self@.len() as int) == 0 ==> r is None,
            query@.len() > 0 && count_matches(self@, query@, self@.len() as int) > 0 ==> (r matches Some(
                h,
            ) && h@ == highlighted(self@, query@, style)),
    {
        let q = chars_of(query);
        let qlen = q.len();
        if qlen == 0 {
            return Some(self);
        }
        let indices = self.find_all(query);
        let n = self.0.len();
        proof {
            lemma_match_positions(self@, query@, self@.len() as int);
        }
        if indices.len() == 0 {
            return None;
        }
        let ghost orig = self@;
        let mut v = self.0;
        let mut k: usize = 0;
        while k < indices.len()
            invariant
                k <= indices@.len(),
                qlen == query@.len(),
                orig.len() == n,
                indices@ == match_positions(orig, query@, orig.len() as int),
                forall|j: int|
                    0 <= j < indices@.len() ==> matches_at(orig, query@, #[trigger] indices@[j] as int),
                v@.len() == orig.len(),
                forall|i: int|
                    0 <= i < orig.len() ==> #[trigger] v@[i] == if covered_by(
                        indices@.subrange(0, k as int),
                        qlen as nat,
                        i,
                    ) {
                        StyledGrapheme { style, ..orig[i] }
                    } else {
                        orig[i]
                    },
            decreases indices@.len() - k,
        {
            let start = indices[k];
            assert(matches_at(orig, query@, indices@[k as int] as int));
            let mut i: usize = start;
            while i < start + qlen
                invariant
                    start + qlen <= orig.len(),
                    orig.len() == n,
                    start <= i <= start + qlen,
                    k < indices@.len(),
                    start == indices@[k as int],
                    v@.len() == orig.len(),
                    forall|j: int|
                        0 <= j < orig.len() ==> #[trigger] v@[j] == if covered_by(
                            indices@.subrange(0, k as int),
                            qlen as nat,
                            j,
                        ) || (start <= j < i) {
                            StyledGrapheme { style, ..orig[j] }
                        } else {
                            orig[j]
                        },
                decreases start + qlen - i,
            {
                let mut g = v[i];
                g.style = style;
                v.set(i, g);
                i = i + 1;
            }
            proof {
                let pre = indices@.subrange(0, k as int);
                let post = indices@.subrange(0, k as int + 1);
                assert forall|j: int| 0 <= j < orig.len() implies covered_by(post, qlen as nat, j) == (
                covered_by(pre, qlen as nat, j) || (start <= j < start + qlen)) by {
                    if covered_by(pre, qlen as nat, j) {
                        let w = choose|w: int| 0 <= w < pre.len() && #[trigger] pre[w] <= j < pre[w] + qlen;
                        assert(post[w] == pre[w]);
                    }
                    if start <= j < start + qlen {
                        assert(post[k as int] == start);
                    }
                    if covered_by(post, qlen as nat, j) {
                        let w = choose|w: int| 0 <= w < post.len() && #[trigger] post[w] <= j < post[w] + qlen;
                        if w < k {
                            assert(pre[w] == post[w]);
                        }
                    }
                }
            }
            k = k + 1;
        }
        proof {
            assert(indices@.subrange(0, k as int) =~= indices@);
            assert forall|i: int| 0 <= i < orig.len() implies covered_by(indices@, qlen as nat, i) == covered(
                orig,
                query@,
                i,
            ) by {
                if covered_by(indices@, qlen as nat, i) {
                    let w = choose|w: int| 0 <= w < indices@.len() && #[trigger] indices@[w] <= i < indices@[w] + qlen;
                    assert(matches_at(orig, query@, indices@[w] as int));
                }
                if covered(orig, query@, i) {
                    let p = choose|p: int| #[trigger] matches_at(orig, query@, p) && p <= i < p + query@.len();
                    assert(indices@.contains(p as usize));
                    let w = choose|w: int| 0 <= w < indices@.len() && indices@[w] == p as usize;
                    assert(indices@[w] <= i < indices@[w] + qlen);
                }
            }
            assert(v@ =~= highlighted(orig, query@, style));
        }
        Some(StyledGraphemes(v))
    }

    /// Replaces every occurrence of `from`, taken left to right without
    /// overlap, by the graphemes of `to` under the plain style; an empty `from`
    /// changes nothing.
    pub fn replace(self, from: &str, to: &str) -> (r: StyledGraphemes)
        ensures
            r@ == replaced(self@, from@, graphemes_of(to@, Style::plain())),
    {
        let f = chars_of(from);
        let flen = f.len();
        let t = StyledGraphemes::from(to);
        let ghost tg = graphemes_of(to@, Style::plain());
        let len = self.0.len();
        let mut out: Vec<StyledGrapheme> = Vec::new();
        let mut i: usize = 0;
        assert(self@.skip(0) =~= self@);
        while i < len
            invariant
                i <= len,
                len == self@.len(),
                f@ == from@,
                flen == f@.len(),
                t@ == tg,
                out@ + replaced(self@.skip(i as int), from@, tg) == replaced(self@, from@, tg),
            decreases len - i,
        {
            let ghost rest = self@.skip(i as int);
            let mut found = flen > 0 && flen <= len - i;
            if found {
                let mut j: usize = 0;
                while j < flen
                    invariant
                        0 < flen <= len - i,
                        j <= flen,
                        len == self@.len(),
                        f@ == from@,
                        flen == f@.len(),
                        found == forall|m: int| 0 <= m < j ==> #[trigger] self@[i + m].ch == f@[m],
                    decreases flen - j,
                {
                    let same = self.0[i + j].ch == f[j];
                    proof {
                        if found && same {
                            assert forall|m: int| 0 <= m < j + 1 implies #[trigger] self@[i + m].ch
                                == f@[m] by {
                                if m == j as int {
                                } else {
                                }
                            }
                        }
                        if !same {
                            assert(self@[i + j as int].ch != f@[j as int]);
                        }
                    }
                    found = found && same;
                    j = j + 1;
                }
            }
            proof {
                if found {
                    assert forall|m: int| 0 <= m < from@.len() implies #[trigger] rest[0 + m].ch
                        == from@[m] by {
                        assert(rest[0 + m] == self@[i + m]);
                    }
                } else if flen > 0 && flen <= len - i {
                    if matches_at(rest, from@, 0) {
                        assert forall|m: int| 0 <= m < flen implies #[trigger] self@[i + m].ch
                            == f@[m] by {
                            assert(rest[0 + m] == self@[i + m]);
                        }
                    }
                }
                assert(found == matches_at(rest, from@, 0));
            }
            if found {
                let mut k: usize = 0;
                let ghost out0 = out@;
                while k < t.0.len()
                    invariant
                        k <= t@.len(),
                        out@ == out0 + t@.subrange(0, k as int),
                    decreases t@.len() - k,
                {
                    out.push(t.0[k]);
                    k = k + 1;
                    assert(out@ =~= out0 + t@.subrange(0, k as int));
                }
                proof {
                    assert(t@.subrange(0, k as int) =~= t@);
                    assert(rest.skip(flen as int) =~= self@.skip(i + flen));
                    assert(out@ + replaced(self@.skip(i + flen), from@, tg) =~= out0 + replaced(
                        rest,
                        from@,
                        tg,
                    ));
                }
                i = i + flen;
            } else {
                let ghost out0 = out@;
                out.push(self.0[i]);
                proof {
                    assert(rest.skip(1) =~= self@.skip(i + 1));
                    if flen == 0 {
                        assert(replaced(rest, from@, tg) == rest);
                        assert(replaced(rest.skip(1), from@, tg) == rest.skip(1));
                        assert(rest =~= seq![rest[0]] + rest.skip(1));
                    }
                    assert(out@ + replaced(self@.skip(i + 1), from@, tg) =~= out0 + replaced(
                        rest,
                        from@,
                        tg,
                    ));
                }
                i = i + 1;
            }
        }
        assert(replaced(self@.skip(i as int), from@, tg) == Seq::<StyledGrapheme>::empty());
        assert(out@ =~= replaced(self@, from@, tg));
        StyledGraphemes(out)
    }

    /// Removes the graphemes at positions `range.start .. range.end` and puts
    /// the graphemes of `replacement`, under the plain style, in their place.
    pub fn replace_range(&mut self, range: std::ops::Range<usize>, replacement: &str)
        requires
            range.start <= range.end <= old(self)@.len(),
        ensures
            final(self)@ == old(self)@.subrange(0, range.start as int) + graphemes_of(
                replacement@,
                Style::plain(),
            ) + old(self)@.subrange(range.end as int, old(self)@.len() as int),
    {
        let t = StyledGraphemes::from(replacement);
        let mut tail = self.0.split_off(range.end);
        self.0.truncate(range.start);
        let mut k: usize = 0;
        let ghost head = self@;
        while k < t.0.len()
            invariant
                k <= t@.len(),
                self@ == head + t@.subrange(0, k as int),
            decreases t@.len() - k,
        {
            self.0.push(t.0[k]);
            k = k + 1;
            assert(self@ =~= head + t@.subrange(0, k as int));
        }
        assert(t@.subrange(0, k as int) =~= t@);
        self.0.append(&mut tail);
    }

    /// Every grapheme under `style`.
    pub fn apply_style(self, style: Style) -> (r: StyledGraphemes)
        ensures
            r@ == self@.map_values(|g: StyledGrapheme| StyledGrapheme { style, ..g }),
    {
        let mut v = self.0;
        let ghost orig = v@;
        let mut i: usize = 0;
        while i < v.len()
            invariant
                i <= v@.len(),
                v@.len() == orig.len(),
                forall|j: int|
                    0 <= j < orig.len() ==> #[trigger] v@[j] == if j < i {
                        StyledGrapheme { style, ..orig[j] }
                    } else {
                        orig[j]
                    },
            decreases v@.len() - i,
        {
            let mut g = v[i];
            g.style = style;
            v.set(i, g);
            i = i + 1;
        }
        assert(v@ =~= orig.map_values(|g: StyledGrapheme| StyledGrapheme { style, ..g }));
        StyledGraphemes(v)
    }

    /// The grapheme at `idx` under `style`; nothing changes when `idx` is out
    /// of range.
    pub fn apply_style_at(self, idx: usize, style: Style) -> (r: StyledGraphemes)
        ensures
            idx < self@.len() ==> r@ == self@.update(
                idx as int,
                StyledGrapheme { style, ..self@[idx as int] },
            ),
            idx >= self@.len() ==> r@ == self@,
    {
        let mut v = self.0;
        if idx < v.len() {
            let mut g = v[idx];
            g.style = style;
            v.set(idx, g);
        }
        StyledGraphemes(v)
    }

    /// Every grapheme with `attr` added to its style's attributes.
    pub fn apply_attribute(self, attr: Attribute) -> (r: StyledGraphemes)
        ensures
            r@ == self@.map_values(
                |g: StyledGrapheme| StyledGrapheme { style: g.style.with_attribute(attr), ..g },
            ),
    {
        let mut v = self.0;
        let ghost orig = v@;
        let mut i: usize = 0;
        while i < v.len()
            invariant
                i <= v@.len(),
                v@.len() == orig.len(),
                forall|j: int|
                    0 <= j < orig.len() ==> #[trigger] v@[j] == if j < i {
                        StyledGrapheme { style: orig[j].style.with_attribute(attr), ..orig[j] }
                    } else {
                        orig[j]
                    },
            decreases v@.len() - i,
        {
            let mut g = v[i];
            g.style.attributes.set(attr);
            v.set(i, g);
            i = i + 1;
        }
        assert(v@ =~= orig.map_values(
            |g: StyledGrapheme| StyledGrapheme { style: g.style.with_attribute(attr), ..g },
        ));
        StyledGraphemes(v)
    }
}

} // verus!

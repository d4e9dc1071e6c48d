//! A readline prompt: an editor with history and completion, driven by key
//! bindings that map terminal events to editing actions.

use crate::cursor::{backward_pos, forward_pos, Cursor};
use crate::event::{Event, KeyCode, KeyEvent, KeyModifiers, CONTROL, NONE};
use crate::style::Style;
use crate::styled::{grapheme_of, StyledGrapheme};
use crate::text::chars_of;
use crate::text_editor::{Mode, TextEditor};
use vstd::prelude::*;

verus! {

/// Whether `p` is a prefix of `s`.
pub open spec fn starts_with(s: Seq<char>, p: Seq<char>) -> bool {
    p.len() <= s.len() && s.take(p.len() as int) == p
}

/// Whether `a` comes no later than `b` in the order of their characters.
pub open spec fn lex_le(a: Seq<char>, b: Seq<char>) -> bool
    decreases a.len(),
{
    if a.len() == 0 {
        true
    } else if b.len() == 0 {
        false
    } else if a[0] != b[0] {
        (a[0] as u32) < (b[0] as u32)
    } else {
        lex_le(a.skip(1), b.skip(1))
    }
}

proof fn lemma_lex_total(a: Seq<char>, b: Seq<char>)
    ensures
        lex_le(a, b) || lex_le(b, a),
    decreases a.len(),
{
    if a.len() > 0 && b.len() > 0 {
        if a[0] == b[0] {
            lemma_lex_total(a.skip(1), b.skip(1));
        } else {
            lemma_char_u32_injective(a[0], b[0]);
        }
    }
}

proof fn lemma_char_u32_injective(a: char, b: char)
    requires
        a != b,
    ensures
        a as u32 != b as u32,
{
    vstd::utf8::char_u32_cast(a, a as u32);
    vstd::utf8::char_u32_cast(b, b as u32);
}

proof fn lemma_lex_refl(a: Seq<char>)
    ensures
        lex_le(a, a),
    decreases a.len(),
{
    if a.len() > 0 {
        lemma_lex_refl(a.skip(1));
    }
}

proof fn lemma_lex_trans(a: Seq<char>, b: Seq<char>, c: Seq<char>)
    requires
        lex_le(a, b),
        lex_le(b, c),
    ensures
        lex_le(a, c),
    decreases a.len(),
{
    if a.len() > 0 && b.len() > 0 && c.len() > 0 {
        if a[0] == b[0] && b[0] == c[0] {
            lemma_lex_trans(a.skip(1), b.skip(1), c.skip(1));
        } else if a[0] != b[0] && b[0] != c[0] && a[0] == c[0] {
            lemma_char_u32_injective(a[0], b[0]);
        }
    }
}

fn lex_le_exec(a: &Vec<char>, b: &Vec<char>) -> (r: bool)
    ensures
        r == lex_le(a@, b@),
{
    let mut i: usize = 0;
    assert(a@.skip(0) =~= a@ && b@.skip(0) =~= b@);
    while i < a.len() && i < b.len() && a[i] == b[i]
        invariant
            i <= a@.len(),
            i <= b@.len(),
            lex_le(a@, b@) == lex_le(a@.skip(i as int), b@.skip(i as int)),
        decreases a@.len() - i,
    {
        assert(a@.skip(i as int).skip(1) =~= a@.skip(i + 1));
        assert(b@.skip(i as int).skip(1) =~= b@.skip(i + 1));
        i = i + 1;
    }
    assert(a@.skip(0) =~= a@ && b@.skip(0) =~= b@);
    if i == a.len() {
        true
    } else if i == b.len() {
        false
    } else {
        (a[i] as u32) < (b[i] as u32)
    }
}

fn starts_with_exec(s: &Vec<char>, p: &Vec<char>) -> (r: bool)
    ensures
        r == starts_with(s@, p@),
{
    if p.len() > s.len() {
        return false;
    }
    let mut i: usize = 0;
    while i < p.len()
        invariant
            p@.len() <= s@.len(),
            i <= p@.len(),
            forall|j: int| 0 <= j < i ==> s@[j] == p@[j],
        decreases p@.len() - i,
    {
        if s[i] != p[i] {
            assert(s@.take(p@.len() as int)[i as int] != p@[i as int]);
            return false;
        }
        i = i + 1;
    }
    assert(s@.take(p@.len() as int) =~= p@);
    true
}

/// Candidates for completion.
pub struct Suggest {
    pub candidates: Vec<String>,
}

impl Suggest {
    /// The candidates.
    pub fn new(candidates: Vec<String>) -> (r: Suggest)
        ensures
            r.candidates@ == candidates@,
    {
        Suggest { candidates }
    }

    /// The first candidate, in the order of characters, that starts with
    /// `prefix`; none when no candidate does.
    pub fn search(&self, prefix: &str) -> (r: Option<String>)
        ensures
            r is None <==> forall|i: int|
                0 <= i < self.candidates@.len() ==> !starts_with(
                    #[trigger] self.candidates@[i]@,
                    prefix@,
                ),
            r matches Some(s) ==> starts_with(s@, prefix@) && (exists|i: int|
                0 <= i < self.candidates@.len() && #[trigger] self.candidates@[i]@ == s@) && forall|
                i: int,
            |
                0 <= i < self.candidates@.len() && starts_with(#[trigger] self.candidates@[i]@, prefix@)
                    ==> lex_le(s@, self.candidates@[i]@),
    {
        let p = chars_of(prefix);
        let mut best: Option<usize> = None;
        let mut best_chars: Vec<char> = Vec::new();
        let mut i: usize = 0;
        while i < self.candidates.len()
            invariant
                i <= self.candidates@.len(),
                p@ == prefix@,
                best is None ==> forall|j: int|
                    0 <= j < i ==> !starts_with(#[trigger] self.candidates@[j]@, prefix@),
                best matches Some(b) ==> b < i && best_chars@ == self.candidates@[b as int]@
                    && starts_with(best_chars@, prefix@) && forall|j: int|
                    0 <= j < i && starts_with(#[trigger] self.candidates@[j]@, prefix@) ==> lex_le(
                        best_chars@,
                        self.candidates@[j]@,
                    ),
            decreases self.candidates@.len() - i,
        {
            let c = chars_of(self.candidates[i].as_str());
            if starts_with_exec(&c, &p) {
                let better = match best {
                    None => true,
                    Some(_) => !lex_le_exec(&best_chars, &c),
                };
                if better {
                    proof {
                        lemma_lex_refl(c@);
                        if best is Some {
                            lemma_lex_total(best_chars@, c@);
                            assert forall|j: int|
                                0 <= j < i && starts_with(#[trigger] self.candidates@[j]@, prefix@)
                                    implies lex_le(c@, self.candidates@[j]@) by {
                                lemma_lex_trans(c@, best_chars@, self.candidates@[j]@);
                            }
                        }
                    }
                    best = Some(i);
                    best_chars = c;
                }
            }
            i = i + 1;
        }
        match best {
            Some(b) => {
                let s = self.candidates[b].clone();
                Some(s)
            },
            None => None,
        }
    }
}

/// Lines entered before, and the line being typed, with a cursor over them.
pub struct History {
    pub cursor: Cursor<String>,
}

impl History {
    /// Holds an empty line, typed last.
    pub open spec fn wf(&self) -> bool {
        &&& self.cursor.wf()
        &&& !self.cursor.cyclic
        &&& self.cursor.contents@.len() > 0
        &&& self.cursor.contents@.last()@.len() == 0
    }

    /// No entry yet.
    pub fn new() -> (r: History)
        ensures
            r.wf(),
            r.cursor.contents@.len() == 1,
            r.cursor.position == 0,
    {
        let mut v: Vec<String> = Vec::new();
        v.push(String::new());
        History { cursor: Cursor::new(v, 0, false) }
    }

    /// Adds `item` as the latest entry, when it is not empty, and moves to the
    /// line being typed.
    pub fn insert(&mut self, item: &str)
        requires
            old(self).wf(),
        ensures
            final(self).wf(),
            item@.len() == 0 ==> final(self).cursor.contents@ == old(self).cursor.contents@,
            item@.len() > 0 ==> final(self).cursor.contents@.len() == old(self).cursor.contents@.len() + 1
                && final(self).cursor.contents@[old(self).cursor.contents@.len() - 1]@ == item@
                && forall|i: int|
                0 <= i < old(self).cursor.contents@.len() - 1 ==> #[trigger] final(self).cursor.contents@[i]
                    == old(self).cursor.contents@[i],
            final(self).cursor.position == final(self).cursor.contents@.len() - 1,
    {
        if chars_of(item).len() > 0 {
            let n = self.cursor.contents.len();
            let ghost before = self.cursor.contents@;
            self.cursor.contents.insert(n - 1, item.to_owned());
            assert(self.cursor.contents@ == before.insert(n - 1, self.cursor.contents@[n - 1]));
            assert(self.cursor.contents@.last() == before.last());
        }
        self.cursor.move_to_tail();
    }

    /// Moves to the previous entry; false at the first.
    pub fn backward(&mut self) -> (r: bool)
        requires
            old(self).wf(),
        ensures
            final(self).wf(),
            final(self).cursor.contents == old(self).cursor.contents,
            final(self).cursor.position == backward_pos(
                old(self).cursor.contents@.len(),
                old(self).cursor.position as nat,
                false,
            ),
            r == (final(self).cursor.position != old(self).cursor.position),
    {
        self.cursor.backward()
    }

    /// Moves to the next entry; false at the line being typed.
    pub fn forward(&mut self) -> (r: bool)
        requires
            old(self).wf(),
        ensures
            final(self).wf(),
            final(self).cursor.contents == old(self).cursor.contents,
            final(self).cursor.position == forward_pos(
                old(self).cursor.contents@.len(),
                old(self).cursor.position as nat,
                false,
            ),
            r == (final(self).cursor.position != old(self).cursor.position),
    {
        self.cursor.forward()
    }

    /// The entry under the cursor.
    pub fn get(&self) -> (r: String)
        requires
            self.wf(),
        ensures
            r@ == self.cursor.contents@[self.cursor.position as int]@,
    {
        self.cursor.contents[self.cursor.position].clone()
    }
}

/// What a key binding does to a readline prompt.
#[derive(Clone, Copy, Debug, PartialEq, Eq, Structural)]
pub enum Action {
    Enter,
    Interrupt,
    MoveLeft,
    MoveRight,
    MoveHead,
    MoveTail,
    PrevHistory,
    NextHistory,
    EraseChar,
    EraseAll,
    Complete,
}

/// What the prompt does after an event: go on, finish with the result, or
/// give up.
#[derive(Clone, Copy, Debug, PartialEq, Eq, Structural)]
pub enum Signal {
    Continue,
    Quit,
    Cancel,
}

/// The action bound to `ev`: the first binding of it.
pub open spec fn lookup(m: Seq<(KeyEvent, Action)>, ev: KeyEvent) -> Option<Action>
    decreases m.len(),
{
    if m.len() == 0 {
        None
    } else if m[0].0 == ev {
        Some(m[0].1)
    } else {
        lookup(m.skip(1), ev)
    }
}

/// Key bindings: events and the actions bound to them.
pub struct KeyBind {
    pub event_mapping: Vec<(KeyEvent, Action)>,
}

/// A key press with no modifier.
pub open spec fn plain_key(code: KeyCode) -> KeyEvent {
    KeyEvent { code, modifiers: KeyModifiers(0) }
}

/// A key press with the control key.
pub open spec fn control_key(c: char) -> KeyEvent {
    KeyEvent { code: KeyCode::Char(c), modifiers: KeyModifiers(2) }
}

impl Default for KeyBind {
    /// The readline bindings: Enter finishes, Ctrl-C gives up, the arrows
    /// move and walk the history, Ctrl-A and Ctrl-E go to the ends,
    /// Backspace and Ctrl-U erase, Tab completes.
    fn default() -> (r: KeyBind)
        ensures
            lookup(r.event_mapping@, plain_key(KeyCode::Enter)) == Some(Action::Enter),
            lookup(r.event_mapping@, control_key('c')) == Some(Action::Interrupt),
            lookup(r.event_mapping@, plain_key(KeyCode::Left)) == Some(Action::MoveLeft),
            lookup(r.event_mapping@, plain_key(KeyCode::Right)) == Some(Action::MoveRight),
            lookup(r.event_mapping@, control_key('a')) == Some(Action::MoveHead),
            lookup(r.event_mapping@, control_key('e')) == Some(Action::MoveTail),
            lookup(r.event_mapping@, plain_key(KeyCode::Up)) == Some(Action::PrevHistory),
            lookup(r.event_mapping@, plain_key(KeyCode::Down)) == Some(Action::NextHistory),
            lookup(r.event_mapping@, plain_key(KeyCode::Backspace)) == Some(Action::EraseChar),
            lookup(r.event_mapping@, control_key('u')) == Some(Action::EraseAll),
            lookup(r.event_mapping@, plain_key(KeyCode::Tab)) == Some(Action::Complete),
            r.event_mapping@.len() == 11,
    {
        let none = KeyModifiers(NONE);
        let control = KeyModifiers(CONTROL);
        let mut b = KeyBind { event_mapping: Vec::new() };
        b.event_mapping.push((KeyEvent::new(KeyCode::Enter, none), Action::Enter));
        b.event_mapping.push((KeyEvent::new(KeyCode::Char('c'), control), Action::Interrupt));
        b.event_mapping.push((KeyEvent::new(KeyCode::Left, none), Action::MoveLeft));
        b.event_mapping.push((KeyEvent::new(KeyCode::Right, none), Action::MoveRight));
        b.event_mapping.push((KeyEvent::new(KeyCode::Char('a'), control), Action::MoveHead));
        b.event_mapping.push((KeyEvent::new(KeyCode::Char('e'), control), Action::MoveTail));
        b.event_mapping.push((KeyEvent::new(KeyCode::Up, none), Action::PrevHistory));
        b.event_mapping.push((KeyEvent::new(KeyCode::Down, none), Action::NextHistory));
        b.event_mapping.push((KeyEvent::new(KeyCode::Backspace, none), Action::EraseChar));
        b.event_mapping.push((KeyEvent::new(KeyCode::Char('u'), control), Action::EraseAll));
        b.event_mapping.push((KeyEvent::new(KeyCode::Tab, none), Action::Complete));
        proof {
            let m = b.event_mapping@;
            reveal_with_fuel(lookup, 12);
        }
        b
    }
}

impl KeyBind {
    /// No binding.
    pub fn new() -> (r: KeyBind)
        ensures
            r.event_mapping@.len() == 0,
    {
        KeyBind { event_mapping: Vec::new() }
    }

    /// Binds `action` to `ev`, in place of any earlier binding of it.
    pub fn assign(&mut self, ev: KeyEvent, action: Action)
        ensures
            lookup(final(self).event_mapping@, ev) == Some(action),
            forall|e: KeyEvent|
                e != ev ==> #[trigger] lookup(final(self).event_mapping@, e) == lookup(
                    old(self).event_mapping@,
                    e,
                ),
    {
        let ghost before = self.event_mapping@;
        self.event_mapping.insert(0, (ev, action));
        assert(self.event_mapping@.skip(1) =~= before);
    }

    /// The action bound to `ev`, if any.
    pub fn handle(&self, ev: &KeyEvent) -> (r: Option<Action>)
        ensures
            r == lookup(self.event_mapping@, *ev),
    {
        let mut i: usize = 0;
        assert(self.event_mapping@.skip(0) =~= self.event_mapping@);
        while i < self.event_mapping.len()
            invariant
                i <= self.event_mapping@.len(),
                lookup(self.event_mapping@, *ev) == lookup(self.event_mapping@.skip(i as int), *ev),
            decreases self.event_mapping@.len() - i,
        {
            assert(self.event_mapping@.skip(i as int).skip(1) =~= self.event_mapping@.skip(i + 1));
            if self.event_mapping[i].0 == *ev {
                return Some(self.event_mapping[i].1);
            }
            i = i + 1;
        }
        None
    }
}

/// The state of a readline prompt.
pub struct Readline {
    pub editor: TextEditor,
    pub edit_mode: Mode,
    pub history: History,
    pub suggest: Suggest,
}

impl Readline {
    /// The editor and the history are well formed.
    pub open spec fn wf(&self) -> bool {
        self.editor.wf() && self.history.wf()
    }
}

/// The text of an editor, without its final space.
pub open spec fn typed_text(editor: TextEditor) -> Seq<char> {
    editor.buffer().drop_last().map_values(|g: StyledGrapheme| g.ch)
}

/// Whether `n` holds the editor of `o` as it was, with the cursor moved to `pos`.
pub open spec fn moved_to(o: Readline, n: Readline, pos: int) -> bool {
    &&& n.editor.buffer() == o.editor.buffer()
    &&& n.editor.pos() == pos
    &&& n.history == o.history
}

/// Whether the editor of `n` holds `s`, with the cursor at its end.
pub open spec fn holds_line(n: Readline, s: Seq<char>) -> bool {
    &&& n.editor.buffer() == s.map_values(|c: char| grapheme_of(c, Style::plain())).push(
        grapheme_of(' ', Style::plain()),
    )
    &&& n.editor.pos() == s.len()
}

/// Whether `n` and `signal` are what `action` makes of `o`.
pub open spec fn applied(o: Readline, n: Readline, action: Action, signal: Signal) -> bool {
    &&& n.wf()
    &&& n.edit_mode == o.edit_mode
    &&& n.suggest == o.suggest
    &&& signal == match action {
        Action::Enter => Signal::Quit,
        Action::Interrupt => Signal::Cancel,
        _ => Signal::Continue,
    }
    &&& match action {
        Action::Enter | Action::Interrupt => n == o,
        Action::MoveLeft => moved_to(o, n, backward_pos(o.editor.buffer().len(), o.editor.pos() as nat, false) as int),
        Action::MoveRight => moved_to(o, n, forward_pos(o.editor.buffer().len(), o.editor.pos() as nat, false) as int),
        Action::MoveHead => moved_to(o, n, 0),
        Action::MoveTail => moved_to(o, n, o.editor.buffer().len() - 1),
        Action::EraseChar => n.history == o.history && if o.editor.pos() == 0 {
            n.editor.buffer() == o.editor.buffer() && n.editor.pos() == 0
        } else {
            n.editor.buffer() == o.editor.buffer().remove(o.editor.pos() - 1) && n.editor.pos()
                == o.editor.pos() - 1
        },
        Action::EraseAll => n.history == o.history && holds_line(n, Seq::empty()),
        Action::PrevHistory | Action::NextHistory => {
            let len = o.history.cursor.contents@.len();
            let p = o.history.cursor.position as nat;
            let q = if action is PrevHistory {
                backward_pos(len, p, false)
            } else {
                forward_pos(len, p, false)
            };
            &&& n.history.cursor.contents == o.history.cursor.contents
            &&& n.history.cursor.position == q
            &&& if q != p {
                holds_line(n, o.history.cursor.contents@[q as int]@)
            } else {
                n.editor == o.editor
            }
        },
        Action::Complete => {
            let t = typed_text(o.editor);
            let cands = o.suggest.candidates@;
            &&& n.history == o.history
            &&& if forall|i: int| 0 <= i < cands.len() ==> !starts_with(#[trigger] cands[i]@, t) {
                n.editor == o.editor
            } else {
                exists|i: int|
                    0 <= i < cands.len() && starts_with(#[trigger] cands[i]@, t) && holds_line(
                        n,
                        cands[i]@,
                    ) && forall|j: int|
                        0 <= j < cands.len() && starts_with(#[trigger] cands[j]@, t) ==> lex_le(
                            cands[i]@,
                            cands[j]@,
                        )
            }
        },
    }
}

/// Performs `action` on the prompt.
pub fn apply(readline: &mut Readline, action: Action) -> (r: Signal)
    requires
        old(readline).wf(),
    ensures
        applied(*old(readline), *final(readline), action, r),
{
    match action {
        Action::Enter => Signal::Quit,
        Action::Interrupt => Signal::Cancel,
        Action::MoveLeft => {
            readline.editor.backward();
            Signal::Continue
        },
        Action::MoveRight => {
            readline.editor.forward();
            Signal::Continue
        },
        Action::MoveHead => {
            readline.editor.move_to_head();
            Signal::Continue
        },
        Action::MoveTail => {
            readline.editor.move_to_tail();
            Signal::Continue
        },
        Action::EraseChar => {
            readline.editor.erase();
            Signal::Continue
        },
        Action::EraseAll => {
            readline.editor.erase_all();
            proof {
                assert(Seq::<char>::empty().map_values(|c: char| grapheme_of(c, Style::plain())).push(
                    grapheme_of(' ', Style::plain()),
                ) =~= seq![grapheme_of(' ', Style::plain())]);
            }
            Signal::Continue
        },
        Action::PrevHistory => {
            if readline.history.backward() {
                let line = readline.history.get();
                readline.editor.replace(line.as_str());
            }
            Signal::Continue
        },
        Action::NextHistory => {
            if readline.history.forward() {
                let line = readline.history.get();
                readline.editor.replace(line.as_str());
            }
            Signal::Continue
        },
        Action::Complete => {
            let text = readline.editor.text_without_cursor().to_string();
            assert(text@ == typed_text(readline.editor));
            match readline.suggest.search(text.as_str()) {
                Some(s) => {
                    readline.editor.replace(s.as_str());
                },
                None => {},
            }
            Signal::Continue
        },
    }
}

/// Whether the text of `editor` is at least `limit` columns wide.
fn reaches_width(editor: &TextEditor, limit: usize) -> (r: bool)
    requires
        editor.wf(),
    ensures
        r == (crate::styled::sum_widths(editor.buffer().drop_last()) >= limit),
{
    let text = editor.text_without_cursor();
    let mut total: usize = 0;
    let mut i: usize = 0;
    if limit == 0 {
        return true;
    }
    while i < text.0.len()
        invariant
            i <= text@.len(),
            text@ == editor.buffer().drop_last(),
            total == crate::styled::sum_widths(text@.subrange(0, i as int)),
            total < limit,
        decreases text@.len() - i,
    {
        assert(text@.subrange(0, i as int + 1).drop_last() =~= text@.subrange(0, i as int));
        let w = text.0[i].width;
        if w >= limit - total {
            proof {
                crate::styled::lemma_sum_widths_prefix(text@, i as int + 1);
            }
            return true;
        }
        total = total + w;
        i = i + 1;
    }
    assert(text@.subrange(0, i as int) =~= text@);
    false
}

/// Handles the events of a readline prompt.
pub struct EventHandler {
    pub keybind: KeyBind,
}

impl EventHandler {
    /// Runs the action bound to a key; an unbound character typed without a
    /// modifier is inserted or overwritten, as the edit mode says, unless the
    /// text already fills `width_limit` columns; any other event changes
    /// nothing.
    pub fn handle_event(&self, ev: &Event, readline: &mut Readline, width_limit: usize) -> (r: Signal)
        requires
            old(readline).wf(),
        ensures
            final(readline).wf(),
            match *ev {
                Event::Key(k) => match lookup(self.keybind.event_mapping@, k) {
                    Some(a) => applied(*old(readline), *final(readline), a, r),
                    None => r == Signal::Continue && match k.code {
                        KeyCode::Char(ch) => if k.modifiers == KeyModifiers(0)
                            && crate::styled::sum_widths(old(readline).editor.buffer().drop_last())
                            < width_limit {
                            final(readline).history == old(readline).history
                                && final(readline).suggest == old(readline).suggest
                                && final(readline).edit_mode == old(readline).edit_mode
                                && final(readline).editor.pos() == old(readline).editor.pos() + 1
                                && final(readline).editor.buffer() == if old(readline).edit_mode
                                == Mode::Overwrite && old(readline).editor.pos() < old(
                                readline,
                            ).editor.buffer().len() - 1 {
                                old(readline).editor.buffer().update(
                                    old(readline).editor.pos(),
                                    grapheme_of(ch, Style::plain()),
                                )
                            } else {
                                old(readline).editor.buffer().insert(
                                    old(readline).editor.pos(),
                                    grapheme_of(ch, Style::plain()),
                                )
                            }
                        } else {
                            *final(readline) == *old(readline)
                        },
                        _ => *final(readline) == *old(readline),
                    },
                },
                _ => r == Signal::Continue && *final(readline) == *old(readline),
            },
    {
        match ev {
            Event::Key(k) => {
                match self.keybind.handle(k) {
                    Some(a) => apply(readline, a),
                    None => {
                        match k.code {
                            KeyCode::Char(ch) => {
                                if k.modifiers == KeyModifiers(NONE) && !reaches_width(
                                    &readline.editor,
                                    width_limit,
                                ) {
                                    match readline.edit_mode {
                                        Mode::Insert => readline.editor.insert(ch),
                                        Mode::Overwrite => readline.editor.overwrite(ch),
                                    }
                                }
                                Signal::Continue
                            },
                            _ => Signal::Continue,
                        }
                    },
                }
            },
            _ => Signal::Continue,
        }
    }
}

} // verus!

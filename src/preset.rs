//! Ready-made prompts: the widgets of a prompt with their display options,
//! and the renderer that stacks their panes on the screen.

use crate::json::JsonNode;
use crate::layout::{grapheme_width, paginate, wrap};
use crate::listbox;
use crate::pane::Pane;
use crate::style::{Attribute, Attributes, Color, Style};
use crate::styled::{graphemes_of, rows_view, StyledGrapheme, StyledGraphemes};
use crate::text::chars_of;
use crate::text_editor::{sentinel, TextEditor};
use crate::tree::{flatten_tree, kinds_view, waypoints, Kind, KindView, Node};
use vstd::prelude::*;

verus! {

/// The number of rows a widget may use: its own limit, if any, within the
/// height it is given.
pub open spec fn effective_height(lines: Option<usize>, height: nat) -> nat {
    match lines {
        Some(l) => if (l as nat) < height {
            l as nat
        } else {
            height
        },
        None => height,
    }
}

/// The bold style of titles.
pub open spec fn bold() -> Style {
    Style {
        attributes: Attributes(1u32 << 2u32),
        ..Style::plain()
    }
}

/// The style with only a foreground colour.
pub open spec fn fg(c: Color) -> Style {
    Style { foreground_color: Some(c), ..Style::plain() }
}

fn bold_style() -> (r: Style)
    ensures
        r == bold(),
{
    let mut s = Style::new();
    s.attributes = Attributes::from_attribute(Attribute::Bold);
    s
}

fn fg_style(c: Color) -> (r: Style)
    ensures
        r == fg(c),
{
    let mut s = Style::new();
    s.foreground_color = Some(c);
    s
}

/// A block of text under one style, wrapped to the width of the screen.
pub struct TextState {
    pub text: String,
    pub style: Style,
    pub lines: Option<usize>,
}

impl TextState {
    /// The rows of the text wrapped to `width`, at most as many as the
    /// effective height.
    pub fn create_pane(&self, width: u16, height: u16) -> (r: Pane)
        ensures
            rows_view(r.layout@) == paginate(
                wrap(graphemes_of(self.text@, self.style), grapheme_width(), width as nat),
                effective_height(self.lines, height as nat),
                0,
            ).0,
    {
        let h: usize = match self.lines {
            Some(l) => if l < height as usize {
                l
            } else {
                height as usize
            },
            None => height as usize,
        };
        let g = StyledGraphemes::from_str(self.text.as_str(), self.style);
        let (rows, _) = g.matrixify(width as usize, h, 0);
        Pane::new(rows)
    }
}

/// `n` spaces.
pub open spec fn spaces(n: nat) -> Seq<char> {
    Seq::new(n, |i: int| ' ')
}

/// The row of item `i` of a list whose cursor is at `pos`: the cursor symbol,
/// or as many spaces as it has characters, then the item, all under the
/// active or the inactive style.
pub open spec fn list_row(
    items: Seq<Seq<StyledGrapheme>>,
    pos: int,
    i: int,
    cursor: Seq<char>,
    active: Style,
    inactive: Style,
) -> Seq<StyledGrapheme> {
    if i == pos {
        graphemes_of(cursor, active) + restyled(items[i], active)
    } else {
        graphemes_of(spaces(cursor.len()), inactive) + restyled(items[i], inactive)
    }
}

/// The graphemes of `s`, each under `style`.
pub open spec fn restyled(s: Seq<StyledGrapheme>, style: Style) -> Seq<StyledGrapheme> {
    s.map_values(|g: StyledGrapheme| StyledGrapheme { style, ..g })
}

/// The first item shown in a window of `h` rows that keeps the cursor at
/// `pos` in view.
pub open spec fn window_start(pos: nat, h: nat) -> nat {
    if pos < h {
        0
    } else {
        (pos + 1 - h) as nat
    }
}

/// The number of items shown from `start` in a window of `h` rows.
pub open spec fn window_len(n: nat, start: nat, h: nat) -> nat {
    if start >= n {
        0
    } else if n - start < h {
        (n - start) as nat
    } else {
        h
    }
}

/// A list with its cursor symbol and the styles of its rows.
pub struct ListboxState {
    pub listbox: listbox::Listbox,
    pub cursor: String,
    pub active_item_style: Style,
    pub inactive_item_style: Style,
    pub lines: Option<usize>,
}

impl ListboxState {
    /// The rows of the items in the window that keeps the cursor in view.
    pub fn create_pane(&self, width: u16, height: u16) -> (r: Pane)
        requires
            self.listbox.wf(),
        ensures
            ({
                let items = self.listbox.items_view();
                let pos = self.listbox.0.position as nat;
                let h = effective_height(self.lines, height as nat);
                let start = window_start(pos, h);
                rows_view(r.layout@) == Seq::new(
                    window_len(items.len(), start, h),
                    |k: int|
                        list_row(
                            items,
                            pos as int,
                            start + k,
                            self.cursor@,
                            self.active_item_style,
                            self.inactive_item_style,
                        ),
                )
            }),
    {
        window_pane(
            self.listbox.items(),
            self.listbox.position(),
            self.cursor.as_str(),
            self.active_item_style,
            self.inactive_item_style,
            self.lines,
            height,
        )
    }
}

/// The rows of the items in the window of the effective height that keeps
/// the item at `pos` in view, each after the cursor symbol or blanks.
fn window_pane(
    items: &Vec<StyledGraphemes>,
    pos: usize,
    cursor_symbol: &str,
    active: Style,
    inactive: Style,
    lines: Option<usize>,
    height: u16,
) -> (r: Pane)
    requires
        pos < items@.len() || pos == 0,
    ensures
        ({
            let its = rows_view(items@);
            let h = effective_height(lines, height as nat);
            let start = window_start(pos as nat, h);
            rows_view(r.layout@) == Seq::new(
                window_len(its.len(), start, h),
                |k: int| list_row(its, pos as int, start + k, cursor_symbol@, active, inactive),
            )
        }),
{
    let ghost its = rows_view(items@);
    let h: usize = match lines {
        Some(l) => if l < height as usize {
            l
        } else {
            height as usize
        },
        None => height as usize,
    };
    let n = items.len();
    let start: usize = if pos < h {
        0
    } else {
        pos + 1 - h
    };
    let count: usize = if start >= n {
        0
    } else if n - start < h {
        n - start
    } else {
        h
    };
    let cursor = StyledGraphemes::from_str(cursor_symbol, active);
    let blank = StyledGraphemes::from_str(spaces_of(chars_of(cursor_symbol).len()).as_str(), inactive);
    let mut rows: Vec<StyledGraphemes> = Vec::new();
    let mut k: usize = 0;
    assert(rows_view(rows@) =~= Seq::new(
        0,
        |j: int| list_row(its, pos as int, start + j, cursor_symbol@, active, inactive),
    ));
    while k < count
        invariant
            k <= count,
            count > 0 ==> start + count <= n,
            n == its.len(),
            its == rows_view(items@),
            cursor@ == graphemes_of(cursor_symbol@, active),
            blank@ == graphemes_of(spaces(cursor_symbol@.len()), inactive),
            rows_view(rows@) == Seq::new(
                k as nat,
                |j: int| list_row(its, pos as int, start + j, cursor_symbol@, active, inactive),
            ),
        decreases count - k,
    {
        let i = start + k;
        let item = items[i].duplicate();
        assert(item@ == its[i as int]);
        let row = if i == pos {
            let styled = item.apply_style(active);
            assert(styled@ =~= restyled(its[i as int], active));
            concat_rows(&cursor, styled)
        } else {
            let styled = item.apply_style(inactive);
            assert(styled@ =~= restyled(its[i as int], inactive));
            concat_rows(&blank, styled)
        };
        assert(row@ == list_row(its, pos as int, i as int, cursor_symbol@, active, inactive));
        let ghost r0 = rows_view(rows@);
        rows.push(row);
        assert(rows_view(rows@) =~= r0.push(row@));
        k = k + 1;
        assert(rows_view(rows@) =~= Seq::new(
            k as nat,
            |j: int| list_row(its, pos as int, start + j, cursor_symbol@, active, inactive),
        ));
    }
    Pane::new(rows)
}

/// `a` followed by `b`.
fn concat_rows(a: &StyledGraphemes, b: StyledGraphemes) -> (r: StyledGraphemes)
    ensures
        r@ == a@ + b@,
{
    let mut v = a.duplicate().0;
    let mut rest = b.0;
    v.append(&mut rest);
    StyledGraphemes(v)
}

/// A string of `n` spaces.
fn spaces_of(n: usize) -> (r: String)
    ensures
        r@ == spaces(n as nat),
{
    let mut s = String::new();
    let mut i: usize = 0;
    while i < n
        invariant
            i <= n,
            s@ == spaces(i as nat),
        decreases n - i,
    {
        s.push(' ');
        i = i + 1;
        assert(s@ =~= spaces(i as nat));
    }
    s
}

/// The title and the list of a listbox prompt.
pub struct Renderer {
    pub title_state: TextState,
    pub listbox_state: ListboxState,
}

impl Renderer {
    /// The title pane, sized to the screen, then the list pane in the rows
    /// that the title leaves.
    pub fn create_panes(&self, width: u16, height: u16) -> (r: Vec<Pane>)
        requires
            self.listbox_state.listbox.wf(),
        ensures
            r@.len() == 2,
            r@[0].layout@.len() <= height,
            rows_view(r@[0].layout@) == paginate(
                wrap(
                    graphemes_of(self.title_state.text@, self.title_state.style),
                    grapheme_width(),
                    width as nat,
                ),
                effective_height(self.title_state.lines, height as nat),
                0,
            ).0,
            ({
                let items = self.listbox_state.listbox.items_view();
                let pos = self.listbox_state.listbox.0.position as nat;
                let h = effective_height(
                    self.listbox_state.lines,
                    (height - r@[0].layout@.len()) as nat,
                );
                let start = window_start(pos, h);
                rows_view(r@[1].layout@) == Seq::new(
                    window_len(items.len(), start, h),
                    |k: int|
                        list_row(
                            items,
                            pos as int,
                            start + k,
                            self.listbox_state.cursor@,
                            self.listbox_state.active_item_style,
                            self.listbox_state.inactive_item_style,
                        ),
                )
            }),
    {
        let title = self.title_state.create_pane(width, height);
        let used = title.visible_row_count();
        proof {
            let rows = wrap(
                graphemes_of(self.title_state.text@, self.title_state.style),
                grapheme_width(),
                width as nat,
            );
            let h = effective_height(self.title_state.lines, height as nat);
            assert(paginate(rows, h, 0).0.len() <= h);
        }
        let list = self.listbox_state.create_pane(width, height - used as u16);
        let mut panes: Vec<Pane> = Vec::new();
        panes.push(title);
        panes.push(list);
        panes
    }

    /// The text of the item under the cursor, or nothing for an empty list.
    pub fn finalize(&self) -> (r: Option<String>)
        requires
            self.listbox_state.listbox.wf(),
        ensures
            self.listbox_state.listbox.0.contents@.len() == 0 ==> r is None,
            self.listbox_state.listbox.0.contents@.len() > 0 ==> (r matches Some(s) && s@
                == self.listbox_state.listbox.items_view()[self.listbox_state.listbox.0.position as int].map_values(
                |g: StyledGrapheme| g.ch,
            )),
    {
        let items = self.listbox_state.listbox.items();
        if items.len() == 0 {
            None
        } else {
            Some(items[self.listbox_state.listbox.position()].to_string())
        }
    }
}

/// A prompt to pick one item of a list.
pub struct Listbox {
    pub title_state: TextState,
    pub listbox_state: ListboxState,
}

impl Listbox {
    /// A prompt over `items` with no title, the cursor symbol `❯ `, the
    /// item under the cursor in dark cyan and the others plain.
    pub fn new(items: Vec<String>) -> (r: Listbox)
        ensures
            r.title_state.text@.len() == 0,
            r.title_state.style == bold(),
            r.title_state.lines is None,
            r.listbox_state.listbox.wf(),
            r.listbox_state.listbox.items_view() == listbox::plain_items(items@),
            r.listbox_state.listbox.0.position == 0,
            r.listbox_state.cursor@ == seq!['❯', ' '],
            r.listbox_state.active_item_style == fg(Color::DarkCyan),
            r.listbox_state.inactive_item_style == Style::plain(),
            r.listbox_state.lines is None,
    {
        let mut cursor = String::new();
        cursor.push('❯');
        cursor.push(' ');
        Listbox {
            title_state: TextState { text: String::new(), style: bold_style(), lines: None },
            listbox_state: ListboxState {
                listbox: listbox::Listbox::from_displayable(items),
                cursor,
                active_item_style: fg_style(Color::DarkCyan),
                inactive_item_style: Style::new(),
                lines: None,
            },
        }
    }

    /// Sets the title shown above the list.
    pub fn title(self, text: &str) -> (r: Listbox)
        ensures
            r.title_state.text@ == text@,
            r.title_state.style == self.title_state.style,
            r.title_state.lines == self.title_state.lines,
            r.listbox_state == self.listbox_state,
    {
        let mut s = self;
        s.title_state.text = text.to_owned();
        s
    }

    /// Sets the style of the title.
    pub fn title_style(self, style: Style) -> (r: Listbox)
        ensures
            r.title_state.text == self.title_state.text,
            r.title_state.style == style,
            r.title_state.lines == self.title_state.lines,
            r.listbox_state == self.listbox_state,
    {
        let mut s = self;
        s.title_state.style = style;
        s
    }

    /// Sets the symbol that marks the item under the cursor.
    pub fn cursor(self, cursor: &str) -> (r: Listbox)
        ensures
            r.title_state == self.title_state,
            r.listbox_state.cursor@ == cursor@,
            r.listbox_state.listbox == self.listbox_state.listbox,
            r.listbox_state.active_item_style == self.listbox_state.active_item_style,
            r.listbox_state.inactive_item_style == self.listbox_state.inactive_item_style,
            r.listbox_state.lines == self.listbox_state.lines,
    {
        let mut s = self;
        s.listbox_state.cursor = cursor.to_owned();
        s
    }

    /// Sets the style of the item under the cursor.
    pub fn active_item_style(self, style: Style) -> (r: Listbox)
        ensures
            r.title_state == self.title_state,
            r.listbox_state.cursor == self.listbox_state.cursor,
            r.listbox_state.listbox == self.listbox_state.listbox,
            r.listbox_state.active_item_style == style,
            r.listbox_state.inactive_item_style == self.listbox_state.inactive_item_style,
            r.listbox_state.lines == self.listbox_state.lines,
    {
        let mut s = self;
        s.listbox_state.active_item_style = style;
        s
    }

    /// Sets the style of the other items.
    pub fn inactive_item_style(self, style: Style) -> (r: Listbox)
        ensures
            r.title_state == self.title_state,
            r.listbox_state.cursor == self.listbox_state.cursor,
            r.listbox_state.listbox == self.listbox_state.listbox,
            r.listbox_state.active_item_style == self.listbox_state.active_item_style,
            r.listbox_state.inactive_item_style == style,
            r.listbox_state.lines == self.listbox_state.lines,
    {
        let mut s = self;
        s.listbox_state.inactive_item_style = style;
        s
    }

    /// Sets the number of rows the list may use.
    pub fn listbox_lines(self, lines: usize) -> (r: Listbox)
        ensures
            r.title_state == self.title_state,
            r.listbox_state.cursor == self.listbox_state.cursor,
            r.listbox_state.listbox == self.listbox_state.listbox,
            r.listbox_state.active_item_style == self.listbox_state.active_item_style,
            r.listbox_state.inactive_item_style == self.listbox_state.inactive_item_style,
            r.listbox_state.lines == Some(lines),
    {
        let mut s = self;
        s.listbox_state.lines = Some(lines);
        s
    }

    /// The renderer of the prompt.
    pub fn prompt(self) -> (r: Renderer)
        ensures
            r.title_state == self.title_state,
            r.listbox_state == self.listbox_state,
    {
        Renderer { title_state: self.title_state, listbox_state: self.listbox_state }
    }
}

/// A tree with the symbols and styles of its rows.
pub struct TreeState {
    pub tree: Node,
    pub folded_symbol: String,
    pub unfolded_symbol: String,
    pub active_item_style: Style,
    pub inactive_item_style: Style,
    pub lines: Option<usize>,
    pub indent: usize,
}

/// A prompt to explore a tree.
pub struct Tree {
    pub title_state: TextState,
    pub tree_state: TreeState,
}

impl Tree {
    /// A prompt over `root` with no title, the symbols `▶︎ ` and `▼ `, the
    /// row under the cursor in dark cyan and an indent of two.
    pub fn new(root: Node) -> (r: Tree)
        ensures
            r.title_state.text@.len() == 0,
            r.title_state.style == bold(),
            r.title_state.lines is None,
            r.tree_state.tree == root,
            r.tree_state.folded_symbol@ == seq!['▶', '\u{fe0e}', ' '],
            r.tree_state.unfolded_symbol@ == seq!['▼', ' '],
            r.tree_state.active_item_style == fg(Color::DarkCyan),
            r.tree_state.inactive_item_style == Style::plain(),
            r.tree_state.lines is None,
            r.tree_state.indent == 2,
    {
        let mut folded = String::new();
        folded.push('▶');
        folded.push('\u{fe0e}');
        folded.push(' ');
        let mut unfolded = String::new();
        unfolded.push('▼');
        unfolded.push(' ');
        Tree {
            title_state: TextState { text: String::new(), style: bold_style(), lines: None },
            tree_state: TreeState {
                tree: root,
                folded_symbol: folded,
                unfolded_symbol: unfolded,
                active_item_style: fg_style(Color::DarkCyan),
                inactive_item_style: Style::new(),
                lines: None,
                indent: 2,
            },
        }
    }

    /// Sets the title shown above the tree.
    pub fn title(self, text: &str) -> (r: Tree)
        ensures
            r.title_state.text@ == text@,
            r.title_state.style == self.title_state.style,
            r.title_state.lines == self.title_state.lines,
            r.tree_state == self.tree_state,
    {
        let mut s = self;
        s.title_state.text = text.to_owned();
        s
    }

    /// Sets the style of the title.
    pub fn title_style(self, style: Style) -> (r: Tree)
        ensures
            r.title_state.text == self.title_state.text,
            r.title_state.style == style,
            r.title_state.lines == self.title_state.lines,
            r.tree_state == self.tree_state,
    {
        let mut s = self;
        s.title_state.style = style;
        s
    }

    /// Sets the symbol of a folded node.
    pub fn folded_symbol(self, symbol: &str) -> (r: Tree)
        ensures
            r.title_state == self.title_state,
            r.tree_state == (TreeState { folded_symbol: r.tree_state.folded_symbol, ..self.tree_state }),
            r.tree_state.folded_symbol@ == symbol@,
    {
        let mut s = self;
        s.tree_state.folded_symbol = symbol.to_owned();
        s
    }

    /// Sets the symbol of an unfolded node.
    pub fn unfolded_symbol(self, symbol: &str) -> (r: Tree)
        ensures
            r.title_state == self.title_state,
            r.tree_state == (TreeState { unfolded_symbol: r.tree_state.unfolded_symbol, ..self.tree_state }),
            r.tree_state.unfolded_symbol@ == symbol@,
    {
        let mut s = self;
        s.tree_state.unfolded_symbol = symbol.to_owned();
        s
    }

    /// Sets the style of the row under the cursor.
    pub fn active_item_style(self, style: Style) -> (r: Tree)
        ensures
            r.title_state == self.title_state,
            r.tree_state == (TreeState { active_item_style: style, ..self.tree_state }),
    {
        let mut s = self;
        s.tree_state.active_item_style = style;
        s
    }

    /// Sets the style of the other rows.
    pub fn inactive_item_style(self, style: Style) -> (r: Tree)
        ensures
            r.title_state == self.title_state,
            r.tree_state == (TreeState { inactive_item_style: style, ..self.tree_state }),
    {
        let mut s = self;
        s.tree_state.inactive_item_style = style;
        s
    }

    /// Sets the number of rows the tree may use.
    pub fn tree_lines(self, lines: usize) -> (r: Tree)
        ensures
            r.title_state == self.title_state,
            r.tree_state == (TreeState { lines: Some(lines), ..self.tree_state }),
    {
        let mut s = self;
        s.tree_state.lines = Some(lines);
        s
    }

    /// Sets the indent of each level.
    pub fn indent(self, indent: usize) -> (r: Tree)
        ensures
            r.title_state == self.title_state,
            r.tree_state == (TreeState { indent, ..self.tree_state }),
    {
        let mut s = self;
        s.tree_state.indent = indent;
        s
    }
}

/// A JSON document with the options of its rows.
pub struct JsonState {
    pub root: JsonNode,
    pub indent: usize,
    pub lines: Option<usize>,
    pub active_item_attribute: Attribute,
    pub inactive_item_attribute: Attribute,
}

/// A prompt to explore a JSON document.
pub struct Json {
    pub title_state: TextState,
    pub json_state: JsonState,
}

impl Json {
    /// A prompt over `root` with no title, an indent of two, the row under
    /// the cursor undercurled and the others dim.
    pub fn new(root: JsonNode) -> (r: Json)
        ensures
            r.title_state.text@.len() == 0,
            r.title_state.style == bold(),
            r.title_state.lines is None,
            r.json_state.root == root,
            r.json_state.indent == 2,
            r.json_state.lines is None,
            r.json_state.active_item_attribute == Attribute::Undercurled,
            r.json_state.inactive_item_attribute == Attribute::Dim,
    {
        Json {
            title_state: TextState { text: String::new(), style: bold_style(), lines: None },
            json_state: JsonState {
                root,
                indent: 2,
                lines: None,
                active_item_attribute: Attribute::Undercurled,
                inactive_item_attribute: Attribute::Dim,
            },
        }
    }

    /// Sets the title shown above the document.
    pub fn title(self, text: &str) -> (r: Json)
        ensures
            r.title_state.text@ == text@,
            r.title_state.style == self.title_state.style,
            r.title_state.lines == self.title_state.lines,
            r.json_state == self.json_state,
    {
        let mut s = self;
        s.title_state.text = text.to_owned();
        s
    }

    /// Sets the style of the title.
    pub fn title_style(self, style: Style) -> (r: Json)
        ensures
            r.title_state.text == self.title_state.text,
            r.title_state.style == style,
            r.title_state.lines == self.title_state.lines,
            r.json_state == self.json_state,
    {
        let mut s = self;
        s.title_state.style = style;
        s
    }

    /// Sets the number of rows the document may use.
    pub fn json_lines(self, lines: usize) -> (r: Json)
        ensures
            r.title_state == self.title_state,
            r.json_state == (JsonState { lines: Some(lines), ..self.json_state }),
    {
        let mut s = self;
        s.json_state.lines = Some(lines);
        s
    }

    /// Sets the indent of each level.
    pub fn indent(self, indent: usize) -> (r: Json)
        ensures
            r.title_state == self.title_state,
            r.json_state == (JsonState { indent, ..self.json_state }),
    {
        let mut s = self;
        s.json_state.indent = indent;
        s
    }

    /// Sets the attribute of the row under the cursor.
    pub fn active_item_attribute(self, attr: Attribute) -> (r: Json)
        ensures
            r.title_state == self.title_state,
            r.json_state == (JsonState { active_item_attribute: attr, ..self.json_state }),
    {
        let mut s = self;
        s.json_state.active_item_attribute = attr;
        s
    }

    /// Sets the attribute of the other rows.
    pub fn inactive_item_attribute(self, attr: Attribute) -> (r: Json)
        ensures
            r.title_state == self.title_state,
            r.json_state == (JsonState { inactive_item_attribute: attr, ..self.json_state }),
    {
        let mut s = self;
        s.json_state.inactive_item_attribute = attr;
        s
    }
}

/// The text of a row of a tree: its depth in indents, the symbol of a
/// folded or unfolded node, and its id.
pub open spec fn kind_text(k: KindView, indent: nat, folded: Seq<char>, unfolded: Seq<char>) -> Seq<
    char,
> {
    match k {
        KindView::Folded { id, path } => spaces(path.len() * indent) + folded + id,
        KindView::Unfolded { id, path } => spaces(path.len() * indent) + unfolded + id,
    }
}

/// The rows of a flattened tree as plain graphemes.
pub open spec fn tree_rows(kinds: Seq<KindView>, indent: nat, folded: Seq<char>, unfolded: Seq<char>) -> Seq<
    Seq<StyledGrapheme>,
> {
    kinds.map_values(|k: KindView| graphemes_of(kind_text(k, indent, folded, unfolded), Style::plain()))
}

/// Appends the characters of `t` to `s`.
fn push_str(s: &mut String, t: &str)
    ensures
        final(s)@ == old(s)@ + t@,
{
    let cs = chars_of(t);
    let ghost s0 = s@;
    let mut i: usize = 0;
    while i < cs.len()
        invariant
            i <= cs@.len(),
            cs@ == t@,
            s@ == s0 + cs@.subrange(0, i as int),
        decreases cs@.len() - i,
    {
        s.push(cs[i]);
        i = i + 1;
        assert(s@ =~= s0 + cs@.subrange(0, i as int));
    }
    assert(cs@.subrange(0, i as int) =~= cs@);
}

/// The text of a row of a tree.
fn kind_line(k: &Kind, indent: usize, folded: &str, unfolded: &str) -> (r: String)
    ensures
        r@ == kind_text(k@, indent as nat, folded@, unfolded@),
{
    let (id, path, symbol) = match k {
        Kind::Folded { id, path } => (id, path, folded),
        Kind::Unfolded { id, path } => (id, path, unfolded),
    };
    let mut s = String::new();
    let mut d: usize = 0;
    while d < path.len()
        invariant
            d <= path@.len(),
            s@ == spaces((d * indent) as nat),
        decreases path@.len() - d,
    {
        let mut j: usize = 0;
        let ghost s0 = s@;
        while j < indent
            invariant
                j <= indent,
                s@ == s0 + spaces(j as nat),
            decreases indent - j,
        {
            s.push(' ');
            j = j + 1;
            assert(s@ =~= s0 + spaces(j as nat));
        }
        assert((d + 1) * indent == d * indent + indent) by (nonlinear_arith);
        d = d + 1;
        assert(s@ =~= spaces((d * indent) as nat));
    }
    push_str(&mut s, symbol);
    push_str(&mut s, id.as_str());
    s
}

/// The title and the tree of a tree prompt, with the row under the cursor.
pub struct TreeRenderer {
    pub title_state: TextState,
    pub tree_state: TreeState,
    pub position: usize,
}

impl Tree {
    /// The renderer of the prompt, with the cursor on the root.
    pub fn prompt(self) -> (r: TreeRenderer)
        ensures
            r.title_state == self.title_state,
            r.tree_state == self.tree_state,
            r.position == 0,
    {
        TreeRenderer { title_state: self.title_state, tree_state: self.tree_state, position: 0 }
    }
}

impl TreeRenderer {
    /// The rows of the tree as they stand.
    pub open spec fn rows(&self) -> Seq<KindView> {
        flatten_tree(self.tree_state.tree, Seq::empty())
    }

    /// The cursor lies on a row.
    pub open spec fn wf(&self) -> bool {
        self.position < self.rows().len()
    }

    /// The rows of the visible tree, each indented by depth, with the row under
    /// the cursor marked by its style.
    fn tree_items(&self) -> (r: Vec<StyledGraphemes>)
        ensures
            rows_view(r@) == tree_rows(
                self.rows(),
                self.tree_state.indent as nat,
                self.tree_state.folded_symbol@,
                self.tree_state.unfolded_symbol@,
            ),
    {
        let kinds = self.tree_state.tree.flatten_visibles();
        let mut items: Vec<StyledGraphemes> = Vec::new();
        let mut i: usize = 0;
        while i < kinds.len()
            invariant
                i <= kinds@.len(),
                kinds_view(kinds@) == self.rows(),
                rows_view(items@) == tree_rows(
                    kinds_view(kinds@).subrange(0, i as int),
                    self.tree_state.indent as nat,
                    self.tree_state.folded_symbol@,
                    self.tree_state.unfolded_symbol@,
                ),
            decreases kinds@.len() - i,
        {
            let line = kind_line(
                &kinds[i],
                self.tree_state.indent,
                self.tree_state.folded_symbol.as_str(),
                self.tree_state.unfolded_symbol.as_str(),
            );
            let g = StyledGraphemes::from(line.as_str());
            let ghost r0 = rows_view(items@);
            items.push(g);
            assert(rows_view(items@) =~= r0.push(g@));
            i = i + 1;
            assert(rows_view(items@) =~= tree_rows(
                kinds_view(kinds@).subrange(0, i as int),
                self.tree_state.indent as nat,
                self.tree_state.folded_symbol@,
                self.tree_state.unfolded_symbol@,
            ));
        }
        assert(kinds_view(kinds@).subrange(0, i as int) =~= kinds_view(kinds@));
        items
    }

    /// The title pane, sized to the screen, then the rows of the tree in the
    /// rows that the title leaves, the one under the cursor in the active style.
    pub fn create_panes(&self, width: u16, height: u16) -> (r: Vec<Pane>)
        requires
            self.wf(),
        ensures
            r@.len() == 2,
            r@[0].layout@.len() <= height,
            rows_view(r@[0].layout@) == paginate(
                wrap(
                    graphemes_of(self.title_state.text@, self.title_state.style),
                    grapheme_width(),
                    width as nat,
                ),
                effective_height(self.title_state.lines, height as nat),
                0,
            ).0,
            ({
                let items = tree_rows(
                    self.rows(),
                    self.tree_state.indent as nat,
                    self.tree_state.folded_symbol@,
                    self.tree_state.unfolded_symbol@,
                );
                let h = effective_height(
                    self.tree_state.lines,
                    (height - r@[0].layout@.len()) as nat,
                );
                let start = window_start(self.position as nat, h);
                rows_view(r@[1].layout@) == Seq::new(
                    window_len(items.len(), start, h),
                    |k: int|
                        list_row(
                            items,
                            self.position as int,
                            start + k,
                            Seq::empty(),
                            self.tree_state.active_item_style,
                            self.tree_state.inactive_item_style,
                        ),
                )
            }),
    {
        let title = self.title_state.create_pane(width, height);
        let used = title.visible_row_count();
        proof {
            let rows = wrap(
                graphemes_of(self.title_state.text@, self.title_state.style),
                grapheme_width(),
                width as nat,
            );
            let h = effective_height(self.title_state.lines, height as nat);
            assert(paginate(rows, h, 0).0.len() <= h);
        }
        let items = self.tree_items();
        assert(rows_view(items@).len() == items@.len());
        proof {
            reveal_strlit("");
        }
        assert(""@ =~= Seq::<char>::empty());
        let list = window_pane(
            &items,
            self.position,
            "",
            self.tree_state.active_item_style,
            self.tree_state.inactive_item_style,
            self.tree_state.lines,
            height - used as u16,
        );
        let mut panes: Vec<Pane> = Vec::new();
        panes.push(title);
        panes.push(list);
        panes
    }

    /// Moves to the previous row; false at the first.
    pub fn backward(&mut self) -> (r: bool)
        requires
            old(self).wf(),
        ensures
            final(self).wf(),
            final(self).tree_state == old(self).tree_state,
            final(self).title_state == old(self).title_state,
            final(self).position == if old(self).position > 0 {
                old(self).position - 1
            } else {
                0
            },
            r == (old(self).position > 0),
    {
        if self.position > 0 {
            self.position = self.position - 1;
            true
        } else {
            false
        }
    }

    /// Moves to the next row; false at the last.
    pub fn forward(&mut self) -> (r: bool)
        requires
            old(self).wf(),
        ensures
            final(self).wf(),
            final(self).tree_state == old(self).tree_state,
            final(self).title_state == old(self).title_state,
            final(self).position == if old(self).position + 1 < old(self).rows().len() {
                old(self).position + 1
            } else {
                old(self).position as int
            },
            r == (old(self).position + 1 < old(self).rows().len()),
    {
        let n = self.tree_state.tree.flatten_visibles().len();
        if self.position + 1 < n {
            self.position = self.position + 1;
            true
        } else {
            false
        }
    }

    /// The ids of the nodes passed through to reach the row under the cursor.
    pub fn finalize(&self) -> (r: Vec<String>)
        requires
            self.wf(),
        ensures
            r@.map_values(|s: String| s@) == waypoints(
                self.tree_state.tree,
                match self.rows()[self.position as int] {
                    KindView::Folded { path, .. } => path,
                    KindView::Unfolded { path, .. } => path,
                },
            ),
    {
        let kinds = self.tree_state.tree.flatten_visibles();
        let path = match &kinds[self.position] {
            Kind::Folded { path, .. } => path,
            Kind::Unfolded { path, .. } => path,
        };
        self.tree_state.tree.get_waypoints(path)
    }
}

/// The answers that a confirmation accepts.
pub open spec fn is_answer(s: Seq<char>) -> bool {
    ||| s == seq!['y', 'e', 's']
    ||| s == seq!['n', 'o']
    ||| s == seq!['y']
    ||| s == seq!['n']
    ||| s == seq!['Y']
    ||| s == seq!['N']
}

/// The text of an editor, without its final space.
pub open spec fn typed(editor: TextEditor) -> Seq<char> {
    editor.buffer().drop_last().map_values(|g: StyledGrapheme| g.ch)
}

/// The message shown when the answer is neither yes nor no.
pub const CONFIRM_ERROR: &'static str = "Please type 'y' or 'n' as an answer";

/// A yes-or-no question.
pub struct Confirm {
    pub prefix: String,
    pub editor: TextEditor,
    pub error_message: String,
}

impl Confirm {
    /// A question `text`, followed by ` (y/n) `, with an empty answer.
    pub fn new(text: &str) -> (r: Confirm)
        ensures
            r.prefix@ == text@ + seq![' ', '(', 'y', '/', 'n', ')', ' '],
            r.editor.wf(),
            r.editor.buffer() == seq![sentinel()],
            r.editor.pos() == 0,
            r.error_message@.len() == 0,
    {
        let mut prefix = text.to_owned();
        prefix.push(' ');
        prefix.push('(');
        prefix.push('y');
        prefix.push('/');
        prefix.push('n');
        prefix.push(')');
        prefix.push(' ');
        assert(prefix@ =~= text@ + seq![' ', '(', 'y', '/', 'n', ')', ' ']);
        Confirm { prefix, editor: TextEditor::default(), error_message: String::new() }
    }

    /// What Enter does: an accepted answer clears the error and is returned;
    /// any other text shows the error and empties the editor.
    pub fn submit(&mut self) -> (r: Option<String>)
        requires
            old(self).editor.wf(),
        ensures
            final(self).prefix == old(self).prefix,
            final(self).editor.wf(),
            is_answer(typed(old(self).editor)) ==> (r matches Some(s) && s@ == typed(old(self).editor))
                && final(self).editor == old(self).editor && final(self).error_message@.len() == 0,
            !is_answer(typed(old(self).editor)) ==> r is None && final(self).editor.buffer() == seq![
                sentinel(),
            ] && final(self).editor.pos() == 0 && final(self).error_message@ == CONFIRM_ERROR@,
    {
        let text = self.editor.text_without_cursor();
        let t = text.chars();
        assert(t@ == typed(self.editor));
        let n = t.len();
        let ok = (n == 3 && t[0] == 'y' && t[1] == 'e' && t[2] == 's') || (n == 2 && t[0] == 'n'
            && t[1] == 'o') || (n == 1 && (t[0] == 'y' || t[0] == 'n' || t[0] == 'Y' || t[0]
            == 'N'));
        proof {
            if ok {
                if n == 3 {
                    assert(t@ =~= seq!['y', 'e', 's']);
                } else if n == 2 {
                    assert(t@ =~= seq!['n', 'o']);
                } else if t[0] == 'y' {
                    assert(t@ =~= seq!['y']);
                } else if t[0] == 'n' {
                    assert(t@ =~= seq!['n']);
                } else if t[0] == 'Y' {
                    assert(t@ =~= seq!['Y']);
                } else {
                    assert(t@ =~= seq!['N']);
                }
            } else {
                assert(t@ != seq!['y', 'e', 's']) by {
                    if t@ == seq!['y', 'e', 's'] {
                        assert(t@[0] == 'y' && t@[1] == 'e' && t@[2] == 's');
                    }
                }
                assert(t@ != seq!['n', 'o']) by {
                    if t@ == seq!['n', 'o'] {
                        assert(t@[0] == 'n' && t@[1] == 'o');
                    }
                }
                assert(t@ != seq!['y'] && t@ != seq!['n'] && t@ != seq!['Y'] && t@ != seq!['N']) by {
                    if n == 1 {
                        assert(t@[0] != 'y' && t@[0] != 'n' && t@[0] != 'Y' && t@[0] != 'N');
                    }
                }
            }
        }
        if ok {
            self.error_message = String::new();
            Some(text.to_string())
        } else {
            self.error_message = CONFIRM_ERROR.to_owned();
            self.editor.erase_all();
            None
        }
    }
}

} // verus!

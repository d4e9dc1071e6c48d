//! A collapsible JSON tree: objects and arrays whose children can be folded
//! away, addressed by paths of keys and indices, and flattened into the rows
//! that a viewer renders.

use vstd::prelude::*;

verus! {

#[verifier::external_type_specification]
#[verifier::external_body]
pub struct ExJsonValue(serde_json::Value);

/// Relies on the `Clone` that `serde_json::Value` derives: the copy is the same value.
pub assume_specification[ <serde_json::Value as Clone>::clone ](v: &serde_json::Value) -> (r:
    serde_json::Value)
    ensures
        r == *v,
;

/// One step of a path: a key of an object or an index of an array.
#[derive(Clone, Debug, PartialEq, Eq)]
pub enum JsonPathSegment {
    Key(String),
    Index(usize),
}

/// A path from the root, one segment per level.
pub type JsonPath = Vec<JsonPathSegment>;

/// The mathematical value of a path segment.
pub enum SegmentView {
    Key(Seq<char>),
    Index(usize),
}

impl View for JsonPathSegment {
    type V = SegmentView;

    open spec fn view(&self) -> SegmentView {
        match self {
            JsonPathSegment::Key(s) => SegmentView::Key(s@),
            JsonPathSegment::Index(i) => SegmentView::Index(*i),
        }
    }
}

/// The mathematical value of a path.
pub open spec fn path_view(p: Seq<JsonPathSegment>) -> Seq<SegmentView> {
    p.map_values(|s: JsonPathSegment| s@)
}

/// A node of a JSON document. The entries of an object keep the order of the
/// source, and a well-formed object holds each key once.
#[derive(Debug, PartialEq, Eq)]
pub enum JsonNode {
    Object { children: Vec<(String, JsonNode)>, children_visible: bool },
    Array { children: Vec<JsonNode>, children_visible: bool },
    /// Null, a boolean, a number or a string.
    Leaf(serde_json::Value),
}

/// One row of the flattened view of a JSON tree.
#[derive(Debug, PartialEq, Eq)]
pub enum JsonSyntaxKind {
    MapStart { key: Option<String>, path: JsonPath, indent: usize },
    MapEnd { is_last: bool, indent: usize },
    MapFolded { key: Option<String>, path: JsonPath, is_last: bool, indent: usize },
    MapEntry { kv: (String, serde_json::Value), path: JsonPath, is_last: bool, indent: usize },
    ArrayStart { key: Option<String>, path: JsonPath, indent: usize },
    ArrayEnd { is_last: bool, indent: usize },
    ArrayFolded { key: Option<String>, path: JsonPath, is_last: bool, indent: usize },
    ArrayEntry { v: serde_json::Value, path: JsonPath, is_last: bool, indent: usize },
}

/// The mathematical value of a row.
pub enum RowView {
    MapStart { key: Option<Seq<char>>, path: Seq<SegmentView>, indent: nat },
    MapEnd { is_last: bool, indent: nat },
    MapFolded { key: Option<Seq<char>>, path: Seq<SegmentView>, is_last: bool, indent: nat },
    MapEntry {
        key: Seq<char>,
        value: serde_json::Value,
        path: Seq<SegmentView>,
        is_last: bool,
        indent: nat,
    },
    ArrayStart { key: Option<Seq<char>>, path: Seq<SegmentView>, indent: nat },
    ArrayEnd { is_last: bool, indent: nat },
    ArrayFolded { key: Option<Seq<char>>, path: Seq<SegmentView>, is_last: bool, indent: nat },
    ArrayEntry { value: serde_json::Value, path: Seq<SegmentView>, is_last: bool, indent: nat },
}

pub open spec fn opt_view(k: Option<String>) -> Option<Seq<char>> {
    match k {
        Some(s) => Some(s@),
        None => None,
    }
}

impl View for JsonSyntaxKind {
    type V = RowView;

    open spec fn view(&self) -> RowView {
        match self {
            JsonSyntaxKind::MapStart { key, path, indent } => RowView::MapStart {
                key: opt_view(*key),
                path: path_view(path@),
                indent: *indent as nat,
            },
            JsonSyntaxKind::MapEnd { is_last, indent } => RowView::MapEnd {
                is_last: *is_last,
                indent: *indent as nat,
            },
            JsonSyntaxKind::MapFolded { key, path, is_last, indent } => RowView::MapFolded {
                key: opt_view(*key),
                path: path_view(path@),
                is_last: *is_last,
                indent: *indent as nat,
            },
            JsonSyntaxKind::MapEntry { kv, path, is_last, indent } => RowView::MapEntry {
                key: kv.0@,
                value: kv.1,
                path: path_view(path@),
                is_last: *is_last,
                indent: *indent as nat,
            },
            JsonSyntaxKind::ArrayStart { key, path, indent } => RowView::ArrayStart {
                key: opt_view(*key),
                path: path_view(path@),
                indent: *indent as nat,
            },
            JsonSyntaxKind::ArrayEnd { is_last, indent } => RowView::ArrayEnd {
                is_last: *is_last,
                indent: *indent as nat,
            },
            JsonSyntaxKind::ArrayFolded { key, path, is_last, indent } => RowView::ArrayFolded {
                key: opt_view(*key),
                path: path_view(path@),
                is_last: *is_last,
                indent: *indent as nat,
            },
            JsonSyntaxKind::ArrayEntry { v, path, is_last, indent } => RowView::ArrayEntry {
                value: *v,
                path: path_view(path@),
                is_last: *is_last,
                indent: *indent as nat,
            },
        }
    }
}

/// The mathematical value of a sequence of rows.
pub open spec fn rows_view(rows: Seq<JsonSyntaxKind>) -> Seq<RowView> {
    rows.map_values(|r: JsonSyntaxKind| r@)
}

/// The key that names a node reached by `path`, when its last step is a key.
pub open spec fn last_key(path: Seq<SegmentView>) -> Option<Seq<char>> {
    if path.len() > 0 && path.last() is Key {
        Some(path.last()->Key_0)
    } else {
        None
    }
}

/// The rows of `node`, reached by `path`, at depth `indent`; `is_last` tells
/// whether it is the final child of its parent. A visible container gives a
/// start row, the rows of its children one level deeper and an end row; a
/// folded one gives one row; a leaf gives an entry of a map when its last
/// step is a key and of an array otherwise.
pub open spec fn flatten_node(node: JsonNode, path: Seq<SegmentView>, is_last: bool, indent: nat) -> Seq<
    RowView,
>
    decreases node, 0nat,
{
    match node {
        JsonNode::Object { children, children_visible } => {
            if children_visible {
                seq![RowView::MapStart { key: last_key(path), path, indent }] + flatten_entries(
                    children@,
                    children@.len() as int,
                    path,
                    indent + 1,
                ) + seq![RowView::MapEnd { is_last, indent }]
            } else {
                seq![RowView::MapFolded { key: last_key(path), path, is_last, indent }]
            }
        },
        JsonNode::Array { children, children_visible } => {
            if children_visible {
                seq![RowView::ArrayStart { key: last_key(path), path, indent }] + flatten_items(
                    children@,
                    children@.len() as int,
                    path,
                    indent + 1,
                ) + seq![RowView::ArrayEnd { is_last, indent }]
            } else {
                seq![RowView::ArrayFolded { key: last_key(path), path, is_last, indent }]
            }
        },
        JsonNode::Leaf(value) => {
            match last_key(path) {
                Some(key) => seq![RowView::MapEntry { key, value, path, is_last, indent }],
                None => seq![RowView::ArrayEntry { value, path, is_last, indent }],
            }
        },
    }
}

/// The rows of the first `k` entries of an object reached by `path`.
pub open spec fn flatten_entries(
    entries: Seq<(String, JsonNode)>,
    k: int,
    path: Seq<SegmentView>,
    indent: nat,
) -> Seq<RowView>
    decreases entries, k,
{
    if k <= 0 || k > entries.len() {
        Seq::empty()
    } else {
        flatten_entries(entries, k - 1, path, indent) + flatten_node(
            entries[k - 1].1,
            path.push(SegmentView::Key(entries[k - 1].0@)),
            k == entries.len(),
            indent,
        )
    }
}

/// The rows of the first `k` items of an array reached by `path`.
pub open spec fn flatten_items(items: Seq<JsonNode>, k: int, path: Seq<SegmentView>, indent: nat) -> Seq<
    RowView,
>
    decreases items, k,
{
    if k <= 0 || k > items.len() {
        Seq::empty()
    } else {
        flatten_items(items, k - 1, path, indent) + flatten_node(
            items[k - 1],
            path.push(SegmentView::Index((k - 1) as usize)),
            k == items.len(),
            indent,
        )
    }
}


/// A copy of a path.
pub fn clone_path(p: &JsonPath) -> (r: JsonPath)
    ensures
        path_view(r@) == path_view(p@),
{
    let mut r: JsonPath = Vec::new();
    let mut i: usize = 0;
    while i < p.len()
        invariant
            i <= p@.len(),
            r@.len() == i,
            forall|j: int| 0 <= j < i ==> #[trigger] r@[j]@ == p@[j]@,
        decreases p@.len() - i,
    {
        let cur = &p[i];
        let seg = match cur {
            JsonPathSegment::Key(k) => JsonPathSegment::Key(k.clone()),
            JsonPathSegment::Index(n) => JsonPathSegment::Index(*n),
        };
        r.push(seg);
        i = i + 1;
    }
    assert(path_view(r@) =~= path_view(p@));
    r
}

/// The key that names the node at `path`, when its last step is a key.
fn last_key_of(path: &JsonPath) -> (r: Option<String>)
    ensures
        opt_view(r) == last_key(path_view(path@)),
{
    if path.len() == 0 {
        None
    } else {
        match &path[path.len() - 1] {
            JsonPathSegment::Key(k) => Some(k.clone()),
            JsonPathSegment::Index(_) => None,
        }
    }
}

/// Appends the rows of `node` to `ret`.
fn flatten_into(
    node: &JsonNode,
    path: JsonPath,
    ret: &mut Vec<JsonSyntaxKind>,
    is_last: bool,
    indent: usize,
)
    requires
        indent == path@.len(),
    ensures
        rows_view(final(ret)@) == rows_view(old(ret)@) + flatten_node(
            *node,
            path_view(path@),
            is_last,
            indent as nat,
        ),
    decreases node,
{
    let ghost pv = path_view(path@);
    let ghost ret0 = rows_view(ret@);
    match node {
        JsonNode::Object { children, children_visible } => {
            if *children_visible {
                let key = last_key_of(&path);
                ret.push(JsonSyntaxKind::MapStart { key, path: clone_path(&path), indent });
                let ghost head = ret0 + seq![RowView::MapStart { key: last_key(pv), path: pv, indent: indent as nat }];
                assert(rows_view(ret@) =~= head);
                let n = children.len();
                let mut i: usize = 0;
                while i < n
                    invariant
                        i <= n,
                        n == children@.len(),
                        *node == (JsonNode::Object { children: *children, children_visible: *children_visible }),
                        indent == path@.len(),
                        pv == path_view(path@),
                        rows_view(ret@) == head + flatten_entries(children@, i as int, pv, indent as nat + 1),
                    decreases n - i,
                {
                    let mut branch = clone_path(&path);
                    branch.push(JsonPathSegment::Key(children[i].0.clone()));
                    assert(path_view(branch@) =~= pv.push(SegmentView::Key(children@[i as int].0@)));
                    let child_indent = branch.len();
                    proof {
                        assert(decreases_to!(*node => node->Object_children));
                        assert(decreases_to!(node->Object_children => node->Object_children@));
                        assert(decreases_to!(node->Object_children@ => node->Object_children@[i as int]));
                        assert(decreases_to!(node->Object_children@[i as int] => node->Object_children@[i as int].1));
                    }
                    flatten_into(&children[i].1, branch, ret, i == n - 1, child_indent);
                    i = i + 1;
                    assert(rows_view(ret@) =~= head + flatten_entries(children@, i as int, pv, indent as nat + 1));
                }
                let ghost mid = rows_view(ret@);
                ret.push(JsonSyntaxKind::MapEnd { is_last, indent });
                assert(rows_view(ret@) =~= mid + seq![RowView::MapEnd { is_last, indent: indent as nat }]);
                assert(rows_view(ret@) =~= ret0 + flatten_node(*node, pv, is_last, indent as nat));
            } else {
                let key = last_key_of(&path);
                ret.push(JsonSyntaxKind::MapFolded { key, path, is_last, indent });
                assert(rows_view(ret@) =~= ret0 + flatten_node(*node, pv, is_last, indent as nat));
            }
        },
        JsonNode::Array { children, children_visible } => {
            if *children_visible {
                let key = last_key_of(&path);
                ret.push(JsonSyntaxKind::ArrayStart { key, path: clone_path(&path), indent });
                let ghost head = ret0 + seq![RowView::ArrayStart { key: last_key(pv), path: pv, indent: indent as nat }];
                assert(rows_view(ret@) =~= head);
                let n = children.len();
                let mut i: usize = 0;
                while i < n
                    invariant
                        i <= n,
                        n == children@.len(),
                        *node == (JsonNode::Array { children: *children, children_visible: *children_visible }),
                        indent == path@.len(),
                        pv == path_view(path@),
                        rows_view(ret@) == head + flatten_items(children@, i as int, pv, indent as nat + 1),
                    decreases n - i,
                {
                    let mut branch = clone_path(&path);
                    branch.push(JsonPathSegment::Index(i));
                    assert(path_view(branch@) =~= pv.push(SegmentView::Index(i)));
                    let child_indent = branch.len();
                    proof {
                        assert(decreases_to!(*node => node->Array_children));
                        assert(decreases_to!(node->Array_children => node->Array_children@));
                        assert(decreases_to!(node->Array_children@ => node->Array_children@[i as int]));
                    }
                    flatten_into(&children[i], branch, ret, i == n - 1, child_indent);
                    i = i + 1;
                    assert(rows_view(ret@) =~= head + flatten_items(children@, i as int, pv, indent as nat + 1));
                }
                let ghost mid = rows_view(ret@);
                ret.push(JsonSyntaxKind::ArrayEnd { is_last, indent });
                assert(rows_view(ret@) =~= mid + seq![RowView::ArrayEnd { is_last, indent: indent as nat }]);
                assert(rows_view(ret@) =~= ret0 + flatten_node(*node, pv, is_last, indent as nat));
            } else {
                let key = last_key_of(&path);
                ret.push(JsonSyntaxKind::ArrayFolded { key, path, is_last, indent });
                assert(rows_view(ret@) =~= ret0 + flatten_node(*node, pv, is_last, indent as nat));
            }
        },
        JsonNode::Leaf(value) => {
            let key = last_key_of(&path);
            match key {
                Some(k) => {
                    ret.push(JsonSyntaxKind::MapEntry { kv: (k, value.clone()), path, is_last, indent });
                },
                None => {
                    ret.push(JsonSyntaxKind::ArrayEntry { v: value.clone(), path, is_last, indent });
                },
            }
            assert(rows_view(ret@) =~= ret0 + flatten_node(*node, pv, is_last, indent as nat));
        },
    }
}

impl JsonNode {
    /// The rows of the visible part of the tree, depth first: the root at depth
    /// 0 with an empty path, as the last of its siblings.
    pub fn flatten_visibles(&self) -> (r: Vec<JsonSyntaxKind>)
        ensures
            rows_view(r@) == flatten_node(*self, Seq::empty(), true, 0),
    {
        let mut ret: Vec<JsonSyntaxKind> = Vec::new();
        let path: JsonPath = Vec::new();
        assert(path_view(path@) =~= Seq::<SegmentView>::empty());
        flatten_into(self, path, &mut ret, true, 0);
        assert(rows_view(ret@) =~= flatten_node(*self, Seq::empty(), true, 0));
        ret
    }
}


/// The index of the first entry of an object whose key is `key`.
pub open spec fn key_index(entries: Seq<(String, JsonNode)>, key: Seq<char>) -> Option<int>
    decreases entries.len(),
{
    if entries.len() == 0 {
        None
    } else if entries[0].0@ == key {
        Some(0)
    } else {
        match key_index(entries.skip(1), key) {
            Some(i) => Some(i + 1),
            None => None,
        }
    }
}

/// `key_index` finds the first entry with the key, and nothing when no entry
/// has it.
pub proof fn lemma_key_index(entries: Seq<(String, JsonNode)>, key: Seq<char>, i: int)
    requires
        0 <= i <= entries.len(),
        forall|j: int| 0 <= j < i ==> #[trigger] entries[j].0@ != key,
    ensures
        i < entries.len() && entries[i].0@ == key ==> key_index(entries, key) == Some(i),
        i == entries.len() ==> key_index(entries, key) is None,
    decreases i,
{
    if i > 0 {
        let rest = entries.skip(1);
        assert forall|j: int| 0 <= j < i - 1 implies #[trigger] rest[j].0@ != key by {
            assert(rest[j] == entries[j + 1]);
        }
        lemma_key_index(rest, key, i - 1);
        if i < entries.len() {
            assert(rest[i - 1] == entries[i]);
        }
    }
}

/// The node that `path` reaches from `node`: a key steps into an object, an
/// index into an array; any other step reaches nothing.
pub open spec fn node_at(node: JsonNode, path: Seq<SegmentView>) -> Option<JsonNode>
    decreases path.len(),
{
    if path.len() == 0 {
        Some(node)
    } else {
        match node {
            JsonNode::Object { children, .. } => match path[0] {
                SegmentView::Key(k) => match key_index(children@, k) {
                    Some(i) => node_at(children@[i].1, path.skip(1)),
                    None => None,
                },
                SegmentView::Index(_) => None,
            },
            JsonNode::Array { children, .. } => match path[0] {
                SegmentView::Index(n) => if n < children@.len() {
                    node_at(children@[n as int], path.skip(1))
                } else {
                    None
                },
                SegmentView::Key(_) => None,
            },
            JsonNode::Leaf(_) => None,
        }
    }
}

/// Whether `b` is `a` with the visibility of the container at `path` flipped;
/// where `path` reaches no container, `b` is `a`.
pub open spec fn toggled(a: JsonNode, b: JsonNode, path: Seq<SegmentView>) -> bool
    decreases path.len(),
{
    if path.len() == 0 {
        match a {
            JsonNode::Object { children, children_visible } => b == (JsonNode::Object {
                children,
                children_visible: !children_visible,
            }),
            JsonNode::Array { children, children_visible } => b == (JsonNode::Array {
                children,
                children_visible: !children_visible,
            }),
            JsonNode::Leaf(_) => b == a,
        }
    } else {
        match a {
            JsonNode::Object { children: ca, children_visible: va } => match path[0] {
                SegmentView::Key(k) => match key_index(ca@, k) {
                    Some(i) => {
                        &&& b is Object
                        &&& b->Object_children_visible == va
                        &&& b->Object_children@.len() == ca@.len()
                        &&& forall|j: int|
                            0 <= j < ca@.len() && j != i ==> #[trigger] b->Object_children@[j]
                                == ca@[j]
                        &&& b->Object_children@[i].0 == ca@[i].0
                        &&& toggled(ca@[i].1, b->Object_children@[i].1, path.skip(1))
                    },
                    None => b == a,
                },
                SegmentView::Index(_) => b == a,
            },
            JsonNode::Array { children: ca, children_visible: va } => match path[0] {
                SegmentView::Index(n) => if n < ca@.len() {
                    &&& b is Array
                    &&& b->Array_children_visible == va
                    &&& b->Array_children@.len() == ca@.len()
                    &&& forall|j: int|
                        0 <= j < ca@.len() && j != n ==> #[trigger] b->Array_children@[j] == ca@[j]
                    &&& toggled(ca@[n as int], b->Array_children@[n as int], path.skip(1))
                } else {
                    b == a
                },
                SegmentView::Key(_) => b == a,
            },
            JsonNode::Leaf(_) => b == a,
        }
    }
}

/// Finds the first entry of `children` whose key is `key`.
fn find_key(children: &Vec<(String, JsonNode)>, key: &String) -> (r: Option<usize>)
    ensures
        r is None <==> key_index(children@, key@) is None,
        r matches Some(j) ==> key_index(children@, key@) == Some(j as int) && j < children@.len(),
{
    let mut j: usize = 0;
    while j < children.len()
        invariant
            j <= children@.len(),
            forall|m: int| 0 <= m < j ==> #[trigger] children@[m].0@ != key@,
        decreases children@.len() - j,
    {
        if children[j].0 == *key {
            proof {
                lemma_key_index(children@, key@, j as int);
            }
            return Some(j);
        }
        j = j + 1;
    }
    proof {
        lemma_key_index(children@, key@, j as int);
    }
    None
}

/// Flips the visibility of the container that `path` reaches from its `i`-th
/// step on.
fn toggle_from(node: &mut JsonNode, path: &JsonPath, i: usize)
    requires
        i <= path@.len(),
    ensures
        toggled(*old(node), *final(node), path_view(path@).skip(i as int)),
    decreases path@.len() - i,
{
    let ghost pv = path_view(path@).skip(i as int);
    if i == path.len() {
        match node {
            JsonNode::Object { children_visible, .. } => {
                *children_visible = !*children_visible;
            },
            JsonNode::Array { children_visible, .. } => {
                *children_visible = !*children_visible;
            },
            JsonNode::Leaf(_) => {},
        }
    } else {
        assert(pv[0] == path@[i as int]@);
        assert(pv.skip(1) =~= path_view(path@).skip(i + 1));
        let seg = &path[i];
        assert(*seg == path@[i as int]);
        match node {
            JsonNode::Object { children, .. } => {
                match seg {
                    JsonPathSegment::Key(k) => {
                        match find_key(children, k) {
                            Some(j) => {
                                toggle_from(&mut children[j].1, path, i + 1);
                            },
                            None => {},
                        }
                    },
                    JsonPathSegment::Index(_) => {},
                }
            },
            JsonNode::Array { children, .. } => {
                match seg {
                    JsonPathSegment::Index(n) => {
                        if *n < children.len() {
                            toggle_from(&mut children[*n], path, i + 1);
                        }
                    },
                    JsonPathSegment::Key(_) => {},
                }
            },
            JsonNode::Leaf(_) => {},
        }
    }
}

/// Whether `b` is `a` with the node at `path` replaced by `x`.
pub open spec fn replaced_at(a: JsonNode, b: JsonNode, path: Seq<SegmentView>, x: JsonNode) -> bool
    decreases path.len(),
{
    if path.len() == 0 {
        b == x
    } else {
        match a {
            JsonNode::Object { children: ca, children_visible: va } => match path[0] {
                SegmentView::Key(k) => match key_index(ca@, k) {
                    Some(i) => {
                        &&& b is Object
                        &&& b->Object_children_visible == va
                        &&& b->Object_children@.len() == ca@.len()
                        &&& forall|j: int|
                            0 <= j < ca@.len() && j != i ==> #[trigger] b->Object_children@[j]
                                == ca@[j]
                        &&& b->Object_children@[i].0 == ca@[i].0
                        &&& replaced_at(ca@[i].1, b->Object_children@[i].1, path.skip(1), x)
                    },
                    None => false,
                },
                SegmentView::Index(_) => false,
            },
            JsonNode::Array { children: ca, children_visible: va } => match path[0] {
                SegmentView::Index(n) => {
                    &&& n < ca@.len()
                    &&& b is Array
                    &&& b->Array_children_visible == va
                    &&& b->Array_children@.len() == ca@.len()
                    &&& forall|j: int|
                        0 <= j < ca@.len() && j != n ==> #[trigger] b->Array_children@[j] == ca@[j]
                    &&& replaced_at(ca@[n as int], b->Array_children@[n as int], path.skip(1), x)
                },
                SegmentView::Key(_) => false,
            },
            JsonNode::Leaf(_) => false,
        }
    }
}

fn get_mut_from<'a>(node: &'a mut JsonNode, path: &JsonPath, i: usize) -> (r: &'a mut JsonNode)
    requires
        i <= path@.len(),
        node_at(*old(node), path_view(path@).skip(i as int)) is Some,
    ensures
        node_at(*old(node), path_view(path@).skip(i as int)) == Some(*r),
        replaced_at(*old(node), *final(node), path_view(path@).skip(i as int), *final(r)),
    decreases path@.len() - i,
{
    if i == path.len() {
        return node;
    }
    let ghost pv = path_view(path@).skip(i as int);
    assert(pv[0] == path@[i as int]@);
    assert(pv.skip(1) =~= path_view(path@).skip(i + 1));
    let seg = &path[i];
    assert(*seg == path@[i as int]);
    let step: usize = match &*node {
        JsonNode::Object { children, .. } => match seg {
            JsonPathSegment::Key(k) => match find_key(children, k) {
                Some(j) => j,
                None => 0,
            },
            JsonPathSegment::Index(_) => 0,
        },
        JsonNode::Array { .. } => match seg {
            JsonPathSegment::Index(n) => *n,
            JsonPathSegment::Key(_) => 0,
        },
        JsonNode::Leaf(_) => 0,
    };
    match node {
        JsonNode::Object { children, .. } => get_mut_from(&mut children[step].1, path, i + 1),
        JsonNode::Array { children, .. } => get_mut_from(&mut children[step], path, i + 1),
        JsonNode::Leaf(_) => node,
    }
}

impl JsonNode {
    /// The node that `path` reaches, if any, to be changed in place; the tree
    /// afterwards is the same but for the changed node at `path`.
    pub fn get_mut(&mut self, path: &JsonPath) -> (r: Option<&mut JsonNode>)
        ensures
            node_at(*old(self), path_view(path@)) is Some <==> r is Some,
            r matches Some(n) ==> node_at(*old(self), path_view(path@)) == Some(*n) && replaced_at(
                *old(self),
                *final(self),
                path_view(path@),
                *final(n),
            ),
            r is None ==> *final(self) == *old(self),
    {
        assert(path_view(path@).skip(0) =~= path_view(path@));
        if self.get(path).is_none() {
            return None;
        }
        Some(get_mut_from(self, path, 0))
    }

    /// The node that `path` reaches, if any.
    pub fn get(&self, path: &JsonPath) -> (r: Option<&JsonNode>)
        ensures
            node_at(*self, path_view(path@)) is Some <==> r is Some,
            r matches Some(n) ==> node_at(*self, path_view(path@)) == Some(*n),
    {
        let ghost pv = path_view(path@);
        let mut node: &JsonNode = self;
        let mut i: usize = 0;
        assert(pv.skip(0) =~= pv);
        while i < path.len()
            invariant
                i <= path@.len(),
                pv == path_view(path@),
                node_at(*self, pv) == node_at(*node, pv.skip(i as int)),
            decreases path@.len() - i,
        {
            let ghost rest = pv.skip(i as int);
            let ghost prev = *node;
            assert(rest[0] == path@[i as int]@);
            assert(rest.skip(1) =~= pv.skip(i + 1));
            let seg = &path[i];
            assert(*seg == path@[i as int]);
            match node {
                JsonNode::Object { children, .. } => {
                    match seg {
                        JsonPathSegment::Key(k) => {
                            match find_key(children, k) {
                                Some(j) => {
                                    node = &children[j].1;
                                    assert(node_at(prev, rest) == node_at(*node, rest.skip(1)));
                                },
                                None => {
                                    return None;
                                },
                            }
                        },
                        JsonPathSegment::Index(_) => {
                            return None;
                        },
                    }
                },
                JsonNode::Array { children, .. } => {
                    match seg {
                        JsonPathSegment::Index(n) => {
                            if *n < children.len() {
                                node = &children[*n];
                                assert(node_at(prev, rest) == node_at(*node, rest.skip(1)));
                            } else {
                                return None;
                            }
                        },
                        JsonPathSegment::Key(_) => {
                            return None;
                        },
                    }
                },
                JsonNode::Leaf(_) => {
                    return None;
                },
            }
            i = i + 1;
        }
        assert(pv.skip(i as int).len() == 0);
        Some(node)
    }

    /// Flips the visibility of the container that `path` reaches; a path that
    /// reaches a leaf or nothing changes nothing.
    pub fn toggle(&mut self, path: &JsonPath)
        ensures
            toggled(*old(self), *final(self), path_view(path@)),
    {
        toggle_from(self, path, 0);
        assert(path_view(path@).skip(0) =~= path_view(path@));
    }
}

} // verus!

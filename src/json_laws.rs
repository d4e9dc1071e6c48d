//! Laws of the JSON tree: folding is undone by folding again, and the last
//! child of a container is always followed by the end of that container.

use crate::json::{
    flatten_entries, flatten_items, flatten_node, key_index, last_key, toggled, JsonNode, RowView,
    SegmentView,
};
use vstd::prelude::*;

verus! {

/// Which entry a key finds depends on the keys alone.
proof fn lemma_key_index_keys(s1: Seq<(String, JsonNode)>, s2: Seq<(String, JsonNode)>, k: Seq<char>)
    requires
        s1.len() == s2.len(),
        forall|j: int| 0 <= j < s1.len() ==> #[trigger] s1[j].0@ == s2[j].0@,
    ensures
        key_index(s1, k) == key_index(s2, k),
    decreases s1.len(),
{
    if s1.len() > 0 {
        assert(s1[0].0@ == s2[0].0@);
        assert forall|j: int| 0 <= j < s1.skip(1).len() implies #[trigger] s1.skip(1)[j].0@ == s2.skip(
            1,
        )[j].0@ by {
            assert(s1.skip(1)[j] == s1[j + 1]);
            assert(s2.skip(1)[j] == s2[j + 1]);
        }
        lemma_key_index_keys(s1.skip(1), s2.skip(1), k);
    }
}

/// `key_index` finds an entry of the object.
proof fn lemma_key_index_bound(s: Seq<(String, JsonNode)>, k: Seq<char>)
    ensures
        key_index(s, k) matches Some(i) ==> 0 <= i < s.len(),
    decreases s.len(),
{
    if s.len() > 0 {
        lemma_key_index_bound(s.skip(1), k);
    }
}

/// Objects whose entries have the same keys and children with the same rows
/// give the same rows.
proof fn lemma_entries_congruent(
    s1: Seq<(String, JsonNode)>,
    s2: Seq<(String, JsonNode)>,
    k: int,
    path: Seq<SegmentView>,
    indent: nat,
)
    requires
        s1.len() == s2.len(),
        forall|j: int| 0 <= j < s1.len() ==> #[trigger] s1[j].0@ == s2[j].0@,
        forall|j: int, q: Seq<SegmentView>, l: bool, d: nat|
            0 <= j < s1.len() ==> #[trigger] flatten_node(s1[j].1, q, l, d) == flatten_node(
                s2[j].1,
                q,
                l,
                d,
            ),
    ensures
        flatten_entries(s1, k, path, indent) == flatten_entries(s2, k, path, indent),
    decreases k,
{
    if 0 < k <= s1.len() {
        lemma_entries_congruent(s1, s2, k - 1, path, indent);
        let q = path.push(SegmentView::Key(s1[k - 1].0@));
        assert(flatten_node(s1[k - 1].1, q, k == s1.len(), indent) == flatten_node(
            s2[k - 1].1,
            q,
            k == s1.len(),
            indent,
        ));
    }
}

/// Arrays whose items have the same rows give the same rows.
proof fn lemma_items_congruent(
    s1: Seq<JsonNode>,
    s2: Seq<JsonNode>,
    k: int,
    path: Seq<SegmentView>,
    indent: nat,
)
    requires
        s1.len() == s2.len(),
        forall|j: int, q: Seq<SegmentView>, l: bool, d: nat|
            0 <= j < s1.len() ==> #[trigger] flatten_node(s1[j], q, l, d) == flatten_node(
                s2[j],
                q,
                l,
                d,
            ),
    ensures
        flatten_items(s1, k, path, indent) == flatten_items(s2, k, path, indent),
    decreases k,
{
    if 0 < k <= s1.len() {
        lemma_items_congruent(s1, s2, k - 1, path, indent);
        let q = path.push(SegmentView::Index((k - 1) as usize));
        assert(flatten_node(s1[k - 1], q, k == s1.len(), indent) == flatten_node(
            s2[k - 1],
            q,
            k == s1.len(),
            indent,
        ));
    }
}

/// Toggling the same path twice leaves the flattened rows as they were, from
/// any position in a larger tree.
pub proof fn lemma_toggle_twice_rows(a: JsonNode, b: JsonNode, c: JsonNode, p: Seq<SegmentView>)
    requires
        toggled(a, b, p),
        toggled(b, c, p),
    ensures
        forall|q: Seq<SegmentView>, l: bool, d: nat|
            #[trigger] flatten_node(a, q, l, d) == flatten_node(c, q, l, d),
    decreases p.len(),
{
    if p.len() == 0 {
        assert(c == a);
    } else {
        match a {
            JsonNode::Object { children: ca, children_visible: va } => {
                match p[0] {
                    SegmentView::Key(k) => {
                        match key_index(ca@, k) {
                            Some(i) => {
                                lemma_key_index_bound(ca@, k);
                                let cb = b->Object_children@;
                                assert forall|j: int| 0 <= j < ca@.len() implies #[trigger] ca@[j].0@
                                    == cb[j].0@ by {
                                    if j != i {
                                        assert(cb[j] == ca@[j]);
                                    }
                                }
                                lemma_key_index_keys(ca@, cb, k);
                                let cc = c->Object_children@;
                                lemma_toggle_twice_rows(ca@[i].1, cb[i].1, cc[i].1, p.skip(1));
                                assert forall|j: int| 0 <= j < ca@.len() implies #[trigger] ca@[j].0@
                                    == cc[j].0@ by {
                                    if j != i {
                                        assert(cc[j] == cb[j]);
                                        assert(cb[j] == ca@[j]);
                                    }
                                }
                                assert forall|j: int, q: Seq<SegmentView>, l: bool, d: nat|
                                    0 <= j < ca@.len() implies #[trigger] flatten_node(ca@[j].1, q, l, d)
                                    == flatten_node(cc[j].1, q, l, d) by {
                                    if j != i {
                                        assert(cc[j] == cb[j]);
                                        assert(cb[j] == ca@[j]);
                                    } else {
                                        assert(flatten_node(ca@[i].1, q, l, d) == flatten_node(
                                            cc[i].1,
                                            q,
                                            l,
                                            d,
                                        ));
                                    }
                                }
                                assert forall|q: Seq<SegmentView>, l: bool, d: nat|
                                    #[trigger] flatten_node(a, q, l, d) == flatten_node(c, q, l, d) by {
                                    lemma_entries_congruent(ca@, cc, ca@.len() as int, q, d + 1);
                                }
                            },
                            None => {},
                        }
                    },
                    SegmentView::Index(_) => {},
                }
            },
            JsonNode::Array { children: ca, children_visible: va } => {
                match p[0] {
                    SegmentView::Index(n) => {
                        if n < ca@.len() {
                            let cb = b->Array_children@;
                            let cc = c->Array_children@;
                            lemma_toggle_twice_rows(ca@[n as int], cb[n as int], cc[n as int], p.skip(1));
                            assert forall|j: int, q: Seq<SegmentView>, l: bool, d: nat|
                                0 <= j < ca@.len() implies #[trigger] flatten_node(ca@[j], q, l, d)
                                == flatten_node(cc[j], q, l, d) by {
                                if j != n {
                                    assert(cc[j] == cb[j]);
                                    assert(cb[j] == ca@[j]);
                                } else {
                                    assert(flatten_node(ca@[n as int], q, l, d) == flatten_node(
                                        cc[n as int],
                                        q,
                                        l,
                                        d,
                                    ));
                                }
                            }
                            assert forall|q: Seq<SegmentView>, l: bool, d: nat|
                                #[trigger] flatten_node(a, q, l, d) == flatten_node(c, q, l, d) by {
                                lemma_items_congruent(ca@, cc, ca@.len() as int, q, d + 1);
                            }
                        }
                    },
                    SegmentView::Key(_) => {},
                }
            },
            JsonNode::Leaf(_) => {},
        }
    }
}

/// Toggling the same path twice leaves `flatten_visibles` unchanged.
pub proof fn lemma_toggle_twice(a: JsonNode, b: JsonNode, c: JsonNode, p: Seq<SegmentView>)
    requires
        toggled(a, b, p),
        toggled(b, c, p),
    ensures
        flatten_node(c, Seq::empty(), true, 0) == flatten_node(a, Seq::empty(), true, 0),
{
    lemma_toggle_twice_rows(a, b, c, p);
    assert(flatten_node(a, Seq::empty(), true, 0) == flatten_node(c, Seq::empty(), true, 0));
}


/// Whether a row is marked as the final child of its parent; start rows carry
/// no such mark.
pub open spec fn row_is_last(r: RowView) -> bool {
    match r {
        RowView::MapStart { .. } => false,
        RowView::ArrayStart { .. } => false,
        RowView::MapEnd { is_last, .. } => is_last,
        RowView::MapFolded { is_last, .. } => is_last,
        RowView::MapEntry { is_last, .. } => is_last,
        RowView::ArrayEnd { is_last, .. } => is_last,
        RowView::ArrayFolded { is_last, .. } => is_last,
        RowView::ArrayEntry { is_last, .. } => is_last,
    }
}

/// The depth of a row.
pub open spec fn row_indent(r: RowView) -> nat {
    match r {
        RowView::MapStart { indent, .. } => indent,
        RowView::ArrayStart { indent, .. } => indent,
        RowView::MapEnd { indent, .. } => indent,
        RowView::MapFolded { indent, .. } => indent,
        RowView::MapEntry { indent, .. } => indent,
        RowView::ArrayEnd { indent, .. } => indent,
        RowView::ArrayFolded { indent, .. } => indent,
        RowView::ArrayEntry { indent, .. } => indent,
    }
}

/// Whether a row closes a container.
pub open spec fn row_closes(r: RowView) -> bool {
    r is MapEnd || r is ArrayEnd
}

/// Every row marked last is followed, if by anything, by the end row of its
/// parent one level up, so never by a sibling.
pub open spec fn last_rows_close(rows: Seq<RowView>) -> bool {
    forall|k: int|
        0 <= k < rows.len() - 1 && #[trigger] row_is_last(rows[k]) ==> row_closes(rows[k + 1])
            && row_indent(rows[k + 1]) + 1 == row_indent(rows[k])
}

proof fn lemma_close_concat(a: Seq<RowView>, b: Seq<RowView>)
    requires
        last_rows_close(a),
        last_rows_close(b),
        a.len() > 0 && b.len() > 0 && row_is_last(a.last()) ==> row_closes(b[0]) && row_indent(b[0])
            + 1 == row_indent(a.last()),
    ensures
        last_rows_close(a + b),
{
    let ab = a + b;
    assert forall|k: int| 0 <= k < ab.len() - 1 && #[trigger] row_is_last(ab[k]) implies row_closes(
        ab[k + 1],
    ) && row_indent(ab[k + 1]) + 1 == row_indent(ab[k]) by {
        if k < a.len() - 1 {
            assert(ab[k] == a[k] && ab[k + 1] == a[k + 1]);
        } else if k == a.len() - 1 {
            assert(ab[k] == a.last() && ab[k + 1] == b[0]);
        } else {
            assert(ab[k] == b[k - a.len()] && ab[k + 1] == b[k - a.len() + 1]);
        }
    }
}

/// The rows of a node end with a row at its depth that carries its mark, and
/// every row marked last is followed by the end of its parent.
proof fn lemma_node_rows_close(node: JsonNode, path: Seq<SegmentView>, is_last: bool, indent: nat)
    ensures
        flatten_node(node, path, is_last, indent).len() > 0,
        row_is_last(flatten_node(node, path, is_last, indent).last()) == is_last,
        row_indent(flatten_node(node, path, is_last, indent).last()) == indent,
        last_rows_close(flatten_node(node, path, is_last, indent)),
    decreases node, 0nat,
{
    match node {
        JsonNode::Object { children, children_visible } => {
            if children_visible {
                let start = seq![RowView::MapStart { key: last_key(path), path, indent }];
                let body = flatten_entries(children@, children@.len() as int, path, indent + 1);
                let end = seq![RowView::MapEnd { is_last, indent }];
                lemma_entries_rows_close(children@, children@.len() as int, path, indent + 1);
                lemma_close_concat(start, body);
                if body.len() > 0 {
                    assert((start + body).last() == body.last());
                } else {
                    assert(start + body =~= start);
                }
                lemma_close_concat(start + body, end);
            }
        },
        JsonNode::Array { children, children_visible } => {
            if children_visible {
                let start = seq![RowView::ArrayStart { key: last_key(path), path, indent }];
                let body = flatten_items(children@, children@.len() as int, path, indent + 1);
                let end = seq![RowView::ArrayEnd { is_last, indent }];
                lemma_items_rows_close(children@, children@.len() as int, path, indent + 1);
                lemma_close_concat(start, body);
                if body.len() > 0 {
                    assert((start + body).last() == body.last());
                } else {
                    assert(start + body =~= start);
                }
                lemma_close_concat(start + body, end);
            }
        },
        JsonNode::Leaf(_) => {},
    }
}

proof fn lemma_entries_rows_close(
    entries: Seq<(String, JsonNode)>,
    k: int,
    path: Seq<SegmentView>,
    indent: nat,
)
    requires
        0 <= k <= entries.len(),
    ensures
        last_rows_close(flatten_entries(entries, k, path, indent)),
        k > 0 ==> flatten_entries(entries, k, path, indent).len() > 0 && row_is_last(
            flatten_entries(entries, k, path, indent).last(),
        ) == (k == entries.len()) && row_indent(flatten_entries(entries, k, path, indent).last())
            == indent,
    decreases entries, k,
{
    if k > 0 {
        lemma_entries_rows_close(entries, k - 1, path, indent);
        let q = path.push(SegmentView::Key(entries[k - 1].0@));
        lemma_node_rows_close(entries[k - 1].1, q, k == entries.len(), indent);
        let a = flatten_entries(entries, k - 1, path, indent);
        let b = flatten_node(entries[k - 1].1, q, k == entries.len(), indent);
        lemma_close_concat(a, b);
        assert((a + b).last() == b.last());
    }
}

proof fn lemma_items_rows_close(items: Seq<JsonNode>, k: int, path: Seq<SegmentView>, indent: nat)
    requires
        0 <= k <= items.len(),
    ensures
        last_rows_close(flatten_items(items, k, path, indent)),
        k > 0 ==> flatten_items(items, k, path, indent).len() > 0 && row_is_last(
            flatten_items(items, k, path, indent).last(),
        ) == (k == items.len()) && row_indent(flatten_items(items, k, path, indent).last())
            == indent,
    decreases items, k,
{
    if k > 0 {
        lemma_items_rows_close(items, k - 1, path, indent);
        let q = path.push(SegmentView::Index((k - 1) as usize));
        lemma_node_rows_close(items[k - 1], q, k == items.len(), indent);
        let a = flatten_items(items, k - 1, path, indent);
        let b = flatten_node(items[k - 1], q, k == items.len(), indent);
        lemma_close_concat(a, b);
        assert((a + b).last() == b.last());
    }
}

/// In the rows of `flatten_visibles`, a row marked as the last child of its
/// parent is followed only by the end row of that parent, one level up, and
/// never by a row of a sibling at its own depth.
pub proof fn lemma_last_row_closes_parent(node: JsonNode)
    ensures
        last_rows_close(flatten_node(node, Seq::empty(), true, 0)),
{
    lemma_node_rows_close(node, Seq::empty(), true, 0);
}

} // verus!

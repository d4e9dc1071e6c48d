//! A generic collapsible tree of named nodes, addressed by paths of child
//! indices and flattened into rows of folded and unfolded items.

use vstd::prelude::*;

verus! {

/// A path from the root: the index of the child taken at each level.
pub type Path = Vec<usize>;

/// One row of the flattened tree: an unfolded inner node, or a folded inner
/// node or leaf.
#[derive(Clone, Debug, PartialEq, Eq)]
pub enum Kind {
    Folded { id: String, path: Path },
    Unfolded { id: String, path: Path },
}

/// The mathematical value of a row.
pub enum KindView {
    Folded { id: Seq<char>, path: Seq<usize> },
    Unfolded { id: Seq<char>, path: Seq<usize> },
}

impl View for Kind {
    type V = KindView;

    open spec fn view(&self) -> KindView {
        match self {
            Kind::Folded { id, path } => KindView::Folded { id: id@, path: path@ },
            Kind::Unfolded { id, path } => KindView::Unfolded { id: id@, path: path@ },
        }
    }
}

/// The mathematical value of a sequence of rows.
pub open spec fn kinds_view(rows: Seq<Kind>) -> Seq<KindView> {
    rows.map_values(|r: Kind| r@)
}

/// A node of the tree: an inner node with children that can be folded away,
/// or a leaf.
#[derive(Debug, PartialEq, Eq)]
pub enum Node {
    NonLeaf { id: String, children: Vec<Node>, children_visible: bool },
    Leaf(String),
}

/// The rows of `node`, reached by `path`: an unfolded inner node gives its own
/// row and then the rows of its children; anything else gives one folded row.
pub open spec fn flatten_tree(node: Node, path: Seq<usize>) -> Seq<KindView>
    decreases node, 0nat,
{
    match node {
        Node::NonLeaf { id, children, children_visible } => {
            if children_visible {
                seq![KindView::Unfolded { id: id@, path }] + flatten_children(
                    children@,
                    children@.len() as int,
                    path,
                )
            } else {
                seq![KindView::Folded { id: id@, path }]
            }
        },
        Node::Leaf(id) => seq![KindView::Folded { id: id@, path }],
    }
}

/// The rows of the first `k` children of the node at `path`.
pub open spec fn flatten_children(children: Seq<Node>, k: int, path: Seq<usize>) -> Seq<KindView>
    decreases children, k,
{
    if k <= 0 || k > children.len() {
        Seq::empty()
    } else {
        flatten_children(children, k - 1, path) + flatten_tree(
            children[k - 1],
            path.push((k - 1) as usize),
        )
    }
}

/// The node that `path` reaches from `node`.
pub open spec fn subtree_at(node: Node, path: Seq<usize>) -> Option<Node>
    decreases path.len(),
{
    if path.len() == 0 {
        Some(node)
    } else {
        match node {
            Node::NonLeaf { children, .. } => if path[0] < children@.len() {
                subtree_at(children@[path[0] as int], path.skip(1))
            } else {
                None
            },
            Node::Leaf(_) => None,
        }
    }
}

/// The ids of the nodes that following `path` from `node` passes through,
/// stopping at a leaf or at an index with no child.
pub open spec fn waypoints(node: Node, path: Seq<usize>) -> Seq<Seq<char>>
    decreases path.len(),
{
    if path.len() == 0 {
        Seq::empty()
    } else {
        match node {
            Node::NonLeaf { id, children, .. } => seq![id@] + if path[0] < children@.len() {
                waypoints(children@[path[0] as int], path.skip(1))
            } else {
                Seq::empty()
            },
            Node::Leaf(id) => seq![id@],
        }
    }
}

/// Whether `b` is `a` with the visibility of the inner node at `path`
/// flipped; where `path` reaches no inner node, `b` is `a`.
pub open spec fn tree_toggled(a: Node, b: Node, path: Seq<usize>) -> bool
    decreases path.len(),
{
    match a {
        Node::NonLeaf { id, children, children_visible } => if path.len() == 0 {
            b == (Node::NonLeaf { id, children, children_visible: !children_visible })
        } else if path[0] < children@.len() {
            &&& b is NonLeaf
            &&& b->NonLeaf_id == id
            &&& b->NonLeaf_children_visible == children_visible
            &&& b->NonLeaf_children@.len() == children@.len()
            &&& forall|j: int|
                0 <= j < children@.len() && j != path[0] ==> #[trigger] b->NonLeaf_children@[j]
                    == children@[j]
            &&& tree_toggled(
                children@[path[0] as int],
                b->NonLeaf_children@[path[0] as int],
                path.skip(1),
            )
        } else {
            b == a
        },
        Node::Leaf(_) => b == a,
    }
}

/// Whether `b` is `a` but for the node at `path`, which may differ.
pub open spec fn replaced_at(a: Node, b: Node, path: Seq<usize>) -> bool
    decreases path.len(),
{
    if path.len() == 0 {
        true
    } else {
        match a {
            Node::NonLeaf { id, children, children_visible } => {
                &&& b is NonLeaf
                &&& b->NonLeaf_id == id
                &&& b->NonLeaf_children_visible == children_visible
                &&& b->NonLeaf_children@.len() == children@.len()
                &&& path[0] < children@.len()
                &&& forall|j: int|
                    0 <= j < children@.len() && j != path[0] ==> #[trigger] b->NonLeaf_children@[j]
                        == children@[j]
                &&& replaced_at(
                    children@[path[0] as int],
                    b->NonLeaf_children@[path[0] as int],
                    path.skip(1),
                )
            },
            Node::Leaf(_) => false,
        }
    }
}

fn get_mut_from<'a>(node: &'a mut Node, path: &Path, i: usize) -> (r: &'a mut Node)
    requires
        i <= path@.len(),
        subtree_at(*old(node), path@.skip(i as int)) is Some,
    ensures
        subtree_at(*old(node), path@.skip(i as int)) == Some(*r),
        subtree_at(*final(node), path@.skip(i as int)) == Some(*final(r)),
        replaced_at(*old(node), *final(node), path@.skip(i as int)),
    decreases path@.len() - i,
{
    if i == path.len() {
        return node;
    }
    let ghost rest = path@.skip(i as int);
    let k = path[i];
    assert(rest[0] == k);
    assert(rest.skip(1) =~= path@.skip(i + 1));
    match node {
        Node::NonLeaf { children, .. } => get_mut_from(&mut children[k], path, i + 1),
        Node::Leaf(_) => node,
    }
}

/// A copy of a path.
fn copy_path(p: &Path) -> (r: Path)
    ensures
        r@ == p@,
{
    let mut r: Path = Vec::new();
    let mut i: usize = 0;
    while i < p.len()
        invariant
            i <= p@.len(),
            r@ == p@.subrange(0, i as int),
        decreases p@.len() - i,
    {
        r.push(p[i]);
        i = i + 1;
        assert(r@ =~= p@.subrange(0, i as int));
    }
    assert(p@.subrange(0, i as int) =~= p@);
    r
}

/// Appends the rows of `node` to `ret`.
fn flatten_tree_into(node: &Node, path: Path, ret: &mut Vec<Kind>)
    ensures
        kinds_view(final(ret)@) == kinds_view(old(ret)@) + flatten_tree(*node, path@),
    decreases node,
{
    let ghost ret0 = kinds_view(ret@);
    match node {
        Node::NonLeaf { id, children, children_visible } => {
            if *children_visible {
                ret.push(Kind::Unfolded { id: id.clone(), path: copy_path(&path) });
                let ghost head = ret0 + seq![KindView::Unfolded { id: id@, path: path@ }];
                assert(kinds_view(ret@) =~= head);
                let n = children.len();
                let mut i: usize = 0;
                while i < n
                    invariant
                        i <= n,
                        n == children@.len(),
                        *node == (Node::NonLeaf { id: *id, children: *children, children_visible: *children_visible }),
                        kinds_view(ret@) == head + flatten_children(children@, i as int, path@),
                    decreases n - i,
                {
                    let mut branch = copy_path(&path);
                    branch.push(i);
                    proof {
                        assert(decreases_to!(*node => node->NonLeaf_children));
                        assert(decreases_to!(node->NonLeaf_children => node->NonLeaf_children@));
                        assert(decreases_to!(node->NonLeaf_children@ => node->NonLeaf_children@[i as int]));
                    }
                    flatten_tree_into(&children[i], branch, ret);
                    i = i + 1;
                    assert(kinds_view(ret@) =~= head + flatten_children(children@, i as int, path@));
                }
                assert(kinds_view(ret@) =~= ret0 + flatten_tree(*node, path@));
            } else {
                ret.push(Kind::Folded { id: id.clone(), path });
                assert(kinds_view(ret@) =~= ret0 + flatten_tree(*node, path@));
            }
        },
        Node::Leaf(item) => {
            ret.push(Kind::Folded { id: item.clone(), path });
            assert(kinds_view(ret@) =~= ret0 + flatten_tree(*node, path@));
        },
    }
}

/// Flips the visibility of the inner node that `path` reaches from its
/// `i`-th step on.
fn toggle_tree_from(node: &mut Node, path: &Path, i: usize)
    requires
        i <= path@.len(),
    ensures
        tree_toggled(*old(node), *final(node), path@.skip(i as int)),
    decreases path@.len() - i,
{
    let ghost rest = path@.skip(i as int);
    match node {
        Node::NonLeaf { children, children_visible, .. } => {
            if i == path.len() {
                *children_visible = !*children_visible;
            } else {
                let k = path[i];
                assert(rest[0] == k);
                assert(rest.skip(1) =~= path@.skip(i + 1));
                if k < children.len() {
                    toggle_tree_from(&mut children[k], path, i + 1);
                }
            }
        },
        Node::Leaf(_) => {},
    }
}

impl Node {
    /// The rows of the visible part of the tree, depth first, from the root
    /// with an empty path.
    pub fn flatten_visibles(&self) -> (r: Vec<Kind>)
        ensures
            kinds_view(r@) == flatten_tree(*self, Seq::empty()),
    {
        let mut ret: Vec<Kind> = Vec::new();
        flatten_tree_into(self, Vec::new(), &mut ret);
        assert(kinds_view(ret@) =~= flatten_tree(*self, Seq::empty()));
        ret
    }

    /// Flips the visibility of the inner node that `path` reaches; a path
    /// that reaches a leaf or nothing changes nothing.
    pub fn toggle(&mut self, path: &Path)
        ensures
            tree_toggled(*old(self), *final(self), path@),
    {
        toggle_tree_from(self, path, 0);
        assert(path@.skip(0) =~= path@);
    }

    /// The ids of the nodes passed through when following `path` from the
    /// root, stopping at a leaf or at an index with no child.
    pub fn get_waypoints(&self, path: &Path) -> (r: Vec<String>)
        ensures
            r@.map_values(|s: String| s@) == waypoints(*self, path@),
    {
        let mut ids: Vec<String> = Vec::new();
        let mut node: &Node = self;
        let mut i: usize = 0;
        assert(path@.skip(0) =~= path@);
        while i < path.len()
            invariant
                i <= path@.len(),
                ids@.map_values(|s: String| s@) + waypoints(*node, path@.skip(i as int))
                    == waypoints(*self, path@),
            decreases path@.len() - i,
        {
            let ghost rest = path@.skip(i as int);
            let ghost prev = *node;
            let ghost ids0 = ids@.map_values(|s: String| s@);
            let index = path[i];
            assert(rest[0] == index);
            assert(rest.skip(1) =~= path@.skip(i + 1));
            match node {
                Node::NonLeaf { id, children, .. } => {
                    ids.push(id.clone());
                    assert(ids@.map_values(|s: String| s@) =~= ids0.push(id@));
                    if index < children.len() {
                        node = &children[index];
                        assert(waypoints(prev, rest) == seq![id@] + waypoints(*node, rest.skip(1)));
                        assert(ids0 + waypoints(prev, rest) =~= ids0.push(id@) + waypoints(*node, rest.skip(1)));
                    } else {
                        assert(ids0 + waypoints(prev, rest) =~= ids0.push(id@));
                        return ids;
                    }
                },
                Node::Leaf(id) => {
                    ids.push(id.clone());
                    assert(ids@.map_values(|s: String| s@) =~= ids0.push(id@));
                    assert(ids0 + waypoints(prev, rest) =~= ids0.push(id@));
                    return ids;
                },
            }
            i = i + 1;
        }
        assert(ids@.map_values(|s: String| s@) + waypoints(*node, path@.skip(i as int)) =~= ids@.map_values(|s: String| s@));
        ids
    }

    /// The node that `path` reaches, if any.
    pub fn get(&self, path: &Path) -> (r: Option<&Node>)
        ensures
            subtree_at(*self, path@) is Some <==> r is Some,
            r matches Some(n) ==> subtree_at(*self, path@) == Some(*n),
    {
        let mut node: &Node = self;
        let mut i: usize = 0;
        assert(path@.skip(0) =~= path@);
        while i < path.len()
            invariant
                i <= path@.len(),
                subtree_at(*self, path@) == subtree_at(*node, path@.skip(i as int)),
            decreases path@.len() - i,
        {
            let ghost rest = path@.skip(i as int);
            let index = path[i];
            assert(rest[0] == index);
            assert(rest.skip(1) =~= path@.skip(i + 1));
            match node {
                Node::NonLeaf { children, .. } => {
                    if index < children.len() {
                        node = &children[index];
                    } else {
                        return None;
                    }
                },
                Node::Leaf(_) => {
                    return None;
                },
            }
            i = i + 1;
        }
        assert(path@.skip(i as int).len() == 0);
        Some(node)
    }

    /// The node that `path` reaches, if any, to be changed in place; the tree
    /// afterwards holds the changed node at `path` and is otherwise the same.
    pub fn get_mut(&mut self, path: &Path) -> (r: Option<&mut Node>)
        ensures
            subtree_at(*old(self), path@) is Some <==> r is Some,
            r matches Some(n) ==> subtree_at(*old(self), path@) == Some(*n) && subtree_at(
                *final(self),
                path@,
            ) == Some(*final(n)) && replaced_at(*old(self), *final(self), path@),
            r is None ==> *final(self) == *old(self),
    {
        assert(path@.skip(0) =~= path@);
        if self.get(path).is_none() {
            return None;
        }
        Some(get_mut_from(self, path, 0))
    }
}

} // verus!

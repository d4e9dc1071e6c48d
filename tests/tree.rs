use promkit::tree::{Kind, Node};

fn create_test_node() -> Node {
    Node::NonLeaf {
        id: "root".into(),
        children: vec![
            Node::NonLeaf {
                id: "a".into(),
                children: vec![Node::Leaf("aa".into()), Node::Leaf("ab".into())],
                children_visible: true,
            },
            Node::Leaf("b".into()),
            Node::Leaf("c".into()),
        ],
        children_visible: true,
    }
}

fn as_nonleaf(node: &Node) -> Option<(&String, &Vec<Node>, bool)> {
    match node {
        Node::NonLeaf {
            id,
            children,
            children_visible,
        } => Some((id, children, *children_visible)),
        _ => None,
    }
}

#[test]
fn node_test() {
    let mut node = create_test_node();
    node.toggle(&vec![]);
    assert!(!as_nonleaf(node.get(&vec![]).unwrap()).unwrap().2);
}

#[test]
fn node_test_flatten_visibles() {
    let node = create_test_node();
    assert_eq!(
        vec![
            Kind::Unfolded {
                id: "root".into(),
                path: vec![],
            },
            Kind::Unfolded {
                id: "a".into(),
                path: vec![0],
            },
            Kind::Folded {
                id: "aa".into(),
                path: vec![0, 0],
            },
            Kind::Folded {
                id: "ab".into(),
                path: vec![0, 1],
            },
            Kind::Folded {
                id: "b".into(),
                path: vec![1],
            },
            Kind::Folded {
                id: "c".into(),
                path: vec![2],
            },
        ],
        node.flatten_visibles(),
    );
}

#[test]
fn node_test_after_toggle() {
    let mut node = create_test_node();
    node.toggle(&vec![]);
    assert_eq!(
        vec![Kind::Folded {
            id: "root".into(),
            path: vec![],
        },],
        node.flatten_visibles(),
    );
}

#[test]
fn tree_waypoints_follow_the_path() {
    let node = create_test_node();
    assert_eq!(node.get_waypoints(&vec![0, 1]), vec!["root", "a"]);
    assert_eq!(node.get_waypoints(&vec![0, 1, 5]), vec!["root", "a", "ab"]);
    assert_eq!(node.get_waypoints(&vec![7]), vec!["root"]);
    assert_eq!(node.get_waypoints(&vec![]), Vec::<String>::new());
}

#[test]
fn tree_get_misses_out_of_range() {
    let node = create_test_node();
    assert_eq!(node.get(&vec![0, 1]), Some(&Node::Leaf("ab".into())));
    assert_eq!(node.get(&vec![3]), None);
    assert_eq!(node.get(&vec![1, 0]), None);
}

#[test]
fn tree_toggle_inner_node_and_back() {
    let mut node = create_test_node();
    let before = node.flatten_visibles();
    node.toggle(&vec![0]);
    assert_eq!(node.flatten_visibles().len(), 4);
    node.toggle(&vec![0]);
    assert_eq!(node.flatten_visibles(), before);
    node.toggle(&vec![1]);
    assert_eq!(node.flatten_visibles(), before);
}

#[test]
fn tree_get_mut_changes_in_place() {
    let mut node = create_test_node();
    if let Some(n) = node.get_mut(&vec![0, 1]) {
        *n = Node::Leaf("changed".into());
    }
    assert_eq!(node.get(&vec![0, 1]), Some(&Node::Leaf("changed".into())));
    assert!(node.get_mut(&vec![0, 5]).is_none());
    assert!(node.get_mut(&vec![1, 0]).is_none());
}

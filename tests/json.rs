use promkit::json::{JsonNode, JsonPathSegment, JsonSyntaxKind};
use serde_json::{Number, Value};

const JSON_STR: &str = r#"
    {
        "number": 1,
        "map": {
          "string1": "aaa",
          "string2": "bbb"
        },
        "list": [
          "abc",
          "def"
        ],
        "map_in_map": {
          "nested": {
            "leaf": "eof"
          }
        },
        "map_in_list": [
          {
            "map1": 1
          },
          {
            "map2": 2
          }
        ]
    }"#;

fn node_from(value: Value) -> JsonNode {
    match value {
        Value::Object(map) => JsonNode::Object {
            children: map.into_iter().map(|(k, v)| (k, node_from(v))).collect(),
            children_visible: true,
        },
        Value::Array(vec) => JsonNode::Array {
            children: vec.into_iter().map(node_from).collect(),
            children_visible: true,
        },
        other => JsonNode::Leaf(other),
    }
}

fn parse(s: &str) -> JsonNode {
    node_from(serde_json::from_str(s).unwrap())
}

fn key(s: &str) -> JsonPathSegment {
    JsonPathSegment::Key(s.to_string())
}

fn as_object(node: &JsonNode) -> Option<(&Vec<(String, JsonNode)>, bool)> {
    if let JsonNode::Object {
        children,
        children_visible,
    } = node
    {
        Some((children, *children_visible))
    } else {
        None
    }
}

#[test]
fn json_node_test_after_toggle() {
    let mut node = parse(JSON_STR);
    node.toggle(&vec![]);
    assert_eq!(
        vec![JsonSyntaxKind::MapFolded {
            key: None,
            path: vec![],
            is_last: true,
            indent: 0,
        }],
        node.flatten_visibles(),
    );
}

#[test]
fn test_string() {
    let mut node = parse("\"string\"");
    node.toggle(&vec![]);
    assert_eq!(
        vec![JsonSyntaxKind::ArrayEntry {
            v: Value::String("string".to_string()),
            path: vec![],
            is_last: true,
            indent: 0,
        },],
        node.flatten_visibles(),
    );
}

#[test]
fn json_node_test() {
    let node = parse(JSON_STR);
    assert_eq!(
        vec![
            JsonSyntaxKind::MapStart { key: None, path: vec![], indent: 0 },
            JsonSyntaxKind::MapEntry {
                kv: ("number".to_string(), Value::Number(Number::from(1))),
                path: vec![key("number")],
                is_last: false,
                indent: 1,
            },
            JsonSyntaxKind::MapStart { key: Some("map".to_string()), path: vec![key("map")], indent: 1 },
            JsonSyntaxKind::MapEntry {
                kv: ("string1".to_string(), Value::String("aaa".to_string())),
                path: vec![key("map"), key("string1")],
                is_last: false,
                indent: 2,
            },
            JsonSyntaxKind::MapEntry {
                kv: ("string2".to_string(), Value::String("bbb".to_string())),
                path: vec![key("map"), key("string2")],
                is_last: true,
                indent: 2,
            },
            JsonSyntaxKind::MapEnd { is_last: false, indent: 1 },
            JsonSyntaxKind::ArrayStart { key: Some("list".to_string()), path: vec![key("list")], indent: 1 },
            JsonSyntaxKind::ArrayEntry {
                v: Value::String("abc".to_string()),
                path: vec![key("list"), JsonPathSegment::Index(0)],
                is_last: false,
                indent: 2,
            },
            JsonSyntaxKind::ArrayEntry {
                v: Value::String("def".to_string()),
                path: vec![key("list"), JsonPathSegment::Index(1)],
                is_last: true,
                indent: 2,
            },
            JsonSyntaxKind::ArrayEnd { is_last: false, indent: 1 },
            JsonSyntaxKind::MapStart {
                key: Some("map_in_map".to_string()),
                path: vec![key("map_in_map")],
                indent: 1,
            },
            JsonSyntaxKind::MapStart {
                key: Some("nested".to_string()),
                path: vec![key("map_in_map"), key("nested")],
                indent: 2,
            },
            JsonSyntaxKind::MapEntry {
                kv: ("leaf".to_string(), Value::String("eof".to_string())),
                path: vec![key("map_in_map"), key("nested"), key("leaf")],
                is_last: true,
                indent: 3,
            },
            JsonSyntaxKind::MapEnd { is_last: true, indent: 2 },
            JsonSyntaxKind::MapEnd { is_last: false, indent: 1 },
            JsonSyntaxKind::ArrayStart {
                key: Some("map_in_list".to_string()),
                path: vec![key("map_in_list")],
                indent: 1,
            },
            JsonSyntaxKind::MapStart {
                key: None,
                path: vec![key("map_in_list"), JsonPathSegment::Index(0)],
                indent: 2,
            },
            JsonSyntaxKind::MapEntry {
                kv: ("map1".to_string(), Value::Number(Number::from(1))),
                path: vec![key("map_in_list"), JsonPathSegment::Index(0), key("map1")],
                is_last: true,
                indent: 3,
            },
            JsonSyntaxKind::MapEnd { is_last: false, indent: 2 },
            JsonSyntaxKind::MapStart {
                key: None,
                path: vec![key("map_in_list"), JsonPathSegment::Index(1)],
                indent: 2,
            },
            JsonSyntaxKind::MapEntry {
                kv: ("map2".to_string(), Value::Number(Number::from(2))),
                path: vec![key("map_in_list"), JsonPathSegment::Index(1), key("map2")],
                is_last: true,
                indent: 3,
            },
            JsonSyntaxKind::MapEnd { is_last: true, indent: 2 },
            JsonSyntaxKind::ArrayEnd { is_last: true, indent: 1 },
            JsonSyntaxKind::MapEnd { is_last: true, indent: 0 },
        ],
        node.flatten_visibles(),
    );
}

#[test]
fn json_node_test_toggle() {
    let mut node = parse(JSON_STR);
    node.toggle(&vec![key("map")]);
    assert!(!as_object(node.get(&vec![key("map")]).unwrap()).unwrap().1);
}

#[test]
fn json_node_test_get() {
    let node = parse(JSON_STR);
    let same = parse(JSON_STR);
    assert_eq!(Some(&same), node.get(&vec![]));
}

#[test]
fn json_node_test_with_invalid_path() {
    let node = parse(JSON_STR);
    assert_eq!(
        None,
        node.get(&vec![key("map"), key("invalid_segment")])
    );
}

#[test]
fn json_get_reaches_array_items() {
    let node = parse(JSON_STR);
    assert_eq!(
        node.get(&vec![key("list"), JsonPathSegment::Index(1)]),
        Some(&JsonNode::Leaf(Value::String("def".to_string())))
    );
    assert_eq!(node.get(&vec![key("list"), JsonPathSegment::Index(2)]), None);
    assert_eq!(node.get(&vec![key("list"), key("abc")]), None);
}

#[test]
fn json_collapse_scenario() {
    let mut node = parse(r#"{"a":{"b":1},"c":[2,3]}"#);
    node.toggle(&vec![key("a")]);
    assert_eq!(
        node.flatten_visibles(),
        vec![
            JsonSyntaxKind::MapStart { key: None, path: vec![], indent: 0 },
            JsonSyntaxKind::MapFolded {
                key: Some("a".to_string()),
                path: vec![key("a")],
                is_last: false,
                indent: 1,
            },
            JsonSyntaxKind::ArrayStart { key: Some("c".to_string()), path: vec![key("c")], indent: 1 },
            JsonSyntaxKind::ArrayEntry {
                v: Value::Number(Number::from(2)),
                path: vec![key("c"), JsonPathSegment::Index(0)],
                is_last: false,
                indent: 2,
            },
            JsonSyntaxKind::ArrayEntry {
                v: Value::Number(Number::from(3)),
                path: vec![key("c"), JsonPathSegment::Index(1)],
                is_last: true,
                indent: 2,
            },
            JsonSyntaxKind::ArrayEnd { is_last: true, indent: 1 },
            JsonSyntaxKind::MapEnd { is_last: true, indent: 0 },
        ]
    );
}

#[test]
fn json_toggle_twice_keeps_rows() {
    let mut node = parse(JSON_STR);
    let before = node.flatten_visibles();
    for path in [
        vec![],
        vec![key("map")],
        vec![key("map_in_list"), JsonPathSegment::Index(1)],
        vec![key("number")],
        vec![key("missing")],
    ] {
        node.toggle(&path);
        node.toggle(&path);
        assert_eq!(node.flatten_visibles(), before);
    }
}

#[test]
fn json_last_rows_are_followed_by_ends() {
    let node = parse(JSON_STR);
    let rows = node.flatten_visibles();
    let last_and_indent = |r: &JsonSyntaxKind| match r {
        JsonSyntaxKind::MapStart { .. } | JsonSyntaxKind::ArrayStart { .. } => None,
        JsonSyntaxKind::MapEnd { is_last, indent }
        | JsonSyntaxKind::ArrayEnd { is_last, indent }
        | JsonSyntaxKind::MapFolded { is_last, indent, .. }
        | JsonSyntaxKind::ArrayFolded { is_last, indent, .. }
        | JsonSyntaxKind::MapEntry { is_last, indent, .. }
        | JsonSyntaxKind::ArrayEntry { is_last, indent, .. } => Some((*is_last, *indent)),
    };
    for k in 0..rows.len() - 1 {
        if let Some((true, indent)) = last_and_indent(&rows[k]) {
            match &rows[k + 1] {
                JsonSyntaxKind::MapEnd { indent: i, .. } | JsonSyntaxKind::ArrayEnd { indent: i, .. } => {
                    assert_eq!(*i + 1, indent)
                }
                other => panic!("row {} is followed by {:?}", k, other),
            }
        }
    }
}

#[test]
fn json_get_mut_changes_in_place() {
    let mut node = parse(JSON_STR);
    if let Some(n) = node.get_mut(&vec![key("map"), key("string1")]) {
        *n = JsonNode::Leaf(Value::Bool(true));
    }
    assert_eq!(
        node.get(&vec![key("map"), key("string1")]),
        Some(&JsonNode::Leaf(Value::Bool(true)))
    );
    assert!(node.get_mut(&vec![key("map"), key("invalid_segment")]).is_none());
    assert!(node.get_mut(&vec![key("list"), JsonPathSegment::Index(3)]).is_none());
}

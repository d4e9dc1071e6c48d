use promkit::preset::{Confirm, Json, Listbox, TextState, Tree, CONFIRM_ERROR};
use promkit::style::{Attribute, Color, Style};
use promkit::tree::Node;

fn row_texts(rows: &[promkit::styled::StyledGraphemes]) -> Vec<String> {
    rows.iter().map(|r| r.to_string()).collect()
}

#[test]
fn listbox_prompt_scenario() {
    let items: Vec<String> = (0..100).map(|i| i.to_string()).collect();
    let mut prompt = Listbox::new(items).title("Pick").prompt();
    for _ in 0..5 {
        prompt.listbox_state.listbox.forward();
    }
    assert_eq!(prompt.finalize(), Some("5".to_string()));
    let panes = prompt.create_panes(20, 4);
    assert_eq!(row_texts(&panes[0].layout), vec!["Pick"]);
    assert_eq!(row_texts(&panes[1].layout), vec!["  3", "  4", "❯ 5"]);
    assert_eq!(panes[1].layout[2].0[0].style.foreground_color, Some(Color::DarkCyan));
}

#[test]
fn listbox_builders() {
    let prompt = Listbox::new(vec!["a".to_string(), "b".to_string()])
        .cursor("> ")
        .listbox_lines(1)
        .active_item_style(Style::new())
        .inactive_item_style(Style::new())
        .title_style(Style::new());
    assert_eq!(prompt.listbox_state.lines, Some(1));
    let renderer = prompt.prompt();
    let panes = renderer.create_panes(10, 10);
    assert_eq!(panes[0].layout.len(), 0);
    assert_eq!(row_texts(&panes[1].layout), vec!["> a"]);
}

#[test]
fn text_state_wraps_and_caps() {
    let t = TextState { text: "abcdef".to_string(), style: Style::new(), lines: Some(2) };
    assert_eq!(row_texts(&t.create_pane(2, 10).layout), vec!["ab", "cd"]);
    assert_eq!(row_texts(&t.create_pane(4, 1).layout), vec!["abcd"]);
}

#[test]
fn confirm_scenario() {
    let mut c = Confirm::new("Do you have a pet?");
    assert_eq!(c.prefix, "Do you have a pet? (y/n) ");
    c.editor.replace("maybe");
    assert_eq!(c.submit(), None);
    assert_eq!(c.error_message, "Please type 'y' or 'n' as an answer");
    assert_eq!(c.error_message, CONFIRM_ERROR);
    assert_eq!(c.editor.text_without_cursor().to_string(), "");
    c.editor.insert('y');
    assert_eq!(c.submit(), Some("y".to_string()));
    assert_eq!(c.error_message, "");
    for answer in ["yes", "no", "n", "Y", "N"] {
        c.editor.replace(answer);
        assert_eq!(c.submit(), Some(answer.to_string()));
    }
    c.editor.replace("Yes");
    assert_eq!(c.submit(), None);
}

#[test]
fn tree_and_json_builders() {
    let t = Tree::new(Node::Leaf("x".into()))
        .title("t")
        .folded_symbol("+ ")
        .unfolded_symbol("- ")
        .tree_lines(3)
        .indent(4)
        .active_item_style(Style::new())
        .inactive_item_style(Style::new())
        .title_style(Style::new());
    assert_eq!(t.tree_state.folded_symbol, "+ ");
    assert_eq!(t.tree_state.unfolded_symbol, "- ");
    assert_eq!(t.tree_state.indent, 4);
    assert_eq!(t.tree_state.lines, Some(3));
    assert_eq!(t.title_state.text, "t");
    let j = Json::new(promkit::json::JsonNode::Leaf(serde_json::Value::Null))
        .title("j")
        .json_lines(5)
        .indent(3)
        .active_item_attribute(Attribute::Bold)
        .inactive_item_attribute(Attribute::Reset)
        .title_style(Style::new());
    assert_eq!(j.json_state.lines, Some(5));
    assert_eq!(j.json_state.indent, 3);
    assert_eq!(j.json_state.active_item_attribute, Attribute::Bold);
    assert_eq!(j.json_state.inactive_item_attribute, Attribute::Reset);
    assert_eq!(j.title_state.text, "j");
}

#[test]
fn tree_prompt_renders_and_finalizes() {
    let root = Node::NonLeaf {
        id: "root".into(),
        children: vec![
            Node::NonLeaf {
                id: "a".into(),
                children: vec![Node::Leaf("aa".into())],
                children_visible: true,
            },
            Node::Leaf("b".into()),
        ],
        children_visible: true,
    };
    let mut prompt = Tree::new(root).folded_symbol("+ ").unfolded_symbol("- ").prompt();
    let panes = prompt.create_panes(40, 10);
    assert_eq!(panes[0].layout.len(), 0);
    assert_eq!(
        row_texts(&panes[1].layout),
        vec!["- root", "  - a", "    + aa", "  + b"]
    );
    assert!(prompt.forward());
    assert!(prompt.forward());
    assert_eq!(prompt.finalize(), vec!["root", "a"]);
    assert!(prompt.forward());
    assert!(!prompt.forward());
    assert_eq!(prompt.finalize(), vec!["root"]);
    assert!(prompt.backward());
    let panes = prompt.create_panes(40, 2);
    assert_eq!(row_texts(&panes[1].layout), vec!["  - a", "    + aa"]);
}

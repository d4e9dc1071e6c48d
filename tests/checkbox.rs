use promkit::checkbox::Checkbox;
use promkit::cursor::Cursor;
use promkit::listbox::Listbox;
use promkit::styled::StyledGraphemes;
use std::collections::HashSet;

#[test]
fn checkbox_test() {
    let items = vec![
        (String::from("1"), true),
        (String::from("2"), false),
        (String::from("3"), true),
    ];
    let checkbox = Checkbox::new_with_checked(items);
    assert_eq!(
        checkbox.items(),
        &vec![
            StyledGraphemes::from("1"),
            StyledGraphemes::from("2"),
            StyledGraphemes::from("3"),
        ]
    );
    let expected_picked_indexes: HashSet<usize> = [0, 2].iter().cloned().collect();
    assert_eq!(checkbox.picked_indexes(), &expected_picked_indexes);
}

#[test]
fn checkbox_scenario() {
    let items: Vec<String> = ["A", "B", "C", "D"].iter().map(|s| s.to_string()).collect();
    let mut checkbox = Checkbox::from_displayable(items);
    checkbox.toggle();
    checkbox.forward();
    checkbox.forward();
    checkbox.toggle();
    let picked: Vec<String> = checkbox.get().iter().map(|g| g.to_string()).collect();
    assert_eq!(picked, vec!["A", "C"]);
    checkbox.toggle();
    let picked: Vec<String> = checkbox.get().iter().map(|g| g.to_string()).collect();
    assert_eq!(picked, vec!["A"]);
}

#[test]
fn checkbox_moves_within_bounds() {
    let items: Vec<String> = ["A", "B"].iter().map(|s| s.to_string()).collect();
    let mut checkbox = Checkbox::from_displayable(items);
    assert!(!checkbox.backward());
    assert!(checkbox.forward());
    assert!(!checkbox.forward());
    checkbox.move_to_head();
    assert_eq!(checkbox.position(), 0);
    checkbox.move_to_tail();
    assert_eq!(checkbox.position(), 1);
}

#[test]
fn listbox_scenario() {
    let items: Vec<String> = (0..100).map(|i| i.to_string()).collect();
    let mut listbox = Listbox::from_displayable(items);
    for _ in 0..5 {
        listbox.forward();
    }
    assert_eq!(listbox.position(), 5);
    assert_eq!(listbox.items()[listbox.position()].to_string(), "5");
    listbox.move_to_tail();
    assert_eq!(listbox.position(), 99);
    assert!(!listbox.forward());
}

#[test]
fn cursor_forward_then_backward() {
    for cyclic in [false, true] {
        for p in 0..3 {
            let mut c = Cursor::new(vec![1, 2, 3, 4], p, cyclic);
            assert!(!c.is_tail());
            c.forward();
            c.backward();
            assert_eq!(c.position(), p);
        }
        let mut c = Cursor::new(vec![1, 2, 3, 4], 3, cyclic);
        assert!(c.is_tail());
        c.forward();
        c.backward();
        assert_eq!(c.position(), if cyclic { 3 } else { 2 });
    }
}

#[test]
fn cursor_wraps_when_cyclic() {
    let mut c = Cursor::new(vec!['a', 'b', 'c'], 0, true);
    assert!(c.backward());
    assert_eq!(c.position(), 2);
    assert!(c.forward());
    assert_eq!(c.position(), 0);
    let mut single = Cursor::new(vec!['a'], 0, true);
    assert!(!single.forward());
    let mut empty: Cursor<u8> = Cursor::new(vec![], 5, false);
    assert_eq!(empty.position(), 0);
    assert!(!empty.forward());
    assert!(empty.is_head());
    assert!(!empty.move_to(0));
}

use promkit::styled::StyledGraphemes;
use promkit::text_editor::{Mode, TextEditor};

// `s` holds the final space; the cursor is put at `p`.
fn new_with_position(s: String, p: usize) -> TextEditor {
    let body: String = s.chars().take(s.chars().count() - 1).collect();
    let mut txt = TextEditor::new(&body);
    txt.move_to_head();
    for _ in 0..p {
        txt.forward();
    }
    txt
}

#[test]
fn text_editor_test() {
    let txt = new_with_position(String::from("abcde "), 0);
    assert_eq!(StyledGraphemes::from("***** "), txt.masking('*'))
}

#[test]
fn text_editor_test_for_empty() {
    let txt = TextEditor::default();
    assert_eq!(StyledGraphemes::from(" "), txt.text());
    assert_eq!(0, txt.position());
}

#[test]
fn text_editor_test_at_non_edge() {
    let mut txt = new_with_position(String::from("abc "), 1);
    let new = new_with_position(String::from("bc "), 0);
    txt.erase();
    assert_eq!(new.text(), txt.text());
    assert_eq!(new.position(), txt.position());
}

#[test]
fn text_editor_test_at_tail() {
    let mut txt = new_with_position(String::from("abc "), 3);
    let new = new_with_position(String::from("ab "), 2);
    txt.erase();
    assert_eq!(new.text(), txt.text());
    assert_eq!(new.position(), txt.position());
}

#[test]
fn text_editor_test_at_head() {
    let txt = new_with_position(String::from("abc "), 0);
    assert_eq!(StyledGraphemes::from("abc "), txt.text());
    assert_eq!(0, txt.position());
}

#[test]
fn find_previous_nearest_index_test() {
    let mut txt = new_with_position(String::from("koko momo jojo "), 11);
    assert_eq!(10, txt.find_previous_nearest_index(&vec![' ']));
    txt.0.move_to(10);
    assert_eq!(5, txt.find_previous_nearest_index(&vec![' ']));
}

#[test]
fn find_previous_nearest_index_test_with_no_target() {
    let txt = new_with_position(String::from("koko momo jojo "), 7);
    assert_eq!(0, txt.find_previous_nearest_index(&vec!['z']));
}

#[test]
fn find_next_nearest_index_test() {
    let mut txt = new_with_position(String::from("koko momo jojo "), 7);
    assert_eq!(10, txt.find_next_nearest_index(&vec![' ']));
    txt.0.move_to(10);
    assert_eq!(14, txt.find_next_nearest_index(&vec![' ']));
}

#[test]
fn find_next_nearest_index_test_with_no_target() {
    let txt = new_with_position(String::from("koko momo jojo "), 7);
    assert_eq!(14, txt.find_next_nearest_index(&vec!['z']));
}

#[test]
fn insert_test_for_empty() {
    let mut txt = TextEditor::default();
    let new = new_with_position(String::from("d "), 1);
    txt.insert('d');
    assert_eq!(new.text(), txt.text());
    assert_eq!(new.position(), txt.position());
}

#[test]
fn insert_test_at_non_edge() {
    let mut txt = new_with_position(String::from("abc "), 1);
    let new = new_with_position(String::from("adbc "), 2);
    txt.insert('d');
    assert_eq!(new.text(), txt.text());
    assert_eq!(new.position(), txt.position());
}

#[test]
fn insert_test_at_tail() {
    let mut txt = new_with_position(String::from("abc "), 3);
    let new = new_with_position(String::from("abcd "), 4);
    txt.insert('d');
    assert_eq!(new.text(), txt.text());
    assert_eq!(new.position(), txt.position());
}

#[test]
fn insert_test_at_head() {
    let mut txt = new_with_position(String::from("abc "), 0);
    let new = new_with_position(String::from("dabc "), 1);
    txt.insert('d');
    assert_eq!(new.text(), txt.text());
    assert_eq!(new.position(), txt.position());
}

#[test]
fn overwrite_test_for_empty() {
    let mut txt = TextEditor::default();
    let new = new_with_position(String::from("d "), 1);
    txt.overwrite('d');
    assert_eq!(new.text(), txt.text());
    assert_eq!(new.position(), txt.position());
}

#[test]
fn overwrite_test_at_non_edge() {
    let mut txt = new_with_position(String::from("abc "), 1);
    let new = new_with_position(String::from("adc "), 2);
    txt.overwrite('d');
    assert_eq!(new.text(), txt.text());
    assert_eq!(new.position(), txt.position());
}

#[test]
fn overwrite_test_at_tail() {
    let mut txt = new_with_position(String::from("abc "), 3);
    let new = new_with_position(String::from("abcd "), 4);
    txt.overwrite('d');
    assert_eq!(new.text(), txt.text());
    assert_eq!(new.position(), txt.position());
}

#[test]
fn overwrite_test_at_head() {
    let mut txt = new_with_position(String::from("abc "), 0);
    let new = new_with_position(String::from("dbc "), 1);
    txt.overwrite('d');
    assert_eq!(new.text(), txt.text());
    assert_eq!(new.position(), txt.position());
}

#[test]
fn backward_test_for_empty() {
    let mut txt = TextEditor::default();
    txt.backward();
    assert_eq!(StyledGraphemes::from(" "), txt.text());
    assert_eq!(0, txt.position());
}

#[test]
fn backward_test_at_non_edge() {
    let mut txt = new_with_position(String::from("abc "), 1);
    let new = new_with_position(String::from("abc "), 0);
    txt.backward();
    assert_eq!(new.text(), txt.text());
    assert_eq!(new.position(), txt.position());
}

#[test]
fn backward_test_at_tail() {
    let mut txt = new_with_position(String::from("abc "), 3);
    let new = new_with_position(String::from("abc "), 2);
    txt.backward();
    assert_eq!(new.text(), txt.text());
    assert_eq!(new.position(), txt.position());
}

#[test]
fn backward_test_at_head() {
    let mut txt = new_with_position(String::from("abc "), 0);
    txt.backward();
    assert_eq!(StyledGraphemes::from("abc "), txt.text());
    assert_eq!(0, txt.position());
}

#[test]
fn forward_test_for_empty() {
    let mut txt = TextEditor::default();
    txt.forward();
    assert_eq!(StyledGraphemes::from(" "), txt.text());
    assert_eq!(0, txt.position());
}

#[test]
fn forward_test_at_non_edge() {
    let mut txt = new_with_position(String::from("abc "), 1);
    let new = new_with_position(String::from("abc "), 2);
    txt.forward();
    assert_eq!(new.text(), txt.text());
    assert_eq!(new.position(), txt.position());
}

#[test]
fn forward_test_at_tail() {
    let mut txt = new_with_position(String::from("abc "), 3);
    txt.forward();
    assert_eq!(StyledGraphemes::from("abc "), txt.text());
    assert_eq!(3, txt.position());
}

#[test]
fn forward_test_at_head() {
    let mut txt = new_with_position(String::from("abc "), 0);
    let new = new_with_position(String::from("abc "), 1);
    txt.forward();
    assert_eq!(new.text(), txt.text());
    assert_eq!(new.position(), txt.position());
}

#[test]
fn to_head_test_for_empty() {
    let mut txt = TextEditor::default();
    txt.move_to_head();
    assert_eq!(StyledGraphemes::from(" "), txt.text());
    assert_eq!(0, txt.position());
}

#[test]
fn to_head_test_at_non_edge() {
    let mut txt = new_with_position(String::from("abc "), 1);
    let new = new_with_position(String::from("abc "), 0);
    txt.move_to_head();
    assert_eq!(new.text(), txt.text());
    assert_eq!(new.position(), txt.position());
}

#[test]
fn to_head_test_at_tail() {
    let mut txt = new_with_position(String::from("abc "), 3);
    let new = new_with_position(String::from("abc "), 0);
    txt.move_to_head();
    assert_eq!(new.text(), txt.text());
    assert_eq!(new.position(), txt.position());
}

#[test]
fn to_head_test_at_head() {
    let mut txt = new_with_position(String::from("abc "), 0);
    txt.move_to_head();
    assert_eq!(StyledGraphemes::from("abc "), txt.text());
    assert_eq!(0, txt.position());
}

#[test]
fn to_tail_test_for_empty() {
    let mut txt = TextEditor::default();
    txt.move_to_tail();
    assert_eq!(StyledGraphemes::from(" "), txt.text());
    assert_eq!(0, txt.position());
}

#[test]
fn to_tail_test_at_non_edge() {
    let mut txt = new_with_position(String::from("abc "), 1);
    let new = new_with_position(String::from("abc "), 3);
    txt.move_to_tail();
    assert_eq!(new.text(), txt.text());
    assert_eq!(new.position(), txt.position());
}

#[test]
fn to_tail_test_at_tail() {
    let mut txt = new_with_position(String::from("abc "), 3);
    txt.move_to_tail();
    assert_eq!(StyledGraphemes::from("abc "), txt.text());
    assert_eq!(3, txt.position());
}

#[test]
fn to_tail_test_at_head() {
    let mut txt = new_with_position(String::from("abc "), 0);
    let new = new_with_position(String::from("abc "), 3);
    txt.move_to_tail();
    assert_eq!(new.text(), txt.text());
    assert_eq!(new.position(), txt.position());
}

#[test]
fn word_erase_scenario() {
    // The graphemes between the break and the cursor go; the one under the
    // cursor stays.
    let mut txt = new_with_position(String::from("koko momo jojo "), 11);
    txt.erase_to_previous_nearest(&vec![' ']);
    assert_eq!(StyledGraphemes::from("koko momo ojo "), txt.text());
    assert_eq!(10, txt.position());
    let mut txt = new_with_position(String::from("koko momo jojo "), 12);
    txt.erase_to_previous_nearest(&vec![' ']);
    assert_eq!(StyledGraphemes::from("koko momo jo "), txt.text());
    assert_eq!(10, txt.position());
}

#[test]
fn erase_to_next_nearest_keeps_the_cursor() {
    let mut txt = new_with_position(String::from("koko momo jojo "), 5);
    txt.erase_to_next_nearest(&vec![' ']);
    assert_eq!(StyledGraphemes::from("koko jojo "), txt.text());
    assert_eq!(5, txt.position());
    txt.move_to_next_nearest(&vec![' ']);
    assert_eq!(9, txt.position());
    txt.move_to_previous_nearest(&vec![' ']);
    assert_eq!(5, txt.position());
}

#[test]
fn insert_then_erase_is_identity() {
    for p in 0..4 {
        let mut txt = new_with_position(String::from("abc "), p);
        let before = txt.text();
        txt.insert('x');
        txt.erase();
        assert_eq!(before, txt.text());
        assert_eq!(p, txt.position());
    }
}

#[test]
fn replace_then_text_without_cursor() {
    let mut txt = new_with_position(String::from("abc "), 1);
    txt.replace("héllo 😎");
    assert_eq!("héllo 😎", txt.text_without_cursor().to_string());
    assert_eq!(7, txt.position());
    txt.erase_all();
    assert_eq!(StyledGraphemes::from(" "), txt.text());
    assert_eq!(0, txt.position());
}

#[test]
fn chars_are_inserted_and_overwritten_in_order() {
    let mut txt = new_with_position(String::from("abc "), 1);
    txt.insert_chars(&vec!['x', 'y']);
    assert_eq!("axybc ", txt.text().to_string());
    assert_eq!(3, txt.position());
    txt.overwrite_chars(&vec!['1', '2', '3', '4']);
    assert_eq!("axy1234 ", txt.text().to_string());
    assert_eq!(7, txt.position());
}

#[test]
fn shift_stays_within_the_buffer() {
    let mut txt = new_with_position(String::from("abc "), 1);
    assert!(txt.shift(1, 3));
    assert_eq!(3, txt.position());
    assert!(!txt.shift(0, 1));
    assert_eq!(3, txt.position());
    assert!(!txt.shift(5, 0));
    assert_eq!(Mode::default(), Mode::Insert);
}

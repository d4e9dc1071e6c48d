use promkit::style::{Attribute, Color, Style};
use promkit::styled::{StyledGrapheme, StyledGraphemes};
use promkit::text::width_of;

fn green() -> Style {
    Style {
        foreground_color: Some(Color::Green),
        ..Style::new()
    }
}

#[test]
fn grapheme_test() {
    let style = Style::new();
    let graphemes = StyledGraphemes::from_str("abc", style);
    assert_eq!(3, graphemes.0.len());
    assert!(graphemes.0.iter().all(|g| g.style == style));
}

#[test]
fn grapheme_test_chars() {
    let graphemes = StyledGraphemes::from("abc");
    let chars = graphemes.chars();
    assert_eq!(vec!['a', 'b', 'c'], chars);
}

#[test]
fn grapheme_test_widths() {
    let graphemes = StyledGraphemes::from("a b");
    assert_eq!(3, graphemes.widths());
}

#[test]
fn grapheme_test_replace_char() {
    let graphemes = StyledGraphemes::from("banana");
    assert_eq!("bonono", graphemes.replace("a", "o").to_string());
}

#[test]
fn test_with_nonexistent_character() {
    let graphemes = StyledGraphemes::from("Hello World");
    assert_eq!("Hello World", graphemes.replace("x", "o").to_string());
}

#[test]
fn test_with_empty_string() {
    let graphemes = StyledGraphemes::from("Hello World");
    assert_eq!("Hell Wrld", graphemes.replace("o", "").to_string());
}

#[test]
fn test_with_multiple_characters() {
    let graphemes = StyledGraphemes::from("Hello World");
    assert_eq!("Hellabc Wabcrld", graphemes.replace("o", "abc").to_string());
}

#[test]
fn grapheme_test_replace_range() {
    let mut graphemes = StyledGraphemes::from("Hello");
    graphemes.replace_range(1..5, "i");
    assert_eq!("Hi", graphemes.to_string());
}

#[test]
fn grapheme_test_apply_style() {
    let mut graphemes = StyledGraphemes::from("abc");
    let new_style = green();
    graphemes = graphemes.apply_style(new_style);
    assert!(graphemes.0.iter().all(|g| g.style == new_style));
}

#[test]
fn test_apply_style_at_specific_index() {
    let mut graphemes = StyledGraphemes::from("abc");
    let new_style = green();
    graphemes = graphemes.apply_style_at(1, new_style);
    assert_eq!(graphemes.0[1].style, new_style);
    assert_ne!(graphemes.0[0].style, new_style);
    assert_ne!(graphemes.0[2].style, new_style);
}

#[test]
fn test_apply_style_at_out_of_bounds_index() {
    let mut graphemes = StyledGraphemes::from("abc");
    let new_style = green();
    graphemes = graphemes.apply_style_at(5, new_style);
    assert_eq!(graphemes.0.len(), 3);
}

#[test]
fn grapheme_test_with_empty_query() {
    let graphemes = StyledGraphemes::from("Hello, world!");
    let indices = graphemes.find_all("");
    assert!(
        indices.is_empty(),
        "Should return an empty vector for an empty query string"
    );
}

#[test]
fn test_with_repeated_substring() {
    let graphemes = StyledGraphemes::from("Hello, world! Hello, universe!");
    let indices = graphemes.find_all("Hello");
    assert_eq!(
        indices,
        vec![0, 14],
        "Should find all starting indices of 'Hello'"
    );
}

#[test]
fn test_with_nonexistent_substring() {
    let graphemes = StyledGraphemes::from("Hello, world!");
    let indices = graphemes.find_all("xyz");
    assert!(
        indices.is_empty(),
        "Should return an empty vector for a non-existent substring"
    );
}

#[test]
fn test_with_special_character() {
    let graphemes = StyledGraphemes::from("µs µs µs");
    let indices = graphemes.find_all("s");
    assert_eq!(
        indices,
        vec![1, 4, 7],
        "Should correctly find indices of substring 'µs'"
    );
}

#[test]
fn test_with_single_character() {
    let graphemes = StyledGraphemes::from("abcabcabc");
    let indices = graphemes.find_all("b");
    assert_eq!(
        indices,
        vec![1, 4, 7],
        "Should find all indices of character 'b'"
    );
}

#[test]
fn test_with_full_match() {
    let graphemes = StyledGraphemes::from("Hello");
    let indices = graphemes.find_all("Hello");
    assert_eq!(indices, vec![0], "Should match the entire string");
}

#[test]
fn test_with_partial_overlap() {
    let graphemes = StyledGraphemes::from("ababa");
    let indices = graphemes.find_all("aba");
    assert_eq!(
        indices,
        vec![0, 2],
        "Should handle overlapping matches correctly"
    );
}

#[test]
fn highlight_test_with_empty_query() {
    let graphemes = StyledGraphemes::from("Hello, world!");
    let expected = graphemes.clone();
    let highlighted = graphemes.highlight("", Style::new());
    assert_eq!(highlighted.unwrap(), expected);
}

#[test]
fn grapheme_test_apply_attribute() {
    let mut graphemes = StyledGraphemes::from("abc");
    graphemes = graphemes.apply_attribute(Attribute::Bold);
    assert!(graphemes
        .0
        .iter()
        .all(|g| g.style.attributes.has(Attribute::Bold)));
}

#[test]
fn test_with_empty_input() {
    let input = StyledGraphemes::new();
    let (matrix, offset) = input.matrixify(10, 2, 0);
    assert_eq!(matrix.len(), 0);
    assert_eq!(offset, 0);
}

#[test]
fn test_with_exact_width_fit() {
    let input = StyledGraphemes::from("1234567890");
    let (matrix, offset) = input.matrixify(10, 1, 0);
    assert_eq!(matrix.len(), 1);
    assert_eq!("1234567890", matrix[0].to_string());
    assert_eq!(offset, 0);
}

#[test]
fn test_with_narrow_width() {
    let input = StyledGraphemes::from("1234567890");
    let (matrix, offset) = input.matrixify(5, 2, 0);
    assert_eq!(matrix.len(), 2);
    assert_eq!("12345", matrix[0].to_string());
    assert_eq!("67890", matrix[1].to_string());
    assert_eq!(offset, 0);
}

#[test]
fn test_with_offset() {
    let input = StyledGraphemes::from("1234567890");
    let (matrix, offset) = input.matrixify(2, 2, 1);
    assert_eq!(matrix.len(), 2);
    assert_eq!("34", matrix[0].to_string());
    assert_eq!("56", matrix[1].to_string());
    assert_eq!(offset, 0);
}

#[test]
fn test_with_padding() {
    let input = StyledGraphemes::from("1234567890");
    let (matrix, offset) = input.matrixify(2, 100, 1);
    assert_eq!(matrix.len(), 5);
    assert_eq!("12", matrix[0].to_string());
    assert_eq!("34", matrix[1].to_string());
    assert_eq!("56", matrix[2].to_string());
    assert_eq!("78", matrix[3].to_string());
    assert_eq!("90", matrix[4].to_string());
    assert_eq!(offset, 1);
}

#[test]
fn test_with_large_offset() {
    let input = StyledGraphemes::from("1234567890");
    let (matrix, offset) = input.matrixify(10, 2, 100);
    assert_eq!(matrix.len(), 1);
    assert_eq!("1234567890", matrix[0].to_string());
    assert_eq!(offset, 0);
}

#[test]
fn matrixify_wraps_emoji_rows() {
    let input = StyledGraphemes::from(">> 😎😎 ");
    let (matrix, offset) = input.matrixify(2, usize::MAX, 0);
    let rows: Vec<String> = matrix.iter().map(|r| r.to_string()).collect();
    assert_eq!(rows, vec![">>", " ", "😎", "😎", " "]);
    assert_eq!(offset, 0);
}

#[test]
fn matrixify_rows_concatenate_to_the_fitting_graphemes() {
    let input = StyledGraphemes::from("a😎b 😎c");
    let (matrix, _) = input.matrixify(1, usize::MAX, 0);
    let joined: String = matrix.iter().map(|r| r.to_string()).collect();
    assert_eq!(joined, "ab c");
    let (matrix, _) = input.matrixify(3, usize::MAX, 0);
    let joined: String = matrix.iter().map(|r| r.to_string()).collect();
    assert_eq!(joined, "a😎b 😎c");
}

#[test]
fn matrixify_height_zero_keeps_no_row() {
    let input = StyledGraphemes::from("1234567890");
    let (matrix, offset) = input.matrixify(2, 0, 3);
    assert_eq!(matrix.len(), 0);
    assert_eq!(offset, 0);
}

#[test]
fn matrixify_offset_beyond_rows_is_clamped() {
    let input = StyledGraphemes::from("1234567890");
    let (matrix, offset) = input.matrixify(2, 2, 9);
    let rows: Vec<String> = matrix.iter().map(|r| r.to_string()).collect();
    assert_eq!(rows, vec!["78", "90"]);
    assert_eq!(offset, 1);
}

#[test]
fn find_all_counts_every_overlapping_match() {
    let graphemes = StyledGraphemes::from("aaaa");
    assert_eq!(graphemes.find_all("aa"), vec![0, 1, 2]);
    assert_eq!(graphemes.find_all("aaaaa"), Vec::<usize>::new());
}

#[test]
fn replace_takes_matches_left_to_right_without_overlap() {
    let graphemes = StyledGraphemes::from("ababa");
    assert_eq!("xba", graphemes.replace("aba", "x").to_string());
    let graphemes = StyledGraphemes::from("abc");
    assert_eq!("abc", graphemes.replace("", "x").to_string());
}

#[test]
fn replace_uses_the_plain_style() {
    let graphemes = StyledGraphemes::from_str("abc", green()).replace("b", "x");
    assert_eq!(graphemes.0[0].style, green());
    assert_eq!(graphemes.0[1].style, Style::new());
}

#[test]
fn highlight_styles_every_match_and_nothing_else() {
    let graphemes = StyledGraphemes::from("ababa");
    let h = graphemes.highlight("ba", green()).unwrap();
    let styled: Vec<bool> = h.0.iter().map(|g| g.style == green()).collect();
    assert_eq!(styled, vec![false, true, true, true, true]);
    let graphemes = StyledGraphemes::from("ababa");
    assert!(graphemes.highlight("zz", green()).is_none());
}

#[test]
fn widths_count_wide_and_zero_width_characters() {
    assert_eq!(StyledGraphemes::from("😎a").widths(), 3);
    assert_eq!(StyledGraphemes::from("\u{7}a").widths(), 1);
    assert_eq!(width_of('😎'), 2);
    assert_eq!(width_of('a'), 1);
    assert_eq!(width_of('\u{301}'), 0);
}

#[test]
fn grapheme_keeps_its_character_and_width() {
    let g = StyledGrapheme::new('漢', green());
    assert_eq!(g.ch(), '漢');
    assert_eq!(g.width(), 2);
    assert_eq!(g.style(), green());
    let mut p = StyledGrapheme::plain('x');
    p.apply_style(green());
    assert_eq!(p.style, green());
}

#[test]
fn attributes_set_and_query_bits() {
    let mut a = promkit::style::Attributes::new();
    assert!(!a.has(Attribute::Bold));
    a.set(Attribute::Bold);
    assert!(a.has(Attribute::Bold));
    assert!(!a.has(Attribute::Dim));
    assert_eq!(Attribute::Reset.bytes(), 2);
}

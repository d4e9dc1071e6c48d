use promkit::grapheme::{matrixify, trim, Grapheme, Graphemes};
use promkit::style::Style;

#[test]
fn grapheme_test_matrixify() {
    let expect = vec![
        Graphemes::new(">>"),
        Graphemes::new(" a"),
        Graphemes::new("aa"),
        Graphemes::new(" "),
    ];
    assert_eq!(expect, matrixify(2, &Graphemes::new(">> aaa ")),);
}

#[test]
fn grapheme_test_with_emoji() {
    let expect = vec![
        Graphemes::new(">>"),
        Graphemes::new(" "),
        Graphemes::new("😎"),
        Graphemes::new("😎"),
        Graphemes::new(" "),
    ];
    assert_eq!(expect, matrixify(2, &Graphemes::new(">> 😎😎 ")),);
}

#[test]
fn grapheme_test_with_emoji_at_narrow_terminal() {
    let expect = vec![
        Graphemes::new(">"),
        Graphemes::new(">"),
        Graphemes::new(" "),
        Graphemes::new(" "),
    ];
    assert_eq!(expect, matrixify(1, &Graphemes::new(">> 😎😎 ")),);
}

#[test]
fn trim_test() {
    assert_eq!(Graphemes::new(">> a"), trim(4, &Graphemes::new(">> aaa ")));
}

#[test]
fn trim_test_with_emoji() {
    assert_eq!(Graphemes::new("😎"), trim(2, &Graphemes::new("😎")));
}

#[test]
fn trim_test_with_emoji_at_narrow_terminal() {
    assert_eq!(Graphemes::new(""), trim(1, &Graphemes::new("😎")));
}

#[test]
fn matrixify_keeps_an_empty_last_row() {
    assert_eq!(vec![Graphemes::new("")], matrixify(3, &Graphemes::new("")));
}

#[test]
fn graphemes_widths_and_stylize() {
    let g = Graphemes::new("a😎");
    assert_eq!(g.widths(), 3);
    let style = Style {
        underline_color: Some(promkit::style::Color::Red),
        ..Style::new()
    };
    let g = g.stylize(1, style);
    assert_eq!(g.0[1].style, style);
    assert_eq!(g.0[0].style, Style::new());
    assert_eq!(Grapheme::new('😎').width, 2);
    assert_eq!(Grapheme::new_with_style('a', style).style, style);
}

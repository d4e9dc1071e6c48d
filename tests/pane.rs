use promkit::pane::Pane;
use promkit::styled::StyledGraphemes;

#[test]
fn pane_test() {
    assert_eq!(
        true,
        Pane::new(StyledGraphemes::from("").matrixify(10, 10, 0).0).is_empty()
    );
}

#[test]
fn test_with_less_extraction_size_than_layout() {
    let expect = vec![
        StyledGraphemes::from("aa"),
        StyledGraphemes::from("bb"),
        StyledGraphemes::from("cc"),
    ];
    assert_eq!(
        expect,
        Pane::new(vec![
            StyledGraphemes::from("aa"),
            StyledGraphemes::from("bb"),
            StyledGraphemes::from("cc"),
            StyledGraphemes::from("dd"),
            StyledGraphemes::from("ee"),
        ])
        .extract(3)
    );
}

#[test]
fn test_with_much_extraction_size_than_layout() {
    let expect = vec![
        StyledGraphemes::from("aa"),
        StyledGraphemes::from("bb"),
        StyledGraphemes::from("cc"),
        StyledGraphemes::from("dd"),
        StyledGraphemes::from("ee"),
    ];
    assert_eq!(
        expect,
        Pane::new(vec![
            StyledGraphemes::from("aa"),
            StyledGraphemes::from("bb"),
            StyledGraphemes::from("cc"),
            StyledGraphemes::from("dd"),
            StyledGraphemes::from("ee"),
        ])
        .extract(10)
    );
}

#[test]
fn pane_counts_rows() {
    let pane = Pane::new(vec![StyledGraphemes::from("a"), StyledGraphemes::from("b")]);
    assert_eq!(pane.visible_row_count(), 2);
    assert!(!pane.is_empty());
    assert_eq!(pane.extract(0).len(), 0);
}

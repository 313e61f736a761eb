use newton_lex::Span;

#[test]
fn test_simple_span() {
    let span = Span::new(5, 10);
    assert_eq!(span.len(), 5);
}

#[test]
fn test_span_peek() {
    let span = Span::new(6, 11);
    let str = "hello world";
    let slice = span.slice_and_dice(&str.to_string());

    assert_eq!(slice, "world");
}

#[test]
fn test_span_perfect() {
    let mut span = Span::new(5, 10);

    assert_eq!(span.forward(), true);

    span.start = 50;
    span.end = 1;

    assert_eq!(span.forward(), false);
}

#[test]
fn test_span_backward() {
    let mut span = Span::new(5, 10);

    assert_eq!(span.backward(), false);

    span.start = 50;
    span.end = 1;

    assert_eq!(span.backward(), true);
}

#[test]
fn ordered_span_is_perfect_with_length() {
    for (start, end) in [(0usize, 0usize), (3, 3), (2, 9), (0, 1000)] {
        let span = Span::new(start, end);
        assert!(span.perfect());
        assert_eq!(span.len(), end - start);
    }
    assert!(!Span::new(4, 3).perfect());
}

#[test]
fn extract_is_the_character_range() {
    let text = "abcdef".to_string();
    assert_eq!(Span::new(1, 4).slice_and_dice(&text), "bcd");
    assert_eq!(Span::new(0, 6).slice_and_dice(&text), "abcdef");
    assert_eq!(Span::new(6, 6).slice_and_dice(&text), "");
}

#[test]
fn extract_counts_characters_not_bytes() {
    let text = "h\u{e9}llo w\u{f6}rld".to_string();
    assert_eq!(Span::new(1, 3).slice_and_dice(&text), "\u{e9}l");
    assert_eq!(Span::new(6, 11).slice_and_dice(&text), "w\u{f6}rld");
}

#[test]
fn empty_means_zero_width() {
    assert!(Span::new(4, 4).is_empty());
    assert!(!Span::new(4, 5).is_empty());
    assert!(!Span::new(5, 4).is_empty());
}

#[test]
fn orientation_of_a_zero_width_span() {
    let span = Span::new(7, 7);
    assert!(span.perfect());
    assert!(!span.forward());
    assert!(!span.backward());
    assert_eq!(span.len(), 0);
}

#[test]
fn span_text() {
    assert_eq!(Span::new(5, 10).to_string(), "Span: (5, 10)");
    assert_eq!(Span::new(0, 1234567).to_string(), "Span: (0, 1234567)");
}

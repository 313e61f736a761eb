use newton_lex::{ErrorKind, LexError, Lexer, Span, Token, Type};

fn lex(src: &str) -> Result<Vec<Token>, LexError> {
    Lexer::new(src.to_string()).lexeme()
}

fn tok(ty: Type, body: &str, start: usize, end: usize) -> Token {
    Token { ty, body: body.to_string(), span: Span::new(start, end) }
}

fn err(kind: ErrorKind, start: usize, end: usize) -> LexError {
    LexError { kind, span: Span::new(start, end) }
}

#[test]
fn test_lex() {
    let mut lexer = Lexer::new(
        "; writes\n; basically that's what it does\n\t; so ya\n::write\nnew struct { }".to_string(),
    );

    let binding = lexer.lexeme().unwrap();

    assert_eq!(binding.len(), 6);
    assert_eq!(binding[0].ty, Type::MemberAccess);
    assert_eq!(binding[0].body, "::");
    assert_eq!(binding[1].ty, Type::Ident);
    assert_eq!(binding[1].body, "write");
    assert_eq!(binding[2].ty, Type::ReservedKeyword);
    assert_eq!(binding[2].body, "new");
    assert_eq!(binding[3].ty, Type::Ident);
    assert_eq!(binding[3].body, "struct");
    assert_eq!(binding[4].ty, Type::OpenBrace);
    assert_eq!(binding[5].ty, Type::CloseBrace);
}

#[test]
fn scan_reserved_new() {
    assert_eq!(lex("new").unwrap(), vec![tok(Type::ReservedKeyword, "new", 0, 3)]);
}

#[test]
fn scan_other_reserved_words() {
    assert_eq!(
        lex("conditions logic").unwrap(),
        vec![
            tok(Type::ReservedKeyword, "conditions", 0, 10),
            tok(Type::ReservedKeyword, "logic", 11, 16),
        ]
    );
}

#[test]
fn scan_plain_identifier() {
    assert_eq!(lex("hello").unwrap(), vec![tok(Type::Ident, "hello", 0, 5)]);
}

#[test]
fn scan_identifier_with_digits_and_underscores() {
    assert_eq!(
        lex("_a1 news").unwrap(),
        vec![tok(Type::Ident, "_a1", 0, 3), tok(Type::Ident, "news", 4, 8)]
    );
}

#[test]
fn scan_non_ascii_identifier() {
    assert_eq!(lex("h\u{e9}llo").unwrap(), vec![tok(Type::Ident, "h\u{e9}llo", 0, 5)]);
}

#[test]
fn scan_string_with_escaped_newline() {
    let tokens = lex("\"ab\\ncd\"").unwrap();
    assert_eq!(tokens, vec![tok(Type::String, "\"ab\ncd\"", 0, 8)]);
}

#[test]
fn scan_string_with_escaped_quote_and_backslash() {
    let tokens = lex("\"a\\\"b\\\\c\\t\"").unwrap();
    assert_eq!(tokens, vec![tok(Type::String, "\"a\"b\\ct\"", 0, 11)]);
}

#[test]
fn scan_string_then_identifier() {
    assert_eq!(
        lex("\"x\"y").unwrap(),
        vec![tok(Type::String, "\"x\"", 0, 3), tok(Type::Ident, "y", 3, 4)]
    );
}

#[test]
fn scan_unterminated_string() {
    assert_eq!(lex("new \"abc").unwrap_err(), err(ErrorKind::UnterminatedString, 4, 8));
    assert_eq!(lex("\"ab\\\"").unwrap_err(), err(ErrorKind::UnterminatedString, 0, 5));
}

#[test]
fn scan_member_access_pair() {
    assert_eq!(
        lex("::foo").unwrap(),
        vec![tok(Type::MemberAccess, "::", 0, 2), tok(Type::Ident, "foo", 2, 5)]
    );
}

#[test]
fn scan_member_access_before_non_ascii_letter() {
    assert_eq!(
        lex("::\u{e9}t\u{e9}").unwrap(),
        vec![tok(Type::MemberAccess, "::", 0, 2), tok(Type::Ident, "\u{e9}t\u{e9}", 2, 5)]
    );
}

#[test]
fn scan_lone_colon() {
    assert_eq!(lex(":").unwrap_err(), err(ErrorKind::MissingSecondColon, 0, 1));
}

#[test]
fn scan_colon_without_second_colon() {
    assert_eq!(lex("a :b").unwrap_err(), err(ErrorKind::MissingSecondColon, 2, 3));
}

#[test]
fn scan_access_without_letter_gives_no_token() {
    assert_eq!(lex("::").unwrap(), vec![]);
    assert_eq!(lex(":: x").unwrap(), vec![tok(Type::Ident, "x", 3, 4)]);
    assert_eq!(lex("::(").unwrap(), vec![]);
    assert_eq!(lex("::_x y").unwrap(), vec![tok(Type::Ident, "y", 5, 6)]);
    assert_eq!(lex("::9x").unwrap(), vec![]);
}

#[test]
fn scan_comment_then_keyword() {
    assert_eq!(lex("; comment\nnew").unwrap(), vec![tok(Type::ReservedKeyword, "new", 10, 13)]);
}

#[test]
fn scan_comment_to_end_of_input() {
    assert_eq!(lex("new ; (\"").unwrap(), vec![tok(Type::ReservedKeyword, "new", 0, 3)]);
}

#[test]
fn scan_number_at_end() {
    assert_eq!(lex("123.45").unwrap(), vec![tok(Type::Number, "123.45", 0, 6)]);
}

#[test]
fn scan_number_with_grouping() {
    assert_eq!(lex("x 1_000.5").unwrap(), vec![tok(Type::Ident, "x", 0, 1), tok(Type::Number, "1_000.5", 2, 9)]);
}

#[test]
fn scan_number_then_semicolon_fails() {
    assert_eq!(lex("123;").unwrap_err(), err(ErrorKind::InvalidNumberCharacter, 3, 4));
}

#[test]
fn scan_number_then_space_fails() {
    assert_eq!(lex("7 x").unwrap_err(), err(ErrorKind::InvalidNumberCharacter, 1, 2));
}

#[test]
fn scan_punctuation() {
    assert_eq!(
        lex("( ){}").unwrap(),
        vec![
            tok(Type::OpenParen, "(", 0, 1),
            tok(Type::CloseParen, ")", 2, 3),
            tok(Type::OpenBrace, "{", 3, 4),
            tok(Type::CloseBrace, "}", 4, 5),
        ]
    );
}

#[test]
fn scan_keeps_character_after_identifier() {
    assert_eq!(
        lex("new{x}").unwrap(),
        vec![
            tok(Type::ReservedKeyword, "new", 0, 3),
            tok(Type::OpenBrace, "{", 3, 4),
            tok(Type::Ident, "x", 4, 5),
            tok(Type::CloseBrace, "}", 5, 6),
        ]
    );
}

#[test]
fn scan_unrecognized_character() {
    assert_eq!(lex("new @").unwrap_err(), err(ErrorKind::UnrecognizedCharacter, 4, 5));
    assert_eq!(lex("new@").unwrap_err(), err(ErrorKind::UnrecognizedCharacter, 3, 4));
    assert_eq!(lex("+").unwrap_err(), err(ErrorKind::UnrecognizedCharacter, 0, 1));
}

#[test]
fn scan_empty_and_blank_sources() {
    assert_eq!(lex("").unwrap(), vec![]);
    assert_eq!(lex(" \t\r\n").unwrap(), vec![]);
}

#[test]
fn scan_skips_non_ascii_whitespace() {
    assert_eq!(
        lex("\u{3000}new\u{a0}x").unwrap(),
        vec![tok(Type::ReservedKeyword, "new", 1, 4), tok(Type::Ident, "x", 5, 6)]
    );
}

#[test]
fn cursor_moves_through_the_source() {
    let mut lexer = Lexer::new("ab".to_string());
    assert_eq!(lexer.cur(), None);
    assert_eq!(lexer.peek(), Some('a'));
    assert_eq!(lexer.next(), Some('a'));
    assert_eq!(lexer.cur(), Some('a'));
    assert_eq!(lexer.peek(), Some('b'));
    lexer.advance();
    assert_eq!(lexer.cur(), Some('b'));
    assert_eq!(lexer.peek(), None);
    assert_eq!(lexer.next(), None);
    assert_eq!(lexer.next(), None);
    assert_eq!(lexer.pos, 3);
    assert_eq!(lexer.cur(), None);
    assert_eq!(lexer.peek(), None);
}

#[test]
fn cursor_moves_on_past_the_end() {
    let mut lexer = Lexer::new(String::new());
    lexer.advance();
    lexer.advance();
    assert_eq!(lexer.pos, 1);
    let mut lexer = Lexer::new(String::new());
    assert_eq!(lexer.next(), None);
    assert_eq!(lexer.next(), None);
    assert_eq!(lexer.pos, 1);
}

#[test]
fn digest_comment_stops_at_newline() {
    let mut lexer = Lexer::new(";ab\ncd".to_string());
    lexer.advance();
    lexer.digest_comment();
    assert_eq!(lexer.pos, 3);
    assert_eq!(lexer.cur(), Some('\n'));
}

#[test]
fn digest_ident_leaves_cursor_on_last_character() {
    let mut lexer = Lexer::new("logic+".to_string());
    lexer.advance();
    let t = lexer.digest_ident().unwrap();
    assert_eq!(t, tok(Type::ReservedKeyword, "logic", 0, 5));
    assert_eq!(lexer.pos, 5);

    let mut lexer = Lexer::new("a".to_string());
    lexer.advance();
    assert_eq!(lexer.digest_ident().unwrap(), tok(Type::Ident, "a", 0, 1));
    assert_eq!(lexer.pos, 1);

    let mut lexer = Lexer::new("conditions{".to_string());
    lexer.advance();
    assert_eq!(lexer.digest_ident().unwrap(), tok(Type::ReservedKeyword, "conditions", 0, 10));
    assert_eq!(lexer.pos, 10);
}

#[test]
fn digest_access_outcomes() {
    let mut lexer = Lexer::new("::a".to_string());
    lexer.advance();
    assert_eq!(lexer.digest_access().unwrap(), Some(tok(Type::MemberAccess, "::", 0, 2)));
    assert_eq!(lexer.pos, 2);

    let mut lexer = Lexer::new("::1".to_string());
    lexer.advance();
    assert_eq!(lexer.digest_access().unwrap(), None);
    assert_eq!(lexer.pos, 2);

    let mut lexer = Lexer::new("::".to_string());
    lexer.advance();
    assert_eq!(lexer.digest_access().unwrap(), None);
    assert_eq!(lexer.pos, 1);

    let mut lexer = Lexer::new(":;".to_string());
    lexer.advance();
    assert_eq!(lexer.digest_access().unwrap_err(), err(ErrorKind::MissingSecondColon, 0, 1));
}

#[test]
fn digest_number_and_literal_directly() {
    let mut lexer = Lexer::new("4.2".to_string());
    lexer.advance();
    assert_eq!(lexer.digest_number().unwrap(), tok(Type::Number, "4.2", 0, 3));
    assert_eq!(lexer.pos, 3);

    let mut lexer = Lexer::new("1".to_string());
    lexer.advance();
    assert_eq!(lexer.digest_number().unwrap(), tok(Type::Number, "1", 0, 1));
    assert_eq!(lexer.pos, 1);

    let mut lexer = Lexer::new("1_000.5.5".to_string());
    lexer.advance();
    assert_eq!(lexer.digest_number().unwrap(), tok(Type::Number, "1_000.5.5", 0, 9));
    assert_eq!(lexer.pos, 9);

    let mut lexer = Lexer::new("12x".to_string());
    lexer.advance();
    assert_eq!(lexer.digest_number().unwrap_err(), err(ErrorKind::InvalidNumberCharacter, 2, 3));
    assert_eq!(lexer.pos, 2);

    let mut lexer = Lexer::new("\"q\" ".to_string());
    lexer.advance();
    assert_eq!(lexer.digest_literal().unwrap(), tok(Type::String, "\"q\"", 0, 3));
    assert_eq!(lexer.pos, 3);

    let mut lexer = Lexer::new("\"q".to_string());
    lexer.advance();
    assert_eq!(lexer.digest_literal().unwrap_err(), err(ErrorKind::UnterminatedString, 0, 2));
    assert_eq!(lexer.pos, 2);
}

#[test]
fn type_and_token_text() {
    assert_eq!(Type::MemberAccess.to_string(), "MemberAccess");
    assert_eq!(Type::ReservedKeyword.name(), "ReservedKeyword");
    assert_eq!(Type::Modulo.to_string(), "Modulo");
    assert_eq!(tok(Type::Ident, "hello", 0, 5).to_string(), "Token: (Ident, hello)");
}

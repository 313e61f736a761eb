use vstd::prelude::*;
use vstd::string::StringExecFns;

use crate::chars::{is_alnum, is_letter, is_space, push_char};
use crate::grammar::{
    access_resume, access_rest, access_token, char_at, comment_end, ident_end, ident_token,
    lemma_comment_end_bounds, lemma_ident_end_bounds, lemma_lit_scan_bounds, lit_scan, number_stop,
    number_token, punct_type, reserved, scan, string_rest, string_token,
};
use crate::span::Span;
use crate::token::{models, token_result, tokens_result, ErrorKind, LexError, Token, TokenModel, Type};

verus! {

broadcast use vstd::string::group_string_axioms;

/// Scans one source buffer into tokens.
///
/// `pos` is the cursor: the offset of the current character, `-1` before
/// the first one; at or past the buffer's length there is no current
/// character. `chars` is the buffer decoded once, so that every step of
/// the scan reads a character in constant time.
#[derive(Debug, PartialEq, Clone)]
pub struct Lexer {
    pub buffer: String,
    pub pos: isize,
    pub chars: Vec<char>,
}

impl Lexer {
    /// The decoded characters match the buffer and the cursor is not
    /// before `-1`.
    pub open spec fn wf(&self) -> bool {
        &&& self.chars@ == self.buffer@
        &&& self.chars@.len() < isize::MAX
        &&& -1 <= self.pos
    }

    /// Takes the source; the cursor starts before the first character.
    ///
    /// A string never holds more than `isize::MAX` bytes, so the bound
    /// below holds of every string.
    pub fn new(buffer: String) -> (r: Lexer)
        requires
            buffer@.len() < isize::MAX,
        ensures
            r.wf(),
            r.buffer@ == buffer@,
            r.pos == -1,
    {
        let mut chars: Vec<char> = Vec::new();
        for c in it: buffer.chars()
            invariant
                chars@ == it.seq().take(it.index() as int),
        {
            chars.push(c);
        }
        assert(chars@ == buffer@);
        Lexer { buffer, pos: -1, chars }
    }

    /// The character under the cursor, if any.
    pub fn cur(&self) -> (r: Option<char>)
        requires
            self.wf(),
        ensures
            r == char_at(self.buffer@, self.pos as int),
    {
        if 0 <= self.pos && self.pos < self.chars.len() as isize {
            Some(self.chars[self.pos as usize])
        } else {
            None
        }
    }

    /// Moves the cursor one character on and returns the character there.
    pub fn next(&mut self) -> (r: Option<char>)
        requires
            old(self).wf(),
            old(self).pos < isize::MAX,
        ensures
            final(self).wf(),
            final(self).buffer == old(self).buffer,
            final(self).chars == old(self).chars,
            final(self).pos == old(self).pos + 1,
            r == char_at(final(self).buffer@, final(self).pos as int),
    {
        self.advance();
        self.cur()
    }

    /// The character just after the cursor, if any.
    pub fn peek(&self) -> (r: Option<char>)
        requires
            self.wf(),
        ensures
            r == char_at(self.buffer@, self.pos + 1),
    {
        if self.pos < self.chars.len() as isize - 1 {
            Some(self.chars[(self.pos + 1) as usize])
        } else {
            None
        }
    }

    /// Moves the cursor one character on.
    pub fn advance(&mut self)
        requires
            old(self).wf(),
            old(self).pos < isize::MAX,
        ensures
            final(self).wf(),
            final(self).buffer == old(self).buffer,
            final(self).chars == old(self).chars,
            final(self).pos == old(self).pos + 1,
    {
        self.pos = self.pos + 1;
    }

    /// Turns the rest of the source, after the cursor, into tokens in
    /// order, or into the first failure met (no tokens are given then).
    ///
    /// Whitespace separates tokens; a letter or underscore opens an
    /// identifier, a double quote a string, a decimal digit a number, `::`
    /// a member access followed by its identifier; each parenthesis and
    /// brace is a token of one character; `;` starts a comment that runs to
    /// the end of the line. Any other character is an
    /// `UnrecognizedCharacter` failure. A `::` followed by no letter gives
    /// no token, and the character after it is dropped, with the
    /// identifier characters that run on from it. Each sub-scanner leaves
    /// the cursor on the first character it did not consume, and the loop
    /// classifies that character next, so none is lost between tokens.
    pub fn lexeme(&mut self) -> (r: Result<Vec<Token>, LexError>)
        requires
            old(self).wf(),
        ensures
            final(self).wf(),
            final(self).buffer == old(self).buffer,
            final(self).chars == old(self).chars,
            tokens_result(r) == scan(old(self).buffer@, old(self).pos + 1, seq![]),
    {
        let ghost s = self.buffer@;
        let mut tokens: Vec<Token> = Vec::new();
        assert(models(tokens@) =~= seq![]);
        if self.pos >= self.chars.len() as isize {
            return Ok(tokens);
        }
        self.advance();
        loop
            invariant
                self.wf(),
                self.buffer == old(self).buffer,
                self.chars == old(self).chars,
                s == self.buffer@,
                0 <= self.pos <= s.len(),
                scan(s, self.pos as int, models(tokens@)) == scan(s, old(self).pos + 1, seq![]),
            decreases s.len() - self.pos,
        {
            let ghost i = self.pos as int;
            let ghost acc = models(tokens@);
            let ch = match self.cur() {
                Some(c) => c,
                None => {
                    return Ok(tokens);
                },
            };
            if is_space(ch) {
                self.advance();
            } else if ('a' <= ch && ch <= 'z') || ('A' <= ch && ch <= 'Z') || ch == '_' {
                let t = self.digest_ident().unwrap();
                proof {
                    lemma_ident_end_bounds(s, i + 1);
                }
                tokens.push(t);
                assert(models(tokens@) =~= acc.push(ident_token(s, i)));
            } else if ch == '"' {
                let t = match self.digest_literal() {
                    Ok(t) => t,
                    Err(e) => {
                        return Err(e);
                    },
                };
                proof {
                    lemma_lit_scan_bounds(s, i + 1, false, seq!['"']);
                }
                tokens.push(t);
                assert(models(tokens@) =~= acc.push(t@));
            } else if '0' <= ch && ch <= '9' {
                let t = match self.digest_number() {
                    Ok(t) => t,
                    Err(e) => {
                        return Err(e);
                    },
                };
                tokens.push(t);
                assert(models(tokens@) =~= acc.push(t@));
                return Ok(tokens);
            } else if ch == '(' || ch == ')' || ch == '{' || ch == '}' {
                let ty = if ch == '(' {
                    Type::OpenParen
                } else if ch == ')' {
                    Type::CloseParen
                } else if ch == '{' {
                    Type::OpenBrace
                } else {
                    Type::CloseBrace
                };
                let mut body = String::new();
                push_char(&mut body, ch);
                assert(body@ =~= seq![ch]);
                let at = self.pos as usize;
                tokens.push(Token { ty, body, span: Span::new(at, at + 1) });
                assert(models(tokens@) =~= acc.push(
                    TokenModel {
                        ty: punct_type(ch)->0,
                        body: seq![ch],
                        span: Span { start: i as usize, end: (i + 1) as usize },
                    },
                ));
                self.advance();
            } else if ch == ':' {
                match self.digest_access() {
                    Err(e) => {
                        return Err(e);
                    },
                    Ok(Some(access)) => {
                        tokens.push(access);
                        let ghost with_access = models(tokens@);
                        assert(with_access =~= acc.push(access@));
                        let t = self.digest_ident().unwrap();
                        proof {
                            lemma_ident_end_bounds(s, i + 3);
                        }
                        tokens.push(t);
                        assert(models(tokens@) =~= with_access.push(ident_token(s, i + 2)));
                    },
                    Ok(None) => {
                        proof {
                            lemma_ident_end_bounds(s, i + 3);
                        }
                        match self.cur() {
                            Some(c) => {
                                if is_alnum(c) || c == '_' {
                                    let _ = self.digest_ident();
                                } else {
                                    self.advance();
                                }
                            },
                            None => {
                                self.advance();
                            },
                        }
                        assert(self.pos == access_resume(s, i));
                    },
                }
            } else if ch == ';' {
                self.digest_comment();
                proof {
                    lemma_comment_end_bounds(s, i + 1);
                }
            } else {
                let at = self.pos as usize;
                return Err(
                    LexError {
                        kind: ErrorKind::UnrecognizedCharacter,
                        span: Span::new(at, at + 1),
                    },
                );
            }
        }
    }

    /// Skips a comment: moves the cursor to the next newline, or to the end
    /// of the source when there is none.
    pub fn digest_comment(&mut self)
        requires
            old(self).wf(),
        ensures
            final(self).wf(),
            final(self).buffer == old(self).buffer,
            final(self).chars == old(self).chars,
            final(self).pos == comment_end(old(self).buffer@, old(self).pos as int),
    {
        loop
            invariant
                self.wf(),
                self.buffer == old(self).buffer,
                self.chars == old(self).chars,
                old(self).pos <= self.pos,
                comment_end(self.buffer@, self.pos as int) == comment_end(
                    old(self).buffer@,
                    old(self).pos as int,
                ),
            ensures
                self.wf(),
                self.buffer == old(self).buffer,
                self.chars == old(self).chars,
                self.pos == comment_end(old(self).buffer@, old(self).pos as int),
            decreases self.buffer@.len() - self.pos,
        {
            match self.cur() {
                Some(ch) => {
                    if ch == '\n' {
                        break;
                    }
                    self.advance();
                },
                None => {
                    break;
                },
            }
        }
    }

    /// Scans the identifier that opens at the cursor: the current character
    /// and every alphanumeric character or underscore after it. A word of
    /// the reserved set becomes a `ReservedKeyword`. The cursor is left on
    /// the first character after the identifier.
    pub fn digest_ident(&mut self) -> (r: Option<Token>)
        requires
            old(self).wf(),
            0 <= old(self).pos < old(self).buffer@.len(),
        ensures
            final(self).wf(),
            final(self).buffer == old(self).buffer,
            final(self).chars == old(self).chars,
            r is Some,
            r->0@ == ident_token(old(self).buffer@, old(self).pos as int),
            final(self).pos == ident_end(old(self).buffer@, old(self).pos + 1),
    {
        let ghost s = self.buffer@;
        let start = self.pos;
        let mut ident = String::new();
        push_char(&mut ident, self.chars[start as usize]);
        self.advance();
        assert(ident@ =~= s.subrange(start as int, self.pos as int));
        loop
            invariant
                self.wf(),
                self.buffer == old(self).buffer,
                self.chars == old(self).chars,
                s == self.buffer@,
                start == old(self).pos,
                0 <= start < self.pos <= s.len(),
                ident@ == s.subrange(start as int, self.pos as int),
                ident_end(s, self.pos as int) == ident_end(s, start + 1),
            ensures
                self.wf(),
                self.buffer == old(self).buffer,
                self.chars == old(self).chars,
                start < self.pos <= s.len(),
                ident@ == s.subrange(start as int, self.pos as int),
                ident_end(s, start + 1) == self.pos,
            decreases s.len() - self.pos,
        {
            match self.cur() {
                Some(ch) => {
                    if is_alnum(ch) || ch == '_' {
                        push_char(&mut ident, ch);
                        self.advance();
                        assert(ident@ =~= s.subrange(start as int, self.pos as int));
                    } else {
                        break;
                    }
                },
                None => {
                    break;
                },
            }
        }
        let end = self.pos;
        let ty = if is_reserved(&ident) {
            Type::ReservedKeyword
        } else {
            Type::Ident
        };
        Some(Token { ty, body: ident, span: Span::new(start as usize, end as usize) })
    }

    /// Scans the string literal whose opening quote is under the cursor.
    ///
    /// A backslash escapes the next character: `\n` stands for a newline,
    /// any other escaped character for itself. The token's text keeps both
    /// quotes. The cursor is left just past the closing quote; a source
    /// that ends first is an `UnterminatedString` failure spanning the rest
    /// of it, with the cursor at the end.
    pub fn digest_literal(&mut self) -> (r: Result<Token, LexError>)
        requires
            old(self).wf(),
            0 <= old(self).pos < old(self).buffer@.len(),
        ensures
            final(self).wf(),
            final(self).buffer == old(self).buffer,
            final(self).chars == old(self).chars,
            token_result(r) == string_token(old(self).buffer@, old(self).pos as int),
            final(self).pos == string_rest(old(self).buffer@, old(self).pos as int),
    {
        let ghost s = self.buffer@;
        let start = self.pos;
        let mut literal = String::new();
        let mut escaped = false;
        push_char(&mut literal, '"');
        assert(literal@ =~= seq!['"']);
        loop
            invariant
                self.wf(),
                self.buffer == old(self).buffer,
                self.chars == old(self).chars,
                s == self.buffer@,
                start == old(self).pos,
                0 <= start <= self.pos < s.len(),
                lit_scan(s, self.pos + 1, escaped, literal@) == lit_scan(
                    s,
                    start + 1,
                    false,
                    seq!['"'],
                ),
            decreases s.len() - self.pos,
        {
            let ghost before = literal@;
            let ghost was_escaped = escaped;
            let ch = match self.next() {
                Some(c) => c,
                None => {
                    return Err(
                        LexError {
                            kind: ErrorKind::UnterminatedString,
                            span: Span::new(start as usize, self.chars.len()),
                        },
                    );
                },
            };
            if ch == '"' && !escaped {
                push_char(&mut literal, '"');
                self.advance();
                return Ok(
                    Token {
                        ty: Type::String,
                        body: literal,
                        span: Span::new(start as usize, self.pos as usize),
                    },
                );
            } else if ch == '\\' && !escaped {
                escaped = true;
            } else if escaped {
                if ch == 'n' {
                    push_char(&mut literal, '\n');
                } else {
                    push_char(&mut literal, ch);
                }
                escaped = false;
            } else {
                push_char(&mut literal, ch);
            }
            assert(lit_scan(s, self.pos + 1, escaped, literal@) == lit_scan(
                s,
                self.pos as int,
                was_escaped,
                before,
            ));
        }
    }

    /// Scans the number that starts under the cursor. Every character from
    /// there to the end of the source must be a digit, `.` or `_`; the first
    /// other one is an `InvalidNumberCharacter` failure, even where it could
    /// start a token of its own. The cursor is left at the end of the
    /// source, or on the offending character.
    pub fn digest_number(&mut self) -> (r: Result<Token, LexError>)
        requires
            old(self).wf(),
            0 <= old(self).pos < old(self).buffer@.len(),
        ensures
            final(self).wf(),
            final(self).buffer == old(self).buffer,
            final(self).chars == old(self).chars,
            token_result(r) == number_token(old(self).buffer@, old(self).pos as int),
            final(self).pos == number_stop(old(self).buffer@, old(self).pos as int),
    {
        let ghost s = self.buffer@;
        let start = self.pos;
        let mut number = String::new();
        loop
            invariant
                self.wf(),
                self.buffer == old(self).buffer,
                self.chars == old(self).chars,
                s == self.buffer@,
                start == old(self).pos,
                0 <= start <= self.pos <= s.len(),
                number@ == s.subrange(start as int, self.pos as int),
                number_stop(s, self.pos as int) == number_stop(s, start as int),
            decreases s.len() - self.pos,
        {
            let ch = match self.cur() {
                Some(c) => c,
                None => {
                    let end = self.pos as usize;
                    return Ok(
                        Token { ty: Type::Number, body: number, span: Span::new(start as usize, end) },
                    );
                },
            };
            if !(('0' <= ch && ch <= '9') || ch == '.' || ch == '_') {
                let bad = self.pos as usize;
                return Err(
                    LexError {
                        kind: ErrorKind::InvalidNumberCharacter,
                        span: Span::new(bad, bad + 1),
                    },
                );
            }
            push_char(&mut number, ch);
            self.advance();
            assert(number@ =~= s.subrange(start as int, self.pos as int));
        }
    }

    /// Reads the member-access operator whose first colon is under the
    /// cursor, moving onto the next character. Without a second colon it
    /// fails with `MissingSecondColon`. Otherwise, when a character follows
    /// the two colons, the cursor moves onto it, and the `::` token is given
    /// only if that character is alphabetic.
    pub fn digest_access(&mut self) -> (r: Result<Option<Token>, LexError>)
        requires
            old(self).wf(),
            0 <= old(self).pos < old(self).buffer@.len(),
        ensures
            final(self).wf(),
            final(self).buffer == old(self).buffer,
            final(self).chars == old(self).chars,
            access_result(r) == access_token(old(self).buffer@, old(self).pos as int),
            final(self).pos == access_rest(old(self).buffer@, old(self).pos as int),
    {
        let start = self.pos;
        match self.next() {
            Some(c) => {
                if c != ':' {
                    return Err(
                        LexError {
                            kind: ErrorKind::MissingSecondColon,
                            span: Span::new(start as usize, (start + 1) as usize),
                        },
                    );
                }
            },
            None => {
                return Err(
                    LexError {
                        kind: ErrorKind::MissingSecondColon,
                        span: Span::new(start as usize, (start + 1) as usize),
                    },
                );
            },
        }
        if self.peek().is_none() {
            return Ok(None);
        }
        match self.next() {
            Some(c) => {
                if is_letter(c) {
                    let mut body = String::new();
                    push_char(&mut body, ':');
                    push_char(&mut body, ':');
                    assert(body@ =~= seq![':', ':']);
                    Ok(
                        Some(
                            Token {
                                ty: Type::MemberAccess,
                                body,
                                span: Span::new(start as usize, (start + 2) as usize),
                            },
                        ),
                    )
                } else {
                    Ok(None)
                }
            },
            None => Ok(None),
        }
    }
}

pub open spec fn access_result(r: Result<Option<Token>, LexError>) -> Result<
    Option<TokenModel>,
    LexError,
> {
    match r {
        Ok(Some(t)) => Ok(Some(t@)),
        Ok(None) => Ok(None),
        Err(e) => Err(e),
    }
}

/// Whether a word is one of the reserved keywords.
fn is_reserved(w: &String) -> (r: bool)
    ensures
        r == reserved(w@),
{
    proof {
        reveal_strlit("new");
        reveal_strlit("conditions");
        reveal_strlit("logic");
    }
    let k_new = String::from_str("new");
    let k_conditions = String::from_str("conditions");
    let k_logic = String::from_str("logic");
    assert(k_new@ =~= seq!['n', 'e', 'w']);
    assert(k_conditions@ =~= seq!['c', 'o', 'n', 'd', 'i', 't', 'i', 'o', 'n', 's']);
    assert(k_logic@ =~= seq!['l', 'o', 'g', 'i', 'c']);
    *w == k_new || *w == k_conditions || *w == k_logic
}

} // verus!

//! What scanning means, stated over the source as a sequence of characters.
//!
//! An index `i` below is a character offset; scanning "from `i`" reads the
//! character at `i` first.
use vstd::prelude::*;

use crate::chars::{letter, letter_or_digit, space};
use crate::span::Span;
use crate::token::{ErrorKind, LexError, TokenModel, Type};

verus! {

pub open spec fn is_digit(c: char) -> bool {
    '0' <= c && c <= '9'
}

/// A character that opens an identifier in the main scanning loop.
pub open spec fn ident_start(c: char) -> bool {
    ('a' <= c && c <= 'z') || ('A' <= c && c <= 'Z') || c == '_'
}

/// A character that continues an identifier.
pub open spec fn ident_char(c: char) -> bool {
    letter_or_digit(c) || c == '_'
}

/// A character allowed inside a number.
pub open spec fn number_char(c: char) -> bool {
    is_digit(c) || c == '.' || c == '_'
}

/// The character at `i`, if there is one.
pub open spec fn char_at(s: Seq<char>, i: int) -> Option<char> {
    if 0 <= i < s.len() {
        Some(s[i])
    } else {
        None
    }
}

pub open spec fn reserved(w: Seq<char>) -> bool {
    w == seq!['n', 'e', 'w'] || w == seq!['c', 'o', 'n', 'd', 'i', 't', 'i', 'o', 'n', 's']
        || w == seq!['l', 'o', 'g', 'i', 'c']
}

/// The first index at or after `j` that does not continue an identifier,
/// or the end of the source.
pub open spec fn ident_end(s: Seq<char>, j: int) -> int
    decreases s.len() - j,
{
    if 0 <= j < s.len() && ident_char(s[j]) {
        ident_end(s, j + 1)
    } else {
        j
    }
}

/// The first index at or after `j` that holds no number character, or the
/// end of the source.
pub open spec fn number_stop(s: Seq<char>, j: int) -> int
    decreases s.len() - j,
{
    if 0 <= j < s.len() && number_char(s[j]) {
        number_stop(s, j + 1)
    } else {
        j
    }
}

/// The index of the first newline at or after `i`, or the end of the source.
pub open spec fn comment_end(s: Seq<char>, i: int) -> int
    decreases s.len() - i,
{
    if 0 <= i < s.len() && s[i] != '\n' {
        comment_end(s, i + 1)
    } else {
        i
    }
}

/// The character an escaped `c` stands for.
pub open spec fn unescape(c: char) -> char {
    if c == 'n' {
        '\n'
    } else {
        c
    }
}

/// Reads a string literal's interior from `k` on, `acc` being the text so
/// far and `escaped` telling whether a backslash came just before.
/// Gives the whole literal text, closing quote included, and the index of
/// the closing quote; nothing when the source ends first.
pub open spec fn lit_scan(s: Seq<char>, k: int, escaped: bool, acc: Seq<char>) -> Option<
    (Seq<char>, int),
>
    decreases s.len() - k,
{
    if k < 0 || k >= s.len() {
        None
    } else if s[k] == '"' && !escaped {
        Some((acc.push('"'), k))
    } else if s[k] == '\\' && !escaped {
        lit_scan(s, k + 1, true, acc)
    } else if escaped {
        lit_scan(s, k + 1, false, acc.push(unescape(s[k])))
    } else {
        lit_scan(s, k + 1, false, acc.push(s[k]))
    }
}

/// The identifier or keyword that occupies `[i, e)`.
pub open spec fn word_model(s: Seq<char>, i: int, e: int) -> TokenModel {
    let w = s.subrange(i, e);
    TokenModel {
        ty: if reserved(w) {
            Type::ReservedKeyword
        } else {
            Type::Ident
        },
        body: w,
        span: Span { start: i as usize, end: e as usize },
    }
}

/// The identifier that opens at `i`: the character at `i` and every
/// identifier character after it.
pub open spec fn ident_token(s: Seq<char>, i: int) -> TokenModel {
    word_model(s, i, ident_end(s, i + 1))
}

/// The string literal whose opening quote is at `i`.
pub open spec fn string_token(s: Seq<char>, i: int) -> Result<TokenModel, LexError> {
    match lit_scan(s, i + 1, false, seq!['"']) {
        Some((b, k)) => Ok(
            TokenModel { ty: Type::String, body: b, span: Span { start: i as usize, end: (k + 1) as usize } },
        ),
        None => Err(
            LexError {
                kind: ErrorKind::UnterminatedString,
                span: Span { start: i as usize, end: s.len() as usize },
            },
        ),
    }
}

/// Where the cursor rests after the string literal opening at `i`: just
/// past the closing quote, or at the end of the source.
pub open spec fn string_rest(s: Seq<char>, i: int) -> int {
    match lit_scan(s, i + 1, false, seq!['"']) {
        Some((_, k)) => k + 1,
        None => s.len() as int,
    }
}

/// The number that starts at `i`: it must run to the end of the source.
pub open spec fn number_token(s: Seq<char>, i: int) -> Result<TokenModel, LexError> {
    let k = number_stop(s, i);
    if k < s.len() {
        Err(
            LexError {
                kind: ErrorKind::InvalidNumberCharacter,
                span: Span { start: k as usize, end: (k + 1) as usize },
            },
        )
    } else {
        Ok(
            TokenModel {
                ty: Type::Number,
                body: s.subrange(i, s.len() as int),
                span: Span { start: i as usize, end: s.len() as usize },
            },
        )
    }
}

/// The member-access operator whose first colon is at `i`: an error when
/// no second colon follows, no token when the character after the two
/// colons is missing or not alphabetic.
pub open spec fn access_token(s: Seq<char>, i: int) -> Result<Option<TokenModel>, LexError> {
    if !(i + 1 < s.len() && s[i + 1] == ':') {
        Err(
            LexError {
                kind: ErrorKind::MissingSecondColon,
                span: Span { start: i as usize, end: (i + 1) as usize },
            },
        )
    } else if i + 2 < s.len() && letter(s[i + 2]) {
        Ok(
            Some(
                TokenModel {
                    ty: Type::MemberAccess,
                    body: seq![':', ':'],
                    span: Span { start: i as usize, end: (i + 2) as usize },
                },
            ),
        )
    } else {
        Ok(None)
    }
}

/// Where the cursor rests after the member-access operator at `i`: on the
/// character after the two colons when a second colon and a character
/// after it are there, else on the position after the first colon.
pub open spec fn access_rest(s: Seq<char>, i: int) -> int {
    match access_token(s, i) {
        Err(_) => i + 1,
        Ok(Some(_)) => i + 2,
        Ok(None) => if i + 2 < s.len() {
            i + 2
        } else {
            i + 1
        },
    }
}

/// Where scanning resumes after a `::` that no letter follows: the
/// character after the colons is dropped, together with the identifier
/// characters that run on from it.
pub open spec fn access_resume(s: Seq<char>, i: int) -> int {
    if i + 2 < s.len() && ident_char(s[i + 2]) {
        ident_end(s, i + 3)
    } else if i + 2 < s.len() {
        i + 3
    } else {
        i + 2
    }
}

/// The kind of a one-character punctuation token.
pub open spec fn punct_type(c: char) -> Option<Type> {
    if c == '(' {
        Some(Type::OpenParen)
    } else if c == ')' {
        Some(Type::CloseParen)
    } else if c == '{' {
        Some(Type::OpenBrace)
    } else if c == '}' {
        Some(Type::CloseBrace)
    } else {
        None
    }
}

pub proof fn lemma_ident_end_bounds(s: Seq<char>, j: int)
    requires
        0 <= j,
    ensures
        j <= ident_end(s, j),
        j <= s.len() ==> ident_end(s, j) <= s.len(),
    decreases s.len() - j,
{
    if 0 <= j < s.len() && ident_char(s[j]) {
        lemma_ident_end_bounds(s, j + 1);
    }
}

pub proof fn lemma_comment_end_bounds(s: Seq<char>, i: int)
    requires
        0 <= i,
    ensures
        i <= comment_end(s, i),
        i <= s.len() ==> comment_end(s, i) <= s.len(),
    decreases s.len() - i,
{
    if 0 <= i < s.len() && s[i] != '\n' {
        lemma_comment_end_bounds(s, i + 1);
    }
}

pub proof fn lemma_lit_scan_bounds(s: Seq<char>, k: int, escaped: bool, acc: Seq<char>)
    ensures
        lit_scan(s, k, escaped, acc) matches Some((_, e)) ==> k <= e < s.len(),
    decreases s.len() - k,
{
    if k < 0 || k >= s.len() {
    } else if s[k] == '"' && !escaped {
    } else if s[k] == '\\' && !escaped {
        lemma_lit_scan_bounds(s, k + 1, true, acc);
    } else if escaped {
        lemma_lit_scan_bounds(s, k + 1, false, acc.push(unescape(s[k])));
    } else {
        lemma_lit_scan_bounds(s, k + 1, false, acc.push(s[k]));
    }
}

/// Scans the source from `i` on, after the tokens `acc`: the full token
/// sequence, or the failure that ends the scan.
pub open spec fn scan(s: Seq<char>, i: int, acc: Seq<TokenModel>) -> Result<
    Seq<TokenModel>,
    LexError,
>
    decreases s.len() + 1 - i,
{
    if i < 0 || i >= s.len() {
        Ok(acc)
    } else {
        let c = s[i];
        if space(c) {
            scan(s, i + 1, acc)
        } else if ident_start(c) {
            proof {
                lemma_ident_end_bounds(s, i + 1);
            }
            scan(s, ident_end(s, i + 1), acc.push(ident_token(s, i)))
        } else if c == '"' {
            proof {
                lemma_lit_scan_bounds(s, i + 1, false, seq!['"']);
            }
            match string_token(s, i) {
                Ok(t) => scan(s, string_rest(s, i), acc.push(t)),
                Err(e) => Err(e),
            }
        } else if is_digit(c) {
            match number_token(s, i) {
                Ok(t) => Ok(acc.push(t)),
                Err(e) => Err(e),
            }
        } else if punct_type(c) is Some {
            scan(
                s,
                i + 1,
                acc.push(
                    TokenModel {
                        ty: punct_type(c)->0,
                        body: seq![c],
                        span: Span { start: i as usize, end: (i + 1) as usize },
                    },
                ),
            )
        } else if c == ':' {
            match access_token(s, i) {
                Err(e) => Err(e),
                Ok(Some(t)) => {
                    proof {
                        lemma_ident_end_bounds(s, i + 3);
                    }
                    scan(s, ident_end(s, i + 3), acc.push(t).push(ident_token(s, i + 2)))
                },
                Ok(None) => {
                    proof {
                        lemma_ident_end_bounds(s, i + 3);
                    }
                    scan(s, access_resume(s, i), acc)
                },
            }
        } else if c == ';' {
            proof {
                lemma_comment_end_bounds(s, i + 1);
            }
            scan(s, comment_end(s, i), acc)
        } else {
            Err(
                LexError {
                    kind: ErrorKind::UnrecognizedCharacter,
                    span: Span { start: i as usize, end: (i + 1) as usize },
                },
            )
        }
    }
}

} // verus!

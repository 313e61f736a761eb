use vstd::prelude::*;
use vstd::string::StringExecFns;

use crate::span::Span;

verus! {

/// The lexical categories of the language.
///
/// Only `Ident`, `ReservedKeyword`, `String`, `Number`, the parentheses,
/// the braces and `MemberAccess` are produced by the scanner; the operator
/// kinds are reserved for later growth of the language.
#[derive(Debug, Clone, Copy, PartialEq, Eq, Structural)]
pub enum Type {
    Ident,
    ReservedKeyword,
    String,
    Number,
    OpenParen,
    CloseParen,
    OpenBrace,
    CloseBrace,
    MemberAccess,
    Colon,
    SemiColon,
    Comma,
    Dot,
    Equal,
    Greater,
    Less,
    Plus,
    Minus,
    Multiply,
    Divide,
    Modulo,
}

impl Type {
    /// The kind's name.
    pub open spec fn text(self) -> Seq<char> {
        match self {
            Type::Ident => "Ident"@,
            Type::ReservedKeyword => "ReservedKeyword"@,
            Type::String => "String"@,
            Type::Number => "Number"@,
            Type::OpenParen => "OpenParen"@,
            Type::CloseParen => "CloseParen"@,
            Type::OpenBrace => "OpenBrace"@,
            Type::CloseBrace => "CloseBrace"@,
            Type::MemberAccess => "MemberAccess"@,
            Type::Colon => "Colon"@,
            Type::SemiColon => "SemiColon"@,
            Type::Comma => "Comma"@,
            Type::Dot => "Dot"@,
            Type::Equal => "Equal"@,
            Type::Greater => "Greater"@,
            Type::Less => "Less"@,
            Type::Plus => "Plus"@,
            Type::Minus => "Minus"@,
            Type::Multiply => "Multiply"@,
            Type::Divide => "Divide"@,
            Type::Modulo => "Modulo"@,
        }
    }

    pub fn name(&self) -> (r: &'static str)
        ensures
            r@ == self.text(),
    {
        match self {
            Type::Ident => "Ident",
            Type::ReservedKeyword => "ReservedKeyword",
            Type::String => "String",
            Type::Number => "Number",
            Type::OpenParen => "OpenParen",
            Type::CloseParen => "CloseParen",
            Type::OpenBrace => "OpenBrace",
            Type::CloseBrace => "CloseBrace",
            Type::MemberAccess => "MemberAccess",
            Type::Colon => "Colon",
            Type::SemiColon => "SemiColon",
            Type::Comma => "Comma",
            Type::Dot => "Dot",
            Type::Equal => "Equal",
            Type::Greater => "Greater",
            Type::Less => "Less",
            Type::Plus => "Plus",
            Type::Minus => "Minus",
            Type::Multiply => "Multiply",
            Type::Divide => "Divide",
            Type::Modulo => "Modulo",
        }
    }

    pub fn to_string(&self) -> (r: String)
        ensures
            r@ == self.text(),
    {
        String::from_str(self.name())
    }
}

/// A classified, located piece of source text.
///
/// `body` is the text the token was scanned from (a string literal keeps
/// its quotes, with escapes decoded); `span` locates it in the source.
#[derive(Debug, PartialEq)]
pub struct Token {
    pub ty: Type,
    pub body: String,
    pub span: Span,
}

/// What a token means in contracts: its kind, its text as
/// characters, and its span.
pub struct TokenModel {
    pub ty: Type,
    pub body: Seq<char>,
    pub span: Span,
}

impl Token {
    /// The token as text: `Token: (kind, body)`.
    pub open spec fn text(&self) -> Seq<char> {
        "Token: ("@ + self.ty.text() + ", "@ + self.body@ + ")"@
    }

    pub fn to_string(&self) -> (r: String)
        ensures
            r@ == self.text(),
    {
        let mut r = String::from_str("Token: (");
        r.append(self.ty.name());
        r.append(", ");
        r.append(self.body.as_str());
        r.append(")");
        r
    }
}

impl View for Token {
    type V = TokenModel;

    open spec fn view(&self) -> TokenModel {
        TokenModel { ty: self.ty, body: self.body@, span: self.span }
    }
}

/// The ways a scan can fail. Every failure ends the scan.
#[derive(Debug, Clone, Copy, PartialEq, Eq, Structural)]
pub enum ErrorKind {
    /// End of input came before the closing double quote.
    UnterminatedString,
    /// A character other than a digit, `.` or `_` followed a number.
    InvalidNumberCharacter,
    /// A character that starts no token.
    UnrecognizedCharacter,
    /// A `:` that is not followed by a second `:`.
    MissingSecondColon,
}

/// A lexical failure and the span of source it concerns.
#[derive(Debug, Clone, Copy, PartialEq, Eq, Structural)]
pub struct LexError {
    pub kind: ErrorKind,
    pub span: Span,
}

/// The models of a sequence of tokens, in order.
pub open spec fn models(v: Seq<Token>) -> Seq<TokenModel> {
    v.map_values(|t: Token| t@)
}

pub open spec fn token_result(r: Result<Token, LexError>) -> Result<TokenModel, LexError> {
    match r {
        Ok(t) => Ok(t@),
        Err(e) => Err(e),
    }
}

pub open spec fn tokens_result(r: Result<Vec<Token>, LexError>) -> Result<Seq<TokenModel>, LexError> {
    match r {
        Ok(v) => Ok(models(v@)),
        Err(e) => Err(e),
    }
}

} // verus!

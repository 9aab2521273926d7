use vstd::prelude::*;

verus! {

/// The class of a token.
///
/// A number token carries the IEEE-754 bit pattern of its single-precision
/// value.
#[derive(Clone, Copy, Debug, PartialEq, Eq, Structural)]
pub enum TokenKind {
    // Single-character tokens.
    LeftParen,
    RightParen,
    LeftBrace,
    RightBrace,
    LeftBracket,
    RightBracket,
    Comma,
    Dot,
    Minus,
    Plus,
    Slash,
    Star,
    Semicolon,
    Caret,
    // One or two character tokens.
    Bang,
    BangEqual,
    Equal,
    EqualEqual,
    Greater,
    GreaterEqual,
    Less,
    LessEqual,
    // Literals.
    Identifier,
    Number(u32),
    // Keywords.
    And,
    Or,
    If,
    Else,
    Bool(bool),
    Class,
    Super,
    Fn,
    For,
    Nil,
    Return,
    This,
    Let,
    While,
    Newline,
    Error,
}

/// One token of the source: its class and the text it was read from.
#[derive(Clone, Debug, PartialEq)]
pub struct Token {
    pub kind: TokenKind,
    pub lexeme: String,
}

impl Token {
    /// A token of the class `kind`, read from `lexeme`.
    pub fn new(kind: TokenKind, lexeme: String) -> (token: Token)
        ensures
            token.kind == kind,
            token.lexeme@ == lexeme@,
    {
        Token { kind, lexeme }
    }
}

/// The classes of a token sequence, in order.
pub open spec fn kinds(tokens: Seq<Token>) -> Seq<TokenKind> {
    tokens.map_values(|token: Token| token.kind)
}

/// The texts of a token sequence, in order.
pub open spec fn lexemes(tokens: Seq<Token>) -> Seq<Seq<char>> {
    tokens.map_values(|token: Token| token.lexeme@)
}

} // verus!

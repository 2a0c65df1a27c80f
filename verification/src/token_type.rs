//! The closed vocabulary of token kinds the lexer can emit.

use vstd::prelude::*;

verus! {

/// Every kind of token the lexer can produce. The scan of any input ends with
/// exactly one `EOF`.
#[derive(Clone, Copy, Debug, PartialEq, Eq, Structural)]
pub enum TokenType {
    // Single-character tokens.
    LeftParen,
    RightParen,
    LeftBrace,
    RightBrace,
    Comma,
    Period,
    Minus,
    Plus,
    SemiColon,
    Slash,
    Asterisk,
    CarriageReturn,
    Tab,
    // One or two character tokens.
    Bang,
    BangEqual,
    Equal,
    EqualEqual,
    GreaterThan,
    GreaterThanEqual,
    LessThan,
    LessThanEqual,
    // Literals.
    Identifier,
    String,
    Integer,
    // Keywords.
    And,
    Else,
    False,
    Function,
    For,
    If,
    NoneKw,
    Or,
    Print,
    Return,
    This,
    True,
    Struct,
    Let,
    While,
    EOF,
}

} // verus!

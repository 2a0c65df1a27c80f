//! Tokens and their literal payloads, with the mathematical views that the
//! scanner's contracts are stated over.

use vstd::prelude::*;

use crate::token_type::TokenType;

verus! {

/// Decoded payload of a literal token: the digits' value for an integer
/// literal, the text between the delimiters for a string literal, and the
/// spelling for a keyword.
#[derive(Debug, Clone)]
pub enum Literal {
    StrLiteral(String),
    IntLiteral(u32),
}

/// Mathematical value of a `Literal`.
pub ghost enum SpecLiteral {
    Str(Seq<char>),
    Int(u32),
}

impl View for Literal {
    type V = SpecLiteral;

    open spec fn view(&self) -> SpecLiteral {
        match self {
            Literal::StrLiteral(s) => SpecLiteral::Str(s@),
            Literal::IntLiteral(n) => SpecLiteral::Int(*n),
        }
    }
}

/// One classified token: its kind, the exact source text that produced it
/// (without delimiter quotes, for a string literal), an optional decoded
/// payload, and the 1-based line on which it began.
#[derive(Debug, Clone)]
pub struct Token {
    pub token_type: TokenType,
    pub lexeme: String,
    pub literal: Option<Literal>,
    pub line: u32,
}

/// Mathematical value of a `Token`: the lexeme as a character sequence and
/// the line as an unbounded integer.
pub ghost struct SpecToken {
    pub token_type: TokenType,
    pub lexeme: Seq<char>,
    pub literal: Option<SpecLiteral>,
    pub line: int,
}

impl View for Token {
    type V = SpecToken;

    open spec fn view(&self) -> SpecToken {
        SpecToken {
            token_type: self.token_type,
            lexeme: self.lexeme@,
            literal: match self.literal {
                Option::Some(l) => Option::Some(l@),
                Option::None => Option::None,
            },
            line: self.line as int,
        }
    }
}

impl Token {
    pub fn new(token_type: TokenType, lexeme: String, literal: Option<Literal>, line: u32) -> (t:
        Token)
        ensures
            t == (Token { token_type, lexeme, literal, line }),
    {
        Token { token_type, lexeme, literal, line }
    }
}

/// The views of a token vector, in order.
pub open spec fn toks_view(ts: Seq<Token>) -> Seq<SpecToken> {
    ts.map_values(|t: Token| t@)
}

} // verus!

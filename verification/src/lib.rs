//! Lexical-analysis front end for a small interpreted language: raw source
//! text in, a flat ordered sequence of classified tokens out, with non-fatal
//! diagnostics for malformed input.

pub mod diag;
pub mod keywords;
pub mod laws;
pub mod model;
pub mod scanner;
pub mod token;
pub mod token_type;

pub use diag::DiagKind;
pub use diag::Diagnostic;
pub use keywords::KeywordTable;
pub use keywords::init_keywords_hash_map;
pub use scanner::Scanner;
pub use scanner::scan;
pub use token::Literal;
pub use token::Token;
pub use token_type::TokenType;

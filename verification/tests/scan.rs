use monk_lexer::diag::DiagKind;
use monk_lexer::keywords::init_keywords_hash_map;
use monk_lexer::scanner::Scanner;
use monk_lexer::scanner::scan;
use monk_lexer::token::Literal;
use monk_lexer::token::Token;
use monk_lexer::token_type::TokenType;

fn kinds(tokens: &[Token]) -> Vec<TokenType> {
    tokens.iter().map(|t| t.token_type).collect()
}

fn scan_str(source: &str) -> (Vec<Token>, Vec<monk_lexer::diag::Diagnostic>) {
    scan(source.to_string())
}

#[test]
fn empty_input_scans_to_eof_alone() {
    let (tokens, diags) = scan_str("");
    assert_eq!(kinds(&tokens), vec![TokenType::EOF]);
    assert_eq!(tokens[0].lexeme, "");
    assert_eq!(tokens[0].line, 1);
    assert!(tokens[0].literal.is_none());
    assert!(diags.is_empty());
}

#[test]
fn arithmetic_operators() {
    let (tokens, diags) = scan_str("+ - * /");
    assert_eq!(
        kinds(&tokens),
        vec![
            TokenType::Plus,
            TokenType::Minus,
            TokenType::Asterisk,
            TokenType::Slash,
            TokenType::EOF,
        ]
    );
    assert!(diags.is_empty());
}

#[test]
fn let_binding_statement() {
    let (tokens, diags) = scan_str("let x = 5");
    assert_eq!(
        kinds(&tokens),
        vec![
            TokenType::Let,
            TokenType::Identifier,
            TokenType::Equal,
            TokenType::Integer,
            TokenType::EOF,
        ]
    );
    assert_eq!(tokens[0].lexeme, "let");
    assert!(matches!(tokens[0].literal, Some(Literal::StrLiteral(ref s)) if s == "let"));
    assert_eq!(tokens[1].lexeme, "x");
    assert!(tokens[1].literal.is_none());
    assert!(matches!(tokens[3].literal, Some(Literal::IntLiteral(5))));
    assert!(diags.is_empty());
}

#[test]
fn unterminated_string_reports_and_still_ends_with_eof() {
    let (tokens, diags) = scan_str("\"hello");
    assert_eq!(kinds(&tokens), vec![TokenType::EOF]);
    assert_eq!(diags.len(), 1);
    assert_eq!(diags[0].kind, DiagKind::UnterminatedLiteral);
    assert_eq!(diags[0].line, 1);
}

#[test]
fn line_comment_is_discarded_and_lines_count() {
    let (tokens, diags) = scan_str("// comment\n1");
    assert_eq!(kinds(&tokens), vec![TokenType::Integer, TokenType::EOF]);
    assert_eq!(tokens[0].line, 2);
    assert!(matches!(tokens[0].literal, Some(Literal::IntLiteral(1))));
    assert!(diags.is_empty());
}

#[test]
fn comment_to_end_of_input() {
    let (tokens, diags) = scan_str("//x");
    assert_eq!(kinds(&tokens), vec![TokenType::EOF]);
    assert!(diags.is_empty());
}

#[test]
fn bang_equal_takes_both_characters() {
    let (tokens, _) = scan_str("!=");
    assert_eq!(kinds(&tokens), vec![TokenType::BangEqual, TokenType::EOF]);
}

#[test]
fn bang_alone_when_not_followed_by_equal() {
    let (tokens, _) = scan_str("!a");
    assert_eq!(
        kinds(&tokens),
        vec![TokenType::Bang, TokenType::Identifier, TokenType::EOF]
    );
}

#[test]
fn keyword_lookup_is_exact_not_prefix() {
    let (tokens, _) = scan_str("lets");
    assert_eq!(kinds(&tokens), vec![TokenType::Identifier, TokenType::EOF]);
    assert_eq!(tokens[0].lexeme, "lets");
    assert!(tokens[0].literal.is_none());
}

#[test]
fn every_keyword_scans_to_its_kind() {
    let cases = [
        ("and", TokenType::And),
        ("struct", TokenType::Struct),
        ("else", TokenType::Else),
        ("false", TokenType::False),
        ("for", TokenType::For),
        ("fn", TokenType::Function),
        ("if", TokenType::If),
        ("none", TokenType::NoneKw),
        ("or", TokenType::Or),
        ("print", TokenType::Print),
        ("return", TokenType::Return),
        ("this", TokenType::This),
        ("true", TokenType::True),
        ("let", TokenType::Let),
        ("while", TokenType::While),
    ];
    for (word, kind) in cases {
        let (tokens, diags) = scan_str(word);
        assert_eq!(kinds(&tokens), vec![kind, TokenType::EOF], "keyword {word}");
        assert_eq!(tokens[0].lexeme, word);
        assert!(matches!(tokens[0].literal, Some(Literal::StrLiteral(ref s)) if s == word));
        assert!(diags.is_empty());
    }
}

#[test]
fn keyword_table_lookup_direct() {
    let table = init_keywords_hash_map();
    assert!(matches!(table.lookup(&"let".to_string()), Some(TokenType::Let)));
    assert!(matches!(table.lookup(&"fn".to_string()), Some(TokenType::Function)));
    assert!(table.lookup(&"lets".to_string()).is_none());
    assert!(table.lookup(&"Let".to_string()).is_none());
    assert!(table.lookup(&"".to_string()).is_none());
}

#[test]
fn comparison_operators_one_and_two_characters() {
    let (tokens, _) = scan_str("< <= > >= = == ! !=");
    assert_eq!(
        kinds(&tokens),
        vec![
            TokenType::LessThan,
            TokenType::LessThanEqual,
            TokenType::GreaterThan,
            TokenType::GreaterThanEqual,
            TokenType::Equal,
            TokenType::EqualEqual,
            TokenType::Bang,
            TokenType::BangEqual,
            TokenType::EOF,
        ]
    );
}

#[test]
fn punctuation_single_characters() {
    let (tokens, _) = scan_str("(){},.;");
    assert_eq!(
        kinds(&tokens),
        vec![
            TokenType::LeftParen,
            TokenType::RightParen,
            TokenType::LeftBrace,
            TokenType::RightBrace,
            TokenType::Comma,
            TokenType::Period,
            TokenType::SemiColon,
            TokenType::EOF,
        ]
    );
}

#[test]
fn carriage_return_and_tab_are_tokens() {
    let (tokens, _) = scan_str("\r\t");
    assert_eq!(
        kinds(&tokens),
        vec![TokenType::CarriageReturn, TokenType::Tab, TokenType::EOF]
    );
}

#[test]
fn string_literal_value_strips_quotes() {
    let (tokens, diags) = scan_str("\"hi\"");
    assert_eq!(kinds(&tokens), vec![TokenType::String, TokenType::EOF]);
    assert_eq!(tokens[0].lexeme, "hi");
    assert!(matches!(tokens[0].literal, Some(Literal::StrLiteral(ref s)) if s == "hi"));
    assert!(diags.is_empty());
}

#[test]
fn single_quoted_string_literal() {
    let (tokens, diags) = scan_str("'hi'");
    assert_eq!(kinds(&tokens), vec![TokenType::String, TokenType::EOF]);
    assert!(matches!(tokens[0].literal, Some(Literal::StrLiteral(ref s)) if s == "hi"));
    assert!(diags.is_empty());
}

#[test]
fn string_literal_closes_only_on_its_own_quote() {
    // Strict matching: a double-quoted literal may hold a single quote.
    let (tokens, diags) = scan_str("\"it's\"");
    assert_eq!(kinds(&tokens), vec![TokenType::String, TokenType::EOF]);
    assert!(matches!(tokens[0].literal, Some(Literal::StrLiteral(ref s)) if s == "it's"));
    assert!(diags.is_empty());
    // A double-quoted literal is not closed by a single quote.
    let (tokens, diags) = scan_str("\"abc'");
    assert_eq!(kinds(&tokens), vec![TokenType::EOF]);
    assert_eq!(diags.len(), 1);
    assert_eq!(diags[0].kind, DiagKind::UnterminatedLiteral);
}

#[test]
fn newline_inside_string_counts_lines_but_does_not_end_it() {
    let (tokens, diags) = scan_str("\"a\nb\"c");
    assert_eq!(
        kinds(&tokens),
        vec![TokenType::String, TokenType::Identifier, TokenType::EOF]
    );
    assert!(matches!(tokens[0].literal, Some(Literal::StrLiteral(ref s)) if s == "a\nb"));
    // The string began on line 1; the identifier after it stands on line 2.
    assert_eq!(tokens[0].line, 1);
    assert_eq!(tokens[1].line, 2);
    assert!(diags.is_empty());
}

#[test]
fn integer_literal_maximal_run_and_value() {
    let (tokens, diags) = scan_str("007 42");
    assert_eq!(
        kinds(&tokens),
        vec![TokenType::Integer, TokenType::Integer, TokenType::EOF]
    );
    assert_eq!(tokens[0].lexeme, "007");
    assert!(matches!(tokens[0].literal, Some(Literal::IntLiteral(7))));
    assert!(matches!(tokens[1].literal, Some(Literal::IntLiteral(42))));
    assert!(diags.is_empty());
}

#[test]
fn integer_literal_at_width_limit() {
    let (tokens, diags) = scan_str("4294967295");
    assert_eq!(kinds(&tokens), vec![TokenType::Integer, TokenType::EOF]);
    assert!(matches!(tokens[0].literal, Some(Literal::IntLiteral(4294967295))));
    assert!(diags.is_empty());
}

#[test]
fn integer_overflow_is_a_diagnostic_not_a_token() {
    let (tokens, diags) = scan_str("4294967296");
    assert_eq!(kinds(&tokens), vec![TokenType::EOF]);
    assert_eq!(diags.len(), 1);
    assert_eq!(diags[0].kind, DiagKind::NumericOverflow);
    assert_eq!(diags[0].line, 1);
}

#[test]
fn long_digit_run_with_leading_zeros_still_fits() {
    let (tokens, diags) = scan_str("00000000000000000009");
    assert_eq!(kinds(&tokens), vec![TokenType::Integer, TokenType::EOF]);
    assert!(matches!(tokens[0].literal, Some(Literal::IntLiteral(9))));
    assert!(diags.is_empty());
}

#[test]
fn unexpected_character_is_reported_and_scanning_continues() {
    let (tokens, diags) = scan_str("@1");
    assert_eq!(kinds(&tokens), vec![TokenType::Integer, TokenType::EOF]);
    assert_eq!(diags.len(), 1);
    assert_eq!(diags[0].kind, DiagKind::UnexpectedCharacter);
    assert_eq!(diags[0].line, 1);
    assert_eq!(diags[0].col, 1);
}

#[test]
fn several_independent_errors_in_one_scan() {
    let (tokens, diags) = scan_str("@ # 1");
    assert_eq!(kinds(&tokens), vec![TokenType::Integer, TokenType::EOF]);
    assert_eq!(diags.len(), 2);
    assert_eq!(diags[0].kind, DiagKind::UnexpectedCharacter);
    assert_eq!(diags[1].kind, DiagKind::UnexpectedCharacter);
}

#[test]
fn eof_is_last_and_appears_exactly_once() {
    for source in ["", "let x = 5", "\"open", "@@@", "// only a comment", "1 2 3"] {
        let (tokens, _) = scan_str(source);
        let ks = kinds(&tokens);
        assert_eq!(*ks.last().unwrap(), TokenType::EOF, "input {source:?}");
        let eof_count = ks.iter().filter(|k| **k == TokenType::EOF).count();
        assert_eq!(eof_count, 1, "input {source:?}");
    }
}

#[test]
fn token_spans_reconstruct_input_without_discards() {
    // With no whitespace, comments or errors, the lexemes alone rebuild the
    // input (string quotes are the one span part a lexeme drops).
    let source = "(){},.;+-*abc+007";
    let (tokens, diags) = scan_str(source);
    assert!(diags.is_empty());
    let rebuilt: String = tokens.iter().map(|t| t.lexeme.as_str()).collect();
    assert_eq!(rebuilt, source);
}

#[test]
fn scanner_driven_directly_as_the_shell_does() {
    let mut scanner = Scanner::new(
        "print 2".to_string(),
        vec![],
        1,
        0,
        0,
        0,
        init_keywords_hash_map(),
    );
    let tokens = scanner.scan_tokens().clone();
    assert_eq!(
        kinds(&tokens),
        vec![TokenType::Print, TokenType::Integer, TokenType::EOF]
    );
    assert!(scanner.diagnostics.is_empty());
}

#[test]
fn token_new_keeps_its_fields() {
    let t = Token::new(TokenType::Identifier, "abc".to_string(), None, 7);
    assert_eq!(t.token_type, TokenType::Identifier);
    assert_eq!(t.lexeme, "abc");
    assert!(t.literal.is_none());
    assert_eq!(t.line, 7);
}

#[test]
fn lines_and_columns_of_diagnostics() {
    let (tokens, diags) = scan_str("1\n @");
    assert_eq!(kinds(&tokens), vec![TokenType::Integer, TokenType::EOF]);
    assert_eq!(tokens[0].line, 1);
    assert_eq!(diags.len(), 1);
    assert_eq!(diags[0].kind, DiagKind::UnexpectedCharacter);
    assert_eq!(diags[0].line, 2);
    assert_eq!(diags[0].col, 2);
}

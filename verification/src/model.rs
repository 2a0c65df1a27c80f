//! The mathematical model of the scan: a single forward pass over a sequence
//! of characters, one step per token or discarded span. The executable
//! scanner's contracts say that it computes exactly this model.
//!
//! One scan step consumes at least one character, and every character of the
//! input is consumed by exactly one step. A step emits at most one token and
//! at most one diagnostic.

use vstd::prelude::*;

use crate::diag::DiagKind;
use crate::diag::SpecDiag;
use crate::keywords::keyword_kind;
use crate::token::SpecLiteral;
use crate::token::SpecToken;
use crate::token_type::TokenType;

verus! {

// ---------------------------------------------------------------------------
// Character classes. Identifier rules are ASCII-only by design: letters,
// digits and underscore.
// ---------------------------------------------------------------------------
pub open spec fn is_digit_char(c: char) -> bool {
    '0' as u32 <= c as u32 && c as u32 <= '9' as u32
}

pub open spec fn is_alpha_char(c: char) -> bool {
    ('a' as u32 <= c as u32 && c as u32 <= 'z' as u32) || ('A' as u32 <= c as u32 && c as u32
        <= 'Z' as u32)
}

/// Characters that may begin an identifier or keyword.
pub open spec fn is_ident_start_char(c: char) -> bool {
    is_alpha_char(c) || c == '_'
}

/// Characters that may continue an identifier or keyword.
pub open spec fn is_ident_char(c: char) -> bool {
    is_alpha_char(c) || is_digit_char(c) || c == '_'
}

/// Both quote characters open a string literal; it must be closed by the
/// same character it was opened with (strict matching).
pub open spec fn is_quote_char(c: char) -> bool {
    c == '"' || c == '\''
}

/// The numeric value of an ASCII digit.
pub open spec fn digit_val(c: char) -> int {
    c as u32 - '0' as u32
}

// ---------------------------------------------------------------------------
// Maximal runs: where a digit run, an identifier run, a line comment, or a
// string literal ends.
// ---------------------------------------------------------------------------
/// First position at or after `i` that does not hold an ASCII digit.
pub open spec fn digit_run_end(s: Seq<char>, i: int) -> int
    decreases s.len() - i,
        when 0 <= i <= s.len()
{
    if i == s.len() || !is_digit_char(s[i]) {
        i
    } else {
        digit_run_end(s, i + 1)
    }
}

/// First position at or after `i` that does not hold an identifier character.
pub open spec fn ident_run_end(s: Seq<char>, i: int) -> int
    decreases s.len() - i,
        when 0 <= i <= s.len()
{
    if i == s.len() || !is_ident_char(s[i]) {
        i
    } else {
        ident_run_end(s, i + 1)
    }
}

/// First position at or after `i` that holds a newline; a line comment runs
/// through (not including) it.
pub open spec fn comment_end(s: Seq<char>, i: int) -> int
    decreases s.len() - i,
        when 0 <= i <= s.len()
{
    if i == s.len() || s[i] == '\n' {
        i
    } else {
        comment_end(s, i + 1)
    }
}

/// First position at or after `i` that holds the closing quote `q`; equals
/// `s.len()` when the literal is unterminated.
pub open spec fn string_close(s: Seq<char>, i: int, q: char) -> int
    decreases s.len() - i,
        when 0 <= i <= s.len()
{
    if i == s.len() || s[i] == q {
        i
    } else {
        string_close(s, i + 1, q)
    }
}

/// How many newlines `s` holds in `[i, j)`.
pub open spec fn count_newlines(s: Seq<char>, i: int, j: int) -> int
    decreases j - i,
        when i <= j
{
    if i >= j {
        0
    } else {
        count_newlines(s, i, j - 1) + if s[j - 1] == '\n' {
            1int
        } else {
            0int
        }
    }
}

/// The value of the digit run `s[i..j)`, most significant digit first.
pub open spec fn digits_value(s: Seq<char>, i: int, j: int) -> int
    decreases j - i,
        when i <= j
{
    if i >= j {
        0
    } else {
        digits_value(s, i, j - 1) * 10 + digit_val(s[j - 1])
    }
}

// ---------------------------------------------------------------------------
// One scan step.
// ---------------------------------------------------------------------------
/// What one dispatch of the scanner does: it consumes the characters up to
/// (not including) `end`, leaves the line and column counters at `line` and
/// `col`, and emits at most one token and at most one diagnostic.
pub ghost struct SpecStep {
    pub end: int,
    pub line: int,
    pub col: int,
    pub token: Option<SpecToken>,
    pub diag: Option<SpecDiag>,
}

/// The token kind of a character that always scans alone.
pub open spec fn single_kind(c: char) -> Option<TokenType> {
    if c == '(' {
        Some(TokenType::LeftParen)
    } else if c == ')' {
        Some(TokenType::RightParen)
    } else if c == '{' {
        Some(TokenType::LeftBrace)
    } else if c == '}' {
        Some(TokenType::RightBrace)
    } else if c == ',' {
        Some(TokenType::Comma)
    } else if c == '.' {
        Some(TokenType::Period)
    } else if c == '-' {
        Some(TokenType::Minus)
    } else if c == '+' {
        Some(TokenType::Plus)
    } else if c == ';' {
        Some(TokenType::SemiColon)
    } else if c == '*' {
        Some(TokenType::Asterisk)
    } else if c == '\r' {
        Some(TokenType::CarriageReturn)
    } else if c == '\t' {
        Some(TokenType::Tab)
    } else {
        None
    }
}

/// The kinds of a character that peeks for a trailing `=`: what it scans to
/// alone, and together with the `=`.
pub open spec fn two_char_kinds(c: char) -> Option<(TokenType, TokenType)> {
    if c == '!' {
        Some((TokenType::Bang, TokenType::BangEqual))
    } else if c == '=' {
        Some((TokenType::Equal, TokenType::EqualEqual))
    } else if c == '<' {
        Some((TokenType::LessThan, TokenType::LessThanEqual))
    } else if c == '>' {
        Some((TokenType::GreaterThan, TokenType::GreaterThanEqual))
    } else {
        None
    }
}

/// A step that consumes `[i, end)` and emits one token whose lexeme is that
/// whole span, on the line the step started on.
pub open spec fn step_token(
    s: Seq<char>,
    i: int,
    end: int,
    line: int,
    col: int,
    kind: TokenType,
    lit: Option<SpecLiteral>,
) -> SpecStep {
    SpecStep {
        end,
        line,
        col: col + (end - i),
        token: Some(
            SpecToken { token_type: kind, lexeme: s.subrange(i, end), literal: lit, line },
        ),
        diag: None,
    }
}

/// One dispatch of the scanner on the character at `i`.
pub open spec fn scan_step(s: Seq<char>, i: int, line: int, col: int) -> SpecStep
    recommends
        0 <= i < s.len(),
{
    let c = s[i];
    if single_kind(c) is Some {
        step_token(s, i, i + 1, line, col, single_kind(c)->Some_0, None)
    } else if two_char_kinds(c) is Some {
        let ks = two_char_kinds(c)->Some_0;
        if i + 1 < s.len() && s[i + 1] == '=' {
            step_token(s, i, i + 2, line, col, ks.1, None)
        } else {
            step_token(s, i, i + 1, line, col, ks.0, None)
        }
    } else if c == '/' {
        if i + 1 < s.len() && s[i + 1] == '/' {
            // Line comment: discard through (not including) the next newline.
            let e = comment_end(s, i + 2);
            SpecStep { end: e, line, col: col + (e - i), token: None, diag: None }
        } else {
            step_token(s, i, i + 1, line, col, TokenType::Slash, None)
        }
    } else if is_quote_char(c) {
        // String literal: runs to the next occurrence of the opening quote.
        // Newlines inside it count lines but do not terminate it. The token's
        // line is the line the literal began on; its lexeme and value are the
        // text between the quotes, taken verbatim.
        let j = string_close(s, i + 1, c);
        let nl = count_newlines(s, i + 1, j);
        if j == s.len() {
            SpecStep {
                end: j,
                line: line + nl,
                col: col + (j - i),
                token: None,
                diag: Some(
                    SpecDiag {
                        kind: DiagKind::UnterminatedLiteral,
                        line: line + nl,
                        col: col + (j - i),
                    },
                ),
            }
        } else {
            SpecStep {
                end: j + 1,
                line: line + nl,
                col: col + (j + 1 - i),
                token: Some(
                    SpecToken {
                        token_type: TokenType::String,
                        lexeme: s.subrange(i + 1, j),
                        literal: Some(SpecLiteral::Str(s.subrange(i + 1, j))),
                        line,
                    },
                ),
                diag: None,
            }
        }
    } else if c == '\n' {
        SpecStep { end: i + 1, line: line + 1, col: 0, token: None, diag: None }
    } else if c == ' ' {
        SpecStep { end: i + 1, line, col: col + 1, token: None, diag: None }
    } else if is_digit_char(c) {
        // Integer literal: a maximal digit run. A value wider than the
        // literal type is a diagnostic, not a silent wrap.
        let e = digit_run_end(s, i);
        let v = digits_value(s, i, e);
        if v <= u32::MAX {
            step_token(s, i, e, line, col, TokenType::Integer, Some(SpecLiteral::Int(v as u32)))
        } else {
            SpecStep {
                end: e,
                line,
                col: col + (e - i),
                token: None,
                diag: Some(
                    SpecDiag { kind: DiagKind::NumericOverflow, line, col: col + (e - i) },
                ),
            }
        }
    } else if is_ident_start_char(c) {
        // Identifier or keyword: a maximal identifier run, classified after
        // the whole run is consumed. A keyword carries its spelling as its
        // literal value; an identifier carries none.
        let e = ident_run_end(s, i);
        let w = s.subrange(i, e);
        match keyword_kind(w) {
            Some(k) => step_token(s, i, e, line, col, k, Some(SpecLiteral::Str(w))),
            None => step_token(s, i, e, line, col, TokenType::Identifier, None),
        }
    } else {
        SpecStep {
            end: i + 1,
            line,
            col: col + 1,
            token: None,
            diag: Some(SpecDiag { kind: DiagKind::UnexpectedCharacter, line, col: col + 1 }),
        }
    }
}

/// The end-of-input marker appended once per scan, after everything else.
pub open spec fn eof_token(line: int) -> SpecToken {
    SpecToken { token_type: TokenType::EOF, lexeme: Seq::empty(), literal: None, line }
}

pub open spec fn token_seq(t: Option<SpecToken>) -> Seq<SpecToken> {
    match t {
        Some(t) => seq![t],
        None => Seq::empty(),
    }
}

pub open spec fn diag_seq(d: Option<SpecDiag>) -> Seq<SpecDiag> {
    match d {
        Some(d) => seq![d],
        None => Seq::empty(),
    }
}

// ---------------------------------------------------------------------------
// Bounds of one step: it consumes at least one character and never more than
// remain, and the counters grow by at most one per character consumed.
// ---------------------------------------------------------------------------
pub proof fn lemma_count_newlines_bounds(s: Seq<char>, i: int, j: int)
    requires
        i <= j,
    ensures
        0 <= count_newlines(s, i, j) <= j - i,
    decreases j - i,
{
    if i < j {
        lemma_count_newlines_bounds(s, i, j - 1);
    }
}

pub proof fn lemma_digit_run_end(s: Seq<char>, i: int)
    requires
        0 <= i <= s.len(),
    ensures
        i <= digit_run_end(s, i) <= s.len(),
        forall|k: int| i <= k < digit_run_end(s, i) ==> is_digit_char(s[k]),
        digit_run_end(s, i) == s.len() || !is_digit_char(s[digit_run_end(s, i)]),
    decreases s.len() - i,
{
    if !(i == s.len() || !is_digit_char(s[i])) {
        lemma_digit_run_end(s, i + 1);
    }
}

pub proof fn lemma_ident_run_end(s: Seq<char>, i: int)
    requires
        0 <= i <= s.len(),
    ensures
        i <= ident_run_end(s, i) <= s.len(),
        forall|k: int| i <= k < ident_run_end(s, i) ==> is_ident_char(s[k]),
        ident_run_end(s, i) == s.len() || !is_ident_char(s[ident_run_end(s, i)]),
    decreases s.len() - i,
{
    if !(i == s.len() || !is_ident_char(s[i])) {
        lemma_ident_run_end(s, i + 1);
    }
}

pub proof fn lemma_comment_end(s: Seq<char>, i: int)
    requires
        0 <= i <= s.len(),
    ensures
        i <= comment_end(s, i) <= s.len(),
        forall|k: int| i <= k < comment_end(s, i) ==> s[k] != '\n',
        comment_end(s, i) == s.len() || s[comment_end(s, i)] == '\n',
    decreases s.len() - i,
{
    if !(i == s.len() || s[i] == '\n') {
        lemma_comment_end(s, i + 1);
    }
}

pub proof fn lemma_string_close(s: Seq<char>, i: int, q: char)
    requires
        0 <= i <= s.len(),
    ensures
        i <= string_close(s, i, q) <= s.len(),
        forall|k: int| i <= k < string_close(s, i, q) ==> s[k] != q,
        string_close(s, i, q) == s.len() || s[string_close(s, i, q)] == q,
    decreases s.len() - i,
{
    if !(i == s.len() || s[i] == q) {
        lemma_string_close(s, i + 1, q);
    }
}

pub proof fn lemma_digits_value_nonneg(s: Seq<char>, i: int, j: int)
    requires
        i <= j,
        forall|k: int| i <= k < j ==> is_digit_char(s[k]),
    ensures
        0 <= digits_value(s, i, j),
    decreases j - i,
{
    if i < j {
        lemma_digits_value_nonneg(s, i, j - 1);
    }
}

/// Appending digits to a run never shrinks its value.
pub proof fn lemma_digits_value_mono(s: Seq<char>, i: int, j: int, j2: int)
    requires
        i <= j <= j2,
        forall|k: int| i <= k < j2 ==> is_digit_char(s[k]),
    ensures
        digits_value(s, i, j) <= digits_value(s, i, j2),
    decreases j2 - j,
{
    if j < j2 {
        lemma_digits_value_mono(s, i, j, j2 - 1);
        lemma_digits_value_nonneg(s, i, j2 - 1);
    }
}

pub proof fn lemma_scan_step_bounds(s: Seq<char>, i: int, line: int, col: int)
    requires
        0 <= i < s.len(),
    ensures
        i < scan_step(s, i, line, col).end <= s.len(),
        line <= scan_step(s, i, line, col).line <= line + (scan_step(s, i, line, col).end - i),
        0 <= col ==> 0 <= scan_step(s, i, line, col).col <= col + (scan_step(s, i, line, col).end
            - i),
{
    let c = s[i];
    if single_kind(c) is Some {
    } else if two_char_kinds(c) is Some {
    } else if c == '/' {
        if i + 1 < s.len() && s[i + 1] == '/' {
            lemma_comment_end(s, i + 2);
        }
    } else if is_quote_char(c) {
        lemma_string_close(s, i + 1, c);
        lemma_count_newlines_bounds(s, i + 1, string_close(s, i + 1, c));
    } else if c == '\n' {
    } else if c == ' ' {
    } else if is_digit_char(c) {
        lemma_digit_run_end(s, i);
    } else if is_ident_start_char(c) {
        lemma_ident_run_end(s, i);
    } else {
    }
}

// ---------------------------------------------------------------------------
// The whole scan, from a given cursor, line and column: the tokens it emits,
// the diagnostics it reports, and the spans it consumes.
// ---------------------------------------------------------------------------
/// All tokens the scan emits from state `(i, line, col)` on, ending with the
/// end-of-input marker.
pub open spec fn tokens_from(s: Seq<char>, i: int, line: int, col: int) -> Seq<SpecToken>
    decreases s.len() - i,
        when 0 <= i <= s.len()
{
    if i == s.len() {
        seq![eof_token(line)]
    } else {
        let st = scan_step(s, i, line, col);
        proof {
            lemma_scan_step_bounds(s, i, line, col);
        }
        token_seq(st.token) + tokens_from(s, st.end, st.line, st.col)
    }
}

/// All diagnostics the scan reports from state `(i, line, col)` on.
pub open spec fn diags_from(s: Seq<char>, i: int, line: int, col: int) -> Seq<SpecDiag>
    decreases s.len() - i,
        when 0 <= i <= s.len()
{
    if i == s.len() {
        Seq::empty()
    } else {
        let st = scan_step(s, i, line, col);
        proof {
            lemma_scan_step_bounds(s, i, line, col);
        }
        diag_seq(st.diag) + diags_from(s, st.end, st.line, st.col)
    }
}

/// One consumed span of the input: the half-open character range a scan step
/// consumed, and the token it emitted, if any. A span with no token is
/// discarded text: whitespace, a comment, or malformed input.
pub ghost struct SpecPiece {
    pub start: int,
    pub end: int,
    pub token: Option<SpecToken>,
}

/// The consumed spans of the scan from state `(i, line, col)` on, in order,
/// ending with the empty span of the end-of-input marker.
pub open spec fn pieces_from(s: Seq<char>, i: int, line: int, col: int) -> Seq<SpecPiece>
    decreases s.len() - i,
        when 0 <= i <= s.len()
{
    if i == s.len() {
        seq![SpecPiece { start: i, end: i, token: Some(eof_token(line)) }]
    } else {
        let st = scan_step(s, i, line, col);
        proof {
            lemma_scan_step_bounds(s, i, line, col);
        }
        seq![SpecPiece { start: i, end: st.end, token: st.token }] + pieces_from(
            s,
            st.end,
            st.line,
            st.col,
        )
    }
}

/// The token sequence of a whole scan: cursor at the start, line 1, column 0.
pub open spec fn spec_scan_tokens(s: Seq<char>) -> Seq<SpecToken> {
    tokens_from(s, 0, 1, 0)
}

/// The diagnostics of a whole scan.
pub open spec fn spec_scan_diags(s: Seq<char>) -> Seq<SpecDiag> {
    diags_from(s, 0, 1, 0)
}

/// The consumed spans of a whole scan.
pub open spec fn spec_scan_pieces(s: Seq<char>) -> Seq<SpecPiece> {
    pieces_from(s, 0, 1, 0)
}

} // verus!

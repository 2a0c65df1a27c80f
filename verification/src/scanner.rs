//! The executable scanner: a single forward pass with one character of
//! lookahead, verified to compute exactly the scan the model describes.

use vstd::prelude::*;
use vstd::string::StrSliceExecFns;

use crate::diag::DiagKind;
use crate::diag::Diagnostic;
use crate::diag::SpecDiag;
use crate::diag::diags_view;
use crate::keywords::KeywordTable;
use crate::keywords::init_keywords_hash_map;
use crate::model::SpecStep;
use crate::model::comment_end;
use crate::model::count_newlines;
use crate::model::diag_seq;
use crate::model::diags_from;
use crate::model::digit_run_end;
use crate::model::digits_value;
use crate::model::eof_token;
use crate::model::ident_run_end;
use crate::model::is_digit_char;
use crate::model::is_ident_char;
use crate::model::is_ident_start_char;
use crate::model::is_quote_char;
use crate::model::digit_val;
use crate::model::lemma_count_newlines_bounds;
use crate::model::lemma_string_close;
use crate::model::lemma_digits_value_mono;
use crate::model::lemma_scan_step_bounds;
use crate::model::scan_step;
use crate::model::spec_scan_diags;
use crate::model::spec_scan_tokens;
use crate::model::string_close;
use crate::model::token_seq;
use crate::model::tokens_from;
use crate::token::Literal;
use crate::token::SpecToken;
use crate::token::Token;
use crate::token::toks_view;
use crate::token_type::TokenType;

verus! {

/// What the character the scan cursor rests on looks like: the character
/// itself, or the NUL sentinel once the input is exhausted.
pub open spec fn spec_peek(s: Seq<char>, i: int) -> char {
    if i >= s.len() {
        '\0'
    } else {
        s[i]
    }
}

fn char_is_digit(c: char) -> (r: bool)
    ensures
        r == is_digit_char(c),
{
    let u = c as u32;
    48 <= u && u <= 57
}

fn char_is_ident_start(c: char) -> (r: bool)
    ensures
        r == is_ident_start_char(c),
{
    let u = c as u32;
    (97 <= u && u <= 122) || (65 <= u && u <= 90) || u == 95
}

fn char_is_ident(c: char) -> (r: bool)
    ensures
        r == is_ident_char(c),
{
    let u = c as u32;
    (97 <= u && u <= 122) || (65 <= u && u <= 90) || (48 <= u && u <= 57) || u == 95
}

/// The lexer. It owns the source text for the whole run, a scan cursor, the
/// accumulated tokens and diagnostics, and the keyword table. One instance
/// scans one input, in one call to `scan_tokens`.
pub struct Scanner {
    pub source: String,
    /// The source length in characters, computed once at construction.
    pub source_len: usize,
    pub tokens: Vec<Token>,
    pub diagnostics: Vec<Diagnostic>,
    pub line: u32,
    pub start_pos: usize,
    pub current_pos: usize,
    /// Column counter, reset on each newline; used only for diagnostics.
    pub col_offset: u32,
    pub keywords_map: KeywordTable,
}

impl Scanner {
    /// The source text as a character sequence.
    pub open spec fn src(&self) -> Seq<char> {
        self.source@
    }

    /// Well-formed scanner state: the cached length is the character count,
    /// the cursor is in bounds, the line and column counters cannot overflow
    /// on the remaining input (each remaining character advances each counter
    /// by at most one), and the keyword table is the fixed one.
    pub open spec fn wf(&self) -> bool {
        &&& self.source_len == self.src().len()
        &&& self.current_pos <= self.source_len
        &&& self.line as int + (self.source_len - self.current_pos) <= u32::MAX as int
        &&& self.col_offset as int + (self.source_len - self.current_pos) <= u32::MAX as int
        &&& self.keywords_map.wf()
    }

    /// The scanner after one dispatch step `st` taken from state `pre`: the
    /// cursor, line and column counters stand where the step left them, and
    /// the token and diagnostic the step emitted (if any) were appended.
    pub open spec fn step_post(pre: Scanner, post: Scanner, st: SpecStep) -> bool {
        &&& post.source == pre.source
        &&& post.source_len == pre.source_len
        &&& post.keywords_map == pre.keywords_map
        &&& post.start_pos == pre.start_pos
        &&& post.current_pos as int == st.end
        &&& post.line as int == st.line
        &&& post.col_offset as int == st.col
        &&& match st.token {
            Some(t) => toks_view(post.tokens@) == toks_view(pre.tokens@).push(t),
            None => post.tokens == pre.tokens,
        }
        &&& match st.diag {
            Some(d) => diags_view(post.diagnostics@) == diags_view(pre.diagnostics@).push(d),
            None => post.diagnostics == pre.diagnostics,
        }
    }

    /// Constructs a scanner over `source`. The counters must have room for
    /// the remaining input (a line or column counter grows by at most one per
    /// character), which any source shorter than `u32::MAX` characters leaves
    /// for the usual initial state of line 1, positions 0.
    pub fn new(
        source: String,
        tokens: Vec<Token>,
        line: u32,
        start_pos: usize,
        current_pos: usize,
        pos_x: u32,
        keywords_map: KeywordTable,
    ) -> (sc: Scanner)
        requires
            current_pos as int <= source@.len(),
            line as int + (source@.len() - current_pos as int) <= u32::MAX as int,
            pos_x as int + (source@.len() - current_pos as int) <= u32::MAX as int,
            keywords_map.wf(),
        ensures
            sc.wf(),
            sc.source == source,
            sc.tokens == tokens,
            sc.diagnostics@ == Seq::<Diagnostic>::empty(),
            sc.line == line,
            sc.start_pos == start_pos,
            sc.current_pos == current_pos,
            sc.col_offset == pos_x,
            sc.keywords_map == keywords_map,
    {
        let source_len = source.as_str().unicode_len();
        Scanner {
            source,
            source_len,
            tokens,
            diagnostics: Vec::new(),
            line,
            start_pos,
            current_pos,
            col_offset: pos_x,
            keywords_map,
        }
    }

    fn is_at_end(&self) -> (r: bool)
        ensures
            r == (self.current_pos >= self.source_len),
    {
        self.current_pos >= self.source_len
    }

    /// One character of lookahead; the NUL sentinel at end of input.
    fn peek(&self) -> (c: char)
        requires
            self.source_len == self.src().len(),
            self.current_pos <= self.source_len,
        ensures
            c == spec_peek(self.src(), self.current_pos as int),
    {
        if self.is_at_end() {
            return '\0';
        }
        self.source.as_str().get_char(self.current_pos)
    }

    /// Moves the cursor and the diagnostic column one character forward.
    fn update_pos(&mut self)
        requires
            old(self).current_pos < old(self).source_len,
            old(self).col_offset < u32::MAX,
        ensures
            *final(self) == (Scanner {
                current_pos: (old(self).current_pos + 1) as usize,
                col_offset: (old(self).col_offset + 1) as u32,
                ..*old(self)
            }),
    {
        self.current_pos = self.current_pos + 1;
        self.col_offset = self.col_offset + 1;
    }

    /// Consumes and returns the character under the cursor.
    fn advance(&mut self) -> (c: char)
        requires
            old(self).source_len == old(self).src().len(),
            old(self).current_pos < old(self).source_len,
            old(self).col_offset < u32::MAX,
        ensures
            c == old(self).src()[old(self).current_pos as int],
            *final(self) == (Scanner {
                current_pos: (old(self).current_pos + 1) as usize,
                col_offset: (old(self).col_offset + 1) as u32,
                ..*old(self)
            }),
    {
        let advanced_char = self.source.as_str().get_char(self.current_pos);
        self.update_pos();
        advanced_char
    }

    /// Consumes the next character exactly when it is `expected`.
    fn match_advance(&mut self, expected: char) -> (r: bool)
        requires
            old(self).source_len == old(self).src().len(),
            old(self).current_pos <= old(self).source_len,
            old(self).col_offset as int + (old(self).source_len - old(self).current_pos)
                <= u32::MAX as int,
        ensures
            r == (old(self).current_pos < old(self).source_len && old(self).src()[old(
                self,
            ).current_pos as int] == expected),
            r ==> *final(self) == (Scanner {
                current_pos: (old(self).current_pos + 1) as usize,
                col_offset: (old(self).col_offset + 1) as u32,
                ..*old(self)
            }),
            !r ==> *final(self) == *old(self),
    {
        if self.is_at_end() {
            return false;
        }
        if self.source.as_str().get_char(self.current_pos) != expected {
            return false;
        }
        self.update_pos();
        true
    }

    /// Appends a token whose lexeme is the span from `start_pos` to the
    /// cursor, with no payload, on the current line.
    fn add_token(&mut self, token_type: TokenType)
        requires
            old(self).source_len == old(self).src().len(),
            old(self).start_pos <= old(self).current_pos <= old(self).source_len,
        ensures
            *final(self) == (Scanner { tokens: final(self).tokens, ..*old(self) }),
            toks_view(final(self).tokens@) == toks_view(old(self).tokens@).push(
                SpecToken {
                    token_type,
                    lexeme: old(self).src().subrange(
                        old(self).start_pos as int,
                        old(self).current_pos as int,
                    ),
                    literal: None,
                    line: old(self).line as int,
                },
            ),
    {
        let lexeme = self.source.as_str().substring_char(self.start_pos, self.current_pos)
            .to_owned();
        let t = Token::new(token_type, lexeme, None, self.line);
        self.tokens.push(t);
        proof {
            assert(toks_view(self.tokens@) =~= toks_view(old(self).tokens@).push(t@));
        }
    }

    /// Appends a token with a decoded payload; otherwise as `add_token`.
    fn add_token_with_literal(&mut self, token_type: TokenType, literal: Literal)
        requires
            old(self).source_len == old(self).src().len(),
            old(self).start_pos <= old(self).current_pos <= old(self).source_len,
        ensures
            *final(self) == (Scanner { tokens: final(self).tokens, ..*old(self) }),
            toks_view(final(self).tokens@) == toks_view(old(self).tokens@).push(
                SpecToken {
                    token_type,
                    lexeme: old(self).src().subrange(
                        old(self).start_pos as int,
                        old(self).current_pos as int,
                    ),
                    literal: Some(literal@),
                    line: old(self).line as int,
                },
            ),
    {
        let lexeme = self.source.as_str().substring_char(self.start_pos, self.current_pos)
            .to_owned();
        let t = Token::new(token_type, lexeme, Some(literal), self.line);
        self.tokens.push(t);
        proof {
            assert(toks_view(self.tokens@) =~= toks_view(old(self).tokens@).push(t@));
        }
    }

    /// Records a diagnostic at the current line and column. Errors are never
    /// fatal: the caller goes on scanning from the next character.
    fn error_report(&mut self, kind: DiagKind)
        ensures
            *final(self) == (Scanner { diagnostics: final(self).diagnostics, ..*old(self) }),
            diags_view(final(self).diagnostics@) == diags_view(old(self).diagnostics@).push(
                SpecDiag {
                    kind,
                    line: old(self).line as int,
                    col: old(self).col_offset as int,
                },
            ),
    {
        let d = Diagnostic { kind, line: self.line, col: self.col_offset };
        self.diagnostics.push(d);
        proof {
            assert(diags_view(self.diagnostics@) =~= diags_view(old(self).diagnostics@).push(d@));
        }
    }

    /// Scans a string literal whose opening quote (at `start_pos`) has just
    /// been consumed. The literal runs to the next occurrence of the same
    /// quote character it was opened with; a newline inside it counts a line
    /// but does not end it. With no closing quote before end of input, the
    /// rest of the input is consumed, an `UnterminatedLiteral` diagnostic is
    /// reported, and no token is emitted.
    fn string_literal_scan(&mut self)
        requires
            old(self).wf(),
            old(self).start_pos < old(self).source_len,
            old(self).current_pos == old(self).start_pos + 1,
            is_quote_char(old(self).src()[old(self).start_pos as int]),
            1 <= old(self).col_offset,
        ensures
            final(self).wf(),
            Self::step_post(
                *old(self),
                *final(self),
                scan_step(
                    old(self).src(),
                    old(self).start_pos as int,
                    old(self).line as int,
                    old(self).col_offset as int - 1,
                ),
            ),
    {
        let ghost pre = *self;
        let ghost s = pre.src();
        let ghost i = pre.start_pos as int;
        let quote = self.source.as_str().get_char(self.start_pos);
        let line_start = self.line;
        loop
            invariant
                self.wf(),
                self.source == pre.source,
                self.source_len == pre.source_len,
                self.keywords_map == pre.keywords_map,
                self.tokens == pre.tokens,
                self.diagnostics == pre.diagnostics,
                self.start_pos == pre.start_pos,
                s == self.src(),
                i == self.start_pos as int,
                quote == s[i],
                i + 1 <= self.current_pos <= self.source_len,
                string_close(s, i + 1, quote) == string_close(s, self.current_pos as int, quote),
                self.line as int == pre.line as int + count_newlines(
                    s,
                    i + 1,
                    self.current_pos as int,
                ),
                self.col_offset as int == pre.col_offset as int + (self.current_pos
                    - pre.current_pos),
            ensures
                self.current_pos == string_close(s, i + 1, quote),
            decreases self.source_len - self.current_pos,
        {
            let p = self.peek();
            let at_end = self.is_at_end();
            if p != quote && !at_end {
                if p == '\n' {
                    self.line = self.line + 1;
                }
                self.advance();
            } else {
                break;
            }
        }
        let ghost j = string_close(s, i + 1, s[i]);
        proof {
            lemma_string_close(s, i + 1, s[i]);
            lemma_count_newlines_bounds(s, i + 1, j);
        }
        if self.is_at_end() {
            self.error_report(DiagKind::UnterminatedLiteral);
            return;
        }
        self.advance();
        let contents = self.source.as_str().substring_char(
            self.start_pos + 1,
            self.current_pos - 1,
        ).to_owned();
        let value = contents.clone();
        let t = Token::new(
            TokenType::String,
            contents,
            Some(Literal::StrLiteral(value)),
            line_start,
        );
        self.tokens.push(t);
        proof {
            assert(toks_view(self.tokens@) =~= toks_view(pre.tokens@).push(t@));
        }
    }

    /// Scans an integer literal whose first digit (at `start_pos`) has just
    /// been consumed: first the rest of the maximal digit run, then its
    /// value. A run whose value exceeds the integer literal width is a
    /// `NumericOverflow` diagnostic and produces no token.
    fn int_literal_scan(&mut self)
        requires
            old(self).wf(),
            old(self).start_pos < old(self).source_len,
            old(self).current_pos == old(self).start_pos + 1,
            is_digit_char(old(self).src()[old(self).start_pos as int]),
            1 <= old(self).col_offset,
        ensures
            final(self).wf(),
            Self::step_post(
                *old(self),
                *final(self),
                scan_step(
                    old(self).src(),
                    old(self).start_pos as int,
                    old(self).line as int,
                    old(self).col_offset as int - 1,
                ),
            ),
    {
        let ghost pre = *self;
        let ghost s = pre.src();
        let ghost i = pre.start_pos as int;
        loop
            invariant
                self.wf(),
                self.source == pre.source,
                self.source_len == pre.source_len,
                self.keywords_map == pre.keywords_map,
                self.tokens == pre.tokens,
                self.diagnostics == pre.diagnostics,
                self.start_pos == pre.start_pos,
                self.line == pre.line,
                s == self.src(),
                i == self.start_pos as int,
                i + 1 <= self.current_pos <= self.source_len,
                forall|k: int| i <= k < self.current_pos ==> is_digit_char(s[k]),
                digit_run_end(s, i) == digit_run_end(s, self.current_pos as int),
                self.col_offset as int == pre.col_offset as int + (self.current_pos
                    - pre.current_pos),
            ensures
                self.current_pos == digit_run_end(s, i),
            decreases self.source_len - self.current_pos,
        {
            let p = self.peek();
            if char_is_digit(p) {
                self.advance();
            } else {
                break;
            }
        }
        let e = self.current_pos;
        let ghost ei = e as int;
        let mut k = self.start_pos;
        let mut acc: u32 = 0;
        let mut overflowed = false;
        loop
            invariant_except_break
                !overflowed,
            invariant
                i <= k as int <= ei <= s.len(),
                forall|m: int| i <= m < ei ==> is_digit_char(s[m]),
                self.source_len == self.src().len(),
                self.source == pre.source,
                s == self.src(),
                e == self.current_pos,
                ei == e as int,
                acc as int == digits_value(s, i, k as int),
                digits_value(s, i, k as int) <= u32::MAX as int,
            ensures
                overflowed ==> digits_value(s, i, ei) > u32::MAX as int,
                !overflowed ==> k as int == ei && acc as int == digits_value(s, i, ei)
                    && digits_value(s, i, ei) <= u32::MAX as int,
            decreases ei - k as int,
        {
            if k >= e {
                break;
            }
            let c = self.source.as_str().get_char(k);
            let d = (c as u32) - 48;
            proof {
                assert(is_digit_char(s[k as int]));
                assert(d as int == digit_val(s[k as int]));
            }
            if acc > (u32::MAX - d) / 10 {
                proof {
                    assert(acc as int * 10 + d as int > u32::MAX as int);
                    assert(digits_value(s, i, k as int + 1) > u32::MAX as int);
                    lemma_digits_value_mono(s, i, k as int + 1, ei);
                }
                overflowed = true;
                break;
            }
            proof {
                assert(acc as int * 10 + d as int <= u32::MAX as int);
            }
            acc = acc * 10 + d;
            k = k + 1;
        }
        if overflowed {
            self.error_report(DiagKind::NumericOverflow);
        } else {
            self.add_token_with_literal(TokenType::Integer, Literal::IntLiteral(acc));
        }
    }

    /// Scans an identifier or keyword whose first character (at `start_pos`)
    /// has just been consumed: the rest of the maximal identifier run, then
    /// an exact keyword-table lookup of the whole spelling. A keyword token
    /// carries its spelling as its value; an identifier carries none.
    fn keyword_scan(&mut self)
        requires
            old(self).wf(),
            old(self).start_pos < old(self).source_len,
            old(self).current_pos == old(self).start_pos + 1,
            is_ident_start_char(old(self).src()[old(self).start_pos as int]),
            1 <= old(self).col_offset,
        ensures
            final(self).wf(),
            Self::step_post(
                *old(self),
                *final(self),
                scan_step(
                    old(self).src(),
                    old(self).start_pos as int,
                    old(self).line as int,
                    old(self).col_offset as int - 1,
                ),
            ),
    {
        let ghost pre = *self;
        let ghost s = pre.src();
        let ghost i = pre.start_pos as int;
        loop
            invariant
                self.wf(),
                self.source == pre.source,
                self.source_len == pre.source_len,
                self.keywords_map == pre.keywords_map,
                self.tokens == pre.tokens,
                self.diagnostics == pre.diagnostics,
                self.start_pos == pre.start_pos,
                self.line == pre.line,
                s == self.src(),
                i == self.start_pos as int,
                i + 1 <= self.current_pos <= self.source_len,
                ident_run_end(s, i) == ident_run_end(s, self.current_pos as int),
                self.col_offset as int == pre.col_offset as int + (self.current_pos
                    - pre.current_pos),
            ensures
                self.current_pos == ident_run_end(s, i),
            decreases self.source_len - self.current_pos,
        {
            let p = self.peek();
            if char_is_ident(p) {
                self.advance();
            } else {
                break;
            }
        }
        let w = self.source.as_str().substring_char(self.start_pos, self.current_pos).to_owned();
        let kind = self.keywords_map.lookup(&w);
        match kind {
            Some(k) => self.add_token_with_literal(k, Literal::StrLiteral(w)),
            None => self.add_token(TokenType::Identifier),
        }
    }

    /// Dispatches on the next character and performs exactly one scan step:
    /// it consumes at least one character and emits at most one token and at
    /// most one diagnostic, as `scan_step` describes.
    fn scan_token(&mut self)
        requires
            old(self).wf(),
            old(self).current_pos < old(self).source_len,
            old(self).start_pos == old(self).current_pos,
        ensures
            final(self).wf(),
            old(self).current_pos < final(self).current_pos,
            Self::step_post(
                *old(self),
                *final(self),
                scan_step(
                    old(self).src(),
                    old(self).current_pos as int,
                    old(self).line as int,
                    old(self).col_offset as int,
                ),
            ),
    {
        let ghost pre = *self;
        let ghost s = pre.src();
        let ghost i = pre.current_pos as int;
        let c = self.advance();
        match c {
            '(' => self.add_token(TokenType::LeftParen),
            ')' => self.add_token(TokenType::RightParen),
            '{' => self.add_token(TokenType::LeftBrace),
            '}' => self.add_token(TokenType::RightBrace),
            ',' => self.add_token(TokenType::Comma),
            '.' => self.add_token(TokenType::Period),
            '-' => self.add_token(TokenType::Minus),
            '+' => self.add_token(TokenType::Plus),
            ';' => self.add_token(TokenType::SemiColon),
            '*' => self.add_token(TokenType::Asterisk),
            '!' => {
                if self.match_advance('=') {
                    self.add_token(TokenType::BangEqual)
                } else {
                    self.add_token(TokenType::Bang)
                }
            },
            '=' => {
                if self.match_advance('=') {
                    self.add_token(TokenType::EqualEqual)
                } else {
                    self.add_token(TokenType::Equal)
                }
            },
            '<' => {
                if self.match_advance('=') {
                    self.add_token(TokenType::LessThanEqual)
                } else {
                    self.add_token(TokenType::LessThan)
                }
            },
            '>' => {
                if self.match_advance('=') {
                    self.add_token(TokenType::GreaterThanEqual)
                } else {
                    self.add_token(TokenType::GreaterThan)
                }
            },
            '/' => {
                if self.match_advance('/') {
                    // A line comment: discard through (not including) the
                    // next newline; no token is emitted.
                    loop
                        invariant
                            self.wf(),
                            self.source == pre.source,
                            self.source_len == pre.source_len,
                            self.keywords_map == pre.keywords_map,
                            self.tokens == pre.tokens,
                            self.diagnostics == pre.diagnostics,
                            self.start_pos == pre.start_pos,
                            self.line == pre.line,
                            s == self.src(),
                            i + 2 <= self.current_pos <= self.source_len,
                            comment_end(s, i + 2) == comment_end(s, self.current_pos as int),
                            self.col_offset as int == pre.col_offset as int + (self.current_pos
                                - i),
                        ensures
                            self.current_pos == comment_end(s, i + 2),
                        decreases self.source_len - self.current_pos,
                    {
                        let p = self.peek();
                        let at_end = self.is_at_end();
                        if p != '\n' && !at_end {
                            self.advance();
                        } else {
                            break;
                        }
                    }
                } else {
                    self.add_token(TokenType::Slash)
                }
            },
            '"' => self.string_literal_scan(),
            '\'' => self.string_literal_scan(),
            '\r' => self.add_token(TokenType::CarriageReturn),
            '\t' => self.add_token(TokenType::Tab),
            '\n' => {
                self.line = self.line + 1;
                self.col_offset = 0;
            },
            ' ' => {},
            _ => {
                if char_is_digit(c) {
                    self.int_literal_scan();
                } else if char_is_ident_start(c) {
                    self.keyword_scan();
                } else {
                    self.error_report(DiagKind::UnexpectedCharacter);
                }
            },
        }
        proof {
            lemma_scan_step_bounds(s, i, pre.line as int, pre.col_offset as int);
        }
    }

    /// Drives the scan to completion: one step per remaining token or
    /// discarded span, then the end-of-input marker, appended exactly once.
    /// The tokens and diagnostics appended are exactly those of the model's
    /// scan from the scanner's current state.
    pub fn scan_tokens(&mut self) -> (r: &Vec<Token>)
        requires
            old(self).wf(),
        ensures
            final(self).wf(),
            final(self).source == old(self).source,
            final(self).keywords_map == old(self).keywords_map,
            toks_view(final(self).tokens@) == toks_view(old(self).tokens@) + tokens_from(
                old(self).src(),
                old(self).current_pos as int,
                old(self).line as int,
                old(self).col_offset as int,
            ),
            diags_view(final(self).diagnostics@) == diags_view(old(self).diagnostics@)
                + diags_from(
                old(self).src(),
                old(self).current_pos as int,
                old(self).line as int,
                old(self).col_offset as int,
            ),
            r@ == final(self).tokens@,
    {
        let ghost pre = *self;
        let ghost s = pre.src();
        loop
            invariant
                self.wf(),
                self.source == pre.source,
                self.source_len == pre.source_len,
                self.keywords_map == pre.keywords_map,
                s == self.src(),
                toks_view(pre.tokens@) + tokens_from(
                    s,
                    pre.current_pos as int,
                    pre.line as int,
                    pre.col_offset as int,
                ) == toks_view(self.tokens@) + tokens_from(
                    s,
                    self.current_pos as int,
                    self.line as int,
                    self.col_offset as int,
                ),
                diags_view(pre.diagnostics@) + diags_from(
                    s,
                    pre.current_pos as int,
                    pre.line as int,
                    pre.col_offset as int,
                ) == diags_view(self.diagnostics@) + diags_from(
                    s,
                    self.current_pos as int,
                    self.line as int,
                    self.col_offset as int,
                ),
            ensures
                self.current_pos == self.source_len,
            decreases self.source_len - self.current_pos,
        {
            if self.is_at_end() {
                break;
            }
            self.start_pos = self.current_pos;
            let ghost mid = *self;
            self.scan_token();
            proof {
                let st = scan_step(s, mid.current_pos as int, mid.line as int, mid.col_offset as int);
                let rest_toks = tokens_from(s, st.end, st.line, st.col);
                let rest_diags = diags_from(s, st.end, st.line, st.col);
                match st.token {
                    Some(t) => {
                        assert(toks_view(mid.tokens@).push(t) + rest_toks =~= toks_view(mid.tokens@)
                            + (token_seq(st.token) + rest_toks));
                    },
                    None => {
                        assert(toks_view(mid.tokens@) + (token_seq(st.token) + rest_toks)
                            =~= toks_view(mid.tokens@) + rest_toks);
                    },
                }
                match st.diag {
                    Some(d) => {
                        assert(diags_view(mid.diagnostics@).push(d) + rest_diags =~= diags_view(
                            mid.diagnostics@,
                        ) + (diag_seq(st.diag) + rest_diags));
                    },
                    None => {
                        assert(diags_view(mid.diagnostics@) + (diag_seq(st.diag) + rest_diags)
                            =~= diags_view(mid.diagnostics@) + rest_diags);
                    },
                }
            }
        }
        let t = Token::new(TokenType::EOF, String::new(), None, self.line);
        let ghost before_eof = *self;
        self.tokens.push(t);
        proof {
            assert(toks_view(self.tokens@) =~= toks_view(before_eof.tokens@).push(t@));
            assert(t@ == eof_token(before_eof.line as int));
            assert(toks_view(before_eof.tokens@).push(t@) =~= toks_view(before_eof.tokens@) + seq![
                eof_token(before_eof.line as int),
            ]);
            assert(diags_view(self.diagnostics@) + diags_from(
                s,
                self.current_pos as int,
                self.line as int,
                self.col_offset as int,
            ) =~= diags_view(self.diagnostics@));
        }
        &self.tokens
    }
}

/// Scans a complete source text from the usual initial state (line 1, both
/// positions 0): returns the token sequence, which always ends in the one
/// `EOF` marker, and the diagnostics, in source order. The length bound
/// leaves the line counter room on the worst-case input (a machine limit:
/// lines are counted in 32 bits).
pub fn scan(source: String) -> (r: (Vec<Token>, Vec<Diagnostic>))
    requires
        source@.len() + 1 <= u32::MAX as int,
    ensures
        toks_view(r.0@) == spec_scan_tokens(source@),
        diags_view(r.1@) == spec_scan_diags(source@),
{
    let keywords = init_keywords_hash_map();
    let mut scanner = Scanner::new(source, Vec::new(), 1, 0, 0, 0, keywords);
    scanner.scan_tokens();
    proof {
        assert(toks_view(Seq::<Token>::empty()) =~= Seq::<SpecToken>::empty());
        assert(Seq::<SpecToken>::empty() + spec_scan_tokens(scanner.source@) =~= spec_scan_tokens(
            scanner.source@,
        ));
        assert(diags_view(Seq::<Diagnostic>::empty()) =~= Seq::<SpecDiag>::empty());
        assert(Seq::<SpecDiag>::empty() + spec_scan_diags(scanner.source@) =~= spec_scan_diags(
            scanner.source@,
        ));
    }
    (scanner.tokens, scanner.diagnostics)
}

} // verus!

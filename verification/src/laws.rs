//! The scan's global laws, proved over the model that the scanner's
//! contracts are stated against: the end-of-input marker is exactly the last
//! token, and the consumed spans tile the input, so that concatenating every
//! token's source span with the discarded whitespace, comment and error spans
//! reconstructs the input exactly.

use vstd::prelude::*;

use crate::keywords::keyword_kind;
use crate::keywords::spec_keyword_table;
use crate::keywords::table_lookup;
use crate::model::SpecPiece;
use crate::model::lemma_scan_step_bounds;
use crate::model::pieces_from;
use crate::model::scan_step;
use crate::model::spec_scan_pieces;
use crate::model::spec_scan_tokens;
use crate::model::token_seq;
use crate::model::tokens_from;
use crate::token::SpecToken;
use crate::token_type::TokenType;

verus! {

/// A lookup only ever returns a kind the table holds.
proof fn lemma_table_lookup_value(t: Seq<(Seq<char>, TokenType)>, w: Seq<char>)
    ensures
        table_lookup(t, w) is Some ==> exists|j: int|
            0 <= j < t.len() && t[j].1 == table_lookup(t, w)->Some_0,
    decreases t.len(),
{
    if t.len() == 0 {
    } else if t[0].0 == w {
        assert(t[0].1 == table_lookup(t, w)->Some_0);
    } else {
        lemma_table_lookup_value(t.drop_first(), w);
        if table_lookup(t, w) is Some {
            let k = table_lookup(t, w)->Some_0;
            let j0 = choose|j: int| 0 <= j < t.drop_first().len() && t.drop_first()[j].1 == k;
            assert(t[j0 + 1].1 == k);
        }
    }
}

/// The keyword table maps no spelling to the end-of-input kind.
proof fn lemma_keyword_kind_not_eof(w: Seq<char>)
    ensures
        keyword_kind(w) is Some ==> keyword_kind(w)->Some_0 != TokenType::EOF,
{
    lemma_table_lookup_value(spec_keyword_table(), w);
    if keyword_kind(w) is Some {
        let k = keyword_kind(w)->Some_0;
        let j = choose|j: int|
            0 <= j < spec_keyword_table().len() && spec_keyword_table()[j].1 == k;
        assert(spec_keyword_table()[j].1 != TokenType::EOF);
    }
}

/// No scan step emits the end-of-input marker; only the scan's very end does.
proof fn lemma_scan_step_token_not_eof(s: Seq<char>, i: int, line: int, col: int)
    requires
        0 <= i < s.len(),
    ensures
        scan_step(s, i, line, col).token is Some ==> scan_step(
            s,
            i,
            line,
            col,
        ).token->Some_0.token_type != TokenType::EOF,
{
    lemma_keyword_kind_not_eof(s.subrange(i, crate::model::ident_run_end(s, i)));
}

proof fn lemma_tokens_from_eof(s: Seq<char>, i: int, line: int, col: int)
    requires
        0 <= i <= s.len(),
    ensures
        ({
            let ts = tokens_from(s, i, line, col);
            &&& ts.len() >= 1
            &&& ts[ts.len() - 1].token_type == TokenType::EOF
            &&& forall|k: int| 0 <= k < ts.len() - 1 ==> ts[k].token_type != TokenType::EOF
        }),
    decreases s.len() - i,
{
    if i == s.len() {
    } else {
        let st = scan_step(s, i, line, col);
        lemma_scan_step_bounds(s, i, line, col);
        lemma_scan_step_token_not_eof(s, i, line, col);
        lemma_tokens_from_eof(s, st.end, st.line, st.col);
        let head = token_seq(st.token);
        let rest = tokens_from(s, st.end, st.line, st.col);
        let ts = tokens_from(s, i, line, col);
        assert(ts == head + rest);
        assert(ts[ts.len() - 1] == rest[rest.len() - 1]);
        assert forall|k: int| 0 <= k < ts.len() - 1 implies ts[k].token_type != TokenType::EOF by {
            if k < head.len() {
                assert(ts[k] == head[k]);
            } else {
                assert(ts[k] == rest[k - head.len()]);
            }
        }
    }
}

/// For every input, the last token of a scan is the end-of-input marker, and
/// that marker appears nowhere earlier in the sequence.
pub proof fn lemma_eof_terminates(s: Seq<char>)
    ensures
        ({
            let ts = spec_scan_tokens(s);
            &&& ts.len() >= 1
            &&& ts[ts.len() - 1].token_type == TokenType::EOF
            &&& forall|k: int| 0 <= k < ts.len() - 1 ==> ts[k].token_type != TokenType::EOF
        }),
{
    lemma_tokens_from_eof(s, 0, 1, 0);
}

/// The tokens the pieces of a scan carry, in order.
pub open spec fn pieces_tokens(ps: Seq<SpecPiece>) -> Seq<SpecToken>
    decreases ps.len(),
{
    if ps.len() == 0 {
        Seq::empty()
    } else {
        token_seq(ps[0].token) + pieces_tokens(ps.drop_first())
    }
}

/// The source text the pieces of a scan cover, concatenated in order.
pub open spec fn pieces_text(s: Seq<char>, ps: Seq<SpecPiece>) -> Seq<char>
    decreases ps.len(),
{
    if ps.len() == 0 {
        Seq::empty()
    } else {
        s.subrange(ps[0].start, ps[0].end) + pieces_text(s, ps.drop_first())
    }
}

proof fn lemma_pieces_from_partition(s: Seq<char>, i: int, line: int, col: int)
    requires
        0 <= i <= s.len(),
    ensures
        ({
            let ps = pieces_from(s, i, line, col);
            &&& ps.len() >= 1
            &&& ps[0].start == i
            &&& ps[ps.len() - 1].end == s.len()
            &&& forall|k: int| 0 <= k < ps.len() - 1 ==> ps[k].end == ps[k + 1].start
            &&& forall|k: int| 0 <= k < ps.len() ==> i <= #[trigger] ps[k].start <= ps[k].end <= s.len()
            &&& pieces_text(s, ps) == s.subrange(i, s.len() as int)
            &&& pieces_tokens(ps) == tokens_from(s, i, line, col)
        }),
    decreases s.len() - i,
{
    let ps = pieces_from(s, i, line, col);
    if i == s.len() {
        assert(ps.drop_first() =~= Seq::<SpecPiece>::empty());
        assert(pieces_text(s, ps.drop_first()) =~= Seq::<char>::empty());
        assert(pieces_tokens(ps.drop_first()) =~= Seq::<SpecToken>::empty());
        assert(pieces_text(s, ps) =~= s.subrange(i, s.len() as int));
        assert(pieces_tokens(ps) =~= tokens_from(s, i, line, col));
    } else {
        let st = scan_step(s, i, line, col);
        lemma_scan_step_bounds(s, i, line, col);
        lemma_pieces_from_partition(s, st.end, st.line, st.col);
        let rest = pieces_from(s, st.end, st.line, st.col);
        let p0 = SpecPiece { start: i, end: st.end, token: st.token };
        assert(ps == seq![p0] + rest);
        assert(ps.drop_first() =~= rest);
        assert forall|k: int| 0 <= k < ps.len() - 1 implies ps[k].end == ps[k + 1].start by {
            if k == 0 {
                assert(ps[1] == rest[0]);
            } else {
                assert(ps[k] == rest[k - 1]);
                assert(ps[k + 1] == rest[k]);
            }
        }
        assert forall|k: int| 0 <= k < ps.len() implies i <= #[trigger] ps[k].start <= ps[k].end <= s.len()
        by {
            if k > 0 {
                assert(ps[k] == rest[k - 1]);
            }
        }
        assert(s.subrange(i, st.end) + s.subrange(st.end, s.len() as int) =~= s.subrange(
            i,
            s.len() as int,
        ));
        assert(ps[0] == p0);
        assert(pieces_text(s, ps) == s.subrange(i, st.end) + pieces_text(s, ps.drop_first()));
        assert(pieces_text(s, ps.drop_first()) == pieces_text(s, rest));
        assert(pieces_text(s, ps) == s.subrange(i, s.len() as int));
        assert(pieces_tokens(ps) == token_seq(p0.token) + pieces_tokens(ps.drop_first()));
        assert(pieces_tokens(ps.drop_first()) == pieces_tokens(rest));
        assert(pieces_tokens(ps) == tokens_from(s, i, line, col));
    }
}

/// For every input, the consumed spans of a scan tile the whole input in
/// order, each span within bounds, so concatenating every token's source span
/// with the discarded whitespace, comment and malformed spans reconstructs
/// the input exactly; and the token-carrying spans, in order, carry exactly
/// the scan's tokens (the end-of-input marker has the empty span at the end).
pub proof fn lemma_scan_partitions_source(s: Seq<char>)
    ensures
        ({
            let ps = spec_scan_pieces(s);
            &&& ps.len() >= 1
            &&& ps[0].start == 0
            &&& ps[ps.len() - 1].end == s.len()
            &&& forall|k: int| 0 <= k < ps.len() - 1 ==> ps[k].end == ps[k + 1].start
            &&& forall|k: int| 0 <= k < ps.len() ==> 0 <= #[trigger] ps[k].start <= ps[k].end <= s.len()
            &&& pieces_text(s, ps) == s
            &&& pieces_tokens(ps) == spec_scan_tokens(s)
        }),
{
    lemma_pieces_from_partition(s, 0, 1, 0);
    assert(s.subrange(0, s.len() as int) =~= s);
}

} // verus!

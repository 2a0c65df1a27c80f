//! The keyword table: a fixed mapping from identifier spelling to keyword
//! kind, built once before scanning starts and read-only during a scan.
//! Lookup is exact and case-sensitive: `"lets"` is an identifier, not `let`.

use vstd::prelude::*;

use crate::token_type::TokenType;

verus! {

/// The fixed spelling-to-kind association, in the order the table holds it.
pub open spec fn spec_keyword_table() -> Seq<(Seq<char>, TokenType)> {
    seq![
        ("and"@, TokenType::And),
        ("struct"@, TokenType::Struct),
        ("else"@, TokenType::Else),
        ("false"@, TokenType::False),
        ("for"@, TokenType::For),
        ("fn"@, TokenType::Function),
        ("if"@, TokenType::If),
        ("none"@, TokenType::NoneKw),
        ("or"@, TokenType::Or),
        ("print"@, TokenType::Print),
        ("return"@, TokenType::Return),
        ("this"@, TokenType::This),
        ("true"@, TokenType::True),
        ("let"@, TokenType::Let),
        ("while"@, TokenType::While),
    ]
}

/// First-match lookup of a word in an association table.
pub open spec fn table_lookup(t: Seq<(Seq<char>, TokenType)>, w: Seq<char>) -> Option<TokenType>
    decreases t.len(),
{
    if t.len() == 0 {
        Option::None
    } else if t[0].0 == w {
        Option::Some(t[0].1)
    } else {
        table_lookup(t.drop_first(), w)
    }
}

/// The kind a word scans to when it is a keyword, `None` when it is an
/// ordinary identifier.
pub open spec fn keyword_kind(w: Seq<char>) -> Option<TokenType> {
    table_lookup(spec_keyword_table(), w)
}

/// The keyword table as data: spelling/kind pairs, looked up by exact match.
pub struct KeywordTable {
    pub entries: Vec<(String, TokenType)>,
}

impl KeywordTable {
    /// The entries' mathematical values, in table order.
    pub open spec fn entries_view(&self) -> Seq<(Seq<char>, TokenType)> {
        self.entries@.map_values(|e: (String, TokenType)| (e.0@, e.1))
    }

    /// A table is well formed when it holds exactly the language's keywords.
    pub open spec fn wf(&self) -> bool {
        self.entries_view() == spec_keyword_table()
    }

    /// Looks a word up in the table; the first matching entry decides.
    pub fn lookup(&self, w: &String) -> (r: Option<TokenType>)
        requires
            self.wf(),
        ensures
            r == keyword_kind(w@),
    {
        let n = self.entries.len();
        let mut k: usize = 0;
        proof {
            assert(self.entries_view().skip(0) =~= self.entries_view());
        }
        while k < n
            invariant
                n == self.entries.len(),
                0 <= k <= n,
                self.wf(),
                table_lookup(self.entries_view().skip(k as int), w@) == keyword_kind(w@),
            decreases n - k,
        {
            let e = &self.entries[k];
            if e.0 == *w {
                proof {
                    assert(self.entries_view().skip(k as int)[0] == (e.0@, e.1));
                }
                return Some(e.1);
            }
            proof {
                assert(self.entries_view().skip(k as int).drop_first() =~= self.entries_view().skip(
                    k as int + 1,
                ));
            }
            k = k + 1;
        }
        proof {
            assert(self.entries_view().skip(n as int) =~= Seq::<
                (Seq<char>, TokenType),
            >::empty());
        }
        None
    }
}

/// Builds the keyword table, exactly as `spec_keyword_table` states it.
pub fn init_keywords_hash_map() -> (t: KeywordTable)
    ensures
        t.wf(),
{
    let mut entries: Vec<(String, TokenType)> = Vec::new();
    entries.push((String::from_str("and"), TokenType::And));
    entries.push((String::from_str("struct"), TokenType::Struct));
    entries.push((String::from_str("else"), TokenType::Else));
    entries.push((String::from_str("false"), TokenType::False));
    entries.push((String::from_str("for"), TokenType::For));
    entries.push((String::from_str("fn"), TokenType::Function));
    entries.push((String::from_str("if"), TokenType::If));
    entries.push((String::from_str("none"), TokenType::NoneKw));
    entries.push((String::from_str("or"), TokenType::Or));
    entries.push((String::from_str("print"), TokenType::Print));
    entries.push((String::from_str("return"), TokenType::Return));
    entries.push((String::from_str("this"), TokenType::This));
    entries.push((String::from_str("true"), TokenType::True));
    entries.push((String::from_str("let"), TokenType::Let));
    entries.push((String::from_str("while"), TokenType::While));
    let t = KeywordTable { entries };
    proof {
        assert(t.entries_view() =~= spec_keyword_table());
    }
    t
}

} // verus!

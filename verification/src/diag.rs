//! Diagnostics: non-fatal error reports attached to a source position.
//! The scan recovers from every malformed character or literal and keeps
//! going, so one scan can report several independent diagnostics.

use vstd::prelude::*;

verus! {

/// The kinds of malformed input the scanner reports.
#[derive(Clone, Copy, Debug, PartialEq, Eq, Structural)]
pub enum DiagKind {
    /// A literal was opened but no closing delimiter came before end of input.
    UnterminatedLiteral,
    /// A character matched no scanning rule.
    UnexpectedCharacter,
    /// A run of digits exceeds the width of the integer literal type.
    NumericOverflow,
}

/// One diagnostic: what went wrong, the 1-based line, and the approximate
/// column (characters consumed on that line when the error was noticed).
#[derive(Clone, Copy, Debug, PartialEq, Eq, Structural)]
pub struct Diagnostic {
    pub kind: DiagKind,
    pub line: u32,
    pub col: u32,
}

/// Mathematical value of a `Diagnostic`, with unbounded position counters.
pub ghost struct SpecDiag {
    pub kind: DiagKind,
    pub line: int,
    pub col: int,
}

impl View for Diagnostic {
    type V = SpecDiag;

    open spec fn view(&self) -> SpecDiag {
        SpecDiag { kind: self.kind, line: self.line as int, col: self.col as int }
    }
}

/// The views of a diagnostic vector, in order.
pub open spec fn diags_view(ds: Seq<Diagnostic>) -> Seq<SpecDiag> {
    ds.map_values(|d: Diagnostic| d@)
}

} // verus!

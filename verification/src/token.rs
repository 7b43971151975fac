//! The token model: spans, token kinds, and tokens.
//!
//! A `Span` is a half-open byte-offset range `[start, end)` into the source
//! text. A `Token` pairs a `TokenKind` with the span of the lexeme that
//! justified it. Tokens are immutable once produced.

use vstd::prelude::*;

verus! {

/// A half-open byte-offset range `[start, end)` into the source text.
#[derive(Debug, Default, Clone, Copy)]
pub struct Span {
    pub start: usize,
    pub end: usize,
}

impl Span {
    /// A span is well formed with respect to a source of length `len`
    /// when `start <= end <= len`.
    pub open spec fn wf(self, len: int) -> bool {
        self.start <= self.end <= len
    }
}

/// The lexical categories of the minimal grammar.
///
/// `Empty` doubles as the end-of-input sentinel: `Lexer::next_token` returns
/// a zero-width `Empty` token once the cursor has reached the end.
/// `UnexpectedByte` classifies a byte outside the grammar (whitespace
/// included: no byte is silently skipped), and `UnterminatedQuotedIdentifier`
/// reports a quoted identifier whose closing backtick is missing.
#[derive(Debug, Default, Clone, Copy, PartialEq, Eq, Structural)]
pub enum TokenKind {
    Plus,
    PlusEq,
    Identifier,
    QuotedIdentifier,
    UnterminatedQuotedIdentifier,
    UnexpectedByte,

    #[default]
    Empty,
}

/// A classified, positioned unit of lexical meaning: a kind together with
/// the span of the source bytes it covers.
#[derive(Debug, Default, Clone, Copy)]
pub struct Token {
    pub kind: TokenKind,
    pub span: Span,
}

impl Token {
    /// A fresh token: the `Empty` kind with a zero-width span at offset 0.
    pub fn new() -> (t: Token)
        ensures
            t.kind == TokenKind::Empty,
            t.span.start == 0,
            t.span.end == 0,
    {
        Token {
            kind: TokenKind::Empty,
            span: Span { start: 0, end: 0 },
        }
    }
}

} // verus!

//! Lexical-analysis front end for a small configuration language.
//!
//! The crate converts raw source text into a sequence of classified tokens
//! with byte-offset spans. Two components carry the design: [`source::Source`],
//! a bounds-checked cursor over an immutable byte buffer, and [`Lexer`], the
//! token dispatch state machine that drives it. The grammar and every
//! property the lexer promises are stated in [`scan`]; each public operation
//! carries a contract proved against that model.
//!
//! Whitespace is not skipped: a byte outside the grammar (a space included)
//! yields a one-byte `UnexpectedByte` token, so the spans of the returned
//! tokens tile the whole buffer with no gap.

use vstd::prelude::*;
use vstd::string::StringSliceAdditionalSpecFns;

pub mod identifier;
pub mod scan;
pub mod source;
pub mod token;

use crate::scan::spec_next_token;
use crate::source::Source;
use crate::token::{Span, Token, TokenKind};

verus! {

/// Declares `oxc_allocator::Allocator` so that a reference to it can stand
/// in the lexer. The allocator is an arena for token storage that callers
/// manage; the lexer only carries the handle and never reads into it, so the
/// type is opaque here and nothing is assumed of it.
#[verifier::external_type_specification]
#[verifier::external_body]
pub struct ExAllocator(oxc_allocator::Allocator);

/// The token dispatch state machine: classifies the bytes at the cursor
/// into exactly one token per call, advancing the cursor past everything
/// the token consumed.
pub struct Lexer<'a> {
    /// The cursor over the source text. The driver loop reads its
    /// end-of-input state directly.
    pub source: Source<'a>,
    /// The arena tokens would be stored in if they needed heap-backed
    /// storage; the minimal token model here does not, so the handle is
    /// only carried.
    pub arena: &'a oxc_allocator::Allocator,
}

impl<'a> Lexer<'a> {
    /// The source text as a mathematical byte sequence.
    pub open spec fn bytes(self) -> Seq<u8> {
        self.source.bytes()
    }

    /// The cursor's current read position.
    pub open spec fn position(self) -> int {
        self.source.position()
    }

    /// The lexer invariant: the cursor position never exceeds the buffer.
    pub open spec fn wf(self) -> bool {
        self.source.wf()
    }

    /// Creates a lexer over `source`, with the cursor at the start.
    pub fn new(arena: &'a oxc_allocator::Allocator, source: &'a str) -> (l: Lexer<'a>)
        ensures
            l.wf(),
            l.bytes() == source.spec_bytes(),
            l.position() == 0,
    {
        Lexer { source: Source::new(source), arena }
    }

    /// The byte at the cursor, without advancing.
    fn read_byte(&self) -> (b: u8)
        requires
            self.wf(),
            self.position() < self.bytes().len(),
        ensures
            b == self.bytes()[self.position()],
    {
        self.source.current()
    }

    /// Consumes one byte: advances the cursor by one position.
    pub(crate) fn bump(&mut self)
        requires
            old(self).wf(),
            old(self).position() < old(self).bytes().len(),
        ensures
            final (self).wf(),
            final (self).bytes() == old(self).bytes(),
            final (self).position() == old(self).position() + 1,
    {
        self.source.advance_by(1);
    }

    /// Classifies the bytes at the cursor into exactly one token and
    /// advances the cursor past everything the token consumed. At the end
    /// of the input it returns the zero-width `Empty` sentinel and stays
    /// put, so every later call returns the sentinel again.
    ///
    /// The returned token is exactly the one the grammar yields at the old
    /// position: its span starts there, ends where the cursor now stands,
    /// and its kind and end are those of `spec_next_token`.
    pub fn next_token(&mut self) -> (t: Token)
        requires
            old(self).wf(),
        ensures
            final (self).wf(),
            final (self).bytes() == old(self).bytes(),
            t.span.start == old(self).position(),
            t.span.end == final (self).position(),
            t.kind == spec_next_token(old(self).bytes(), old(self).position()).0,
            final (self).position() == spec_next_token(old(self).bytes(), old(self).position()).1,
            t.span.wf(old(self).bytes().len() as int),
    {
        proof {
            scan::lemma_next_token_advances(self.bytes(), self.position());
        }
        let start = self.source.get_current_pos();
        if self.source.is_at_end() {
            return Token { kind: TokenKind::Empty, span: Span { start, end: start } };
        }
        let b = self.read_byte();
        let kind: TokenKind;
        if scan::ident_start_byte(b) {
            self.identifier_handler();
            kind = TokenKind::Identifier;
        } else if b == scan::BACKTICK {
            kind = self.quoted_identifier_handler();
        } else if b == scan::PLUS {
            match self.source.peek() {
                Some(next) => {
                    if next == scan::EQUALS {
                        self.bump();
                        self.bump();
                        kind = TokenKind::PlusEq;
                    } else {
                        self.bump();
                        kind = TokenKind::Plus;
                    }
                },
                None => {
                    self.bump();
                    kind = TokenKind::Plus;
                },
            }
        } else {
            self.bump();
            kind = TokenKind::UnexpectedByte;
        }
        let end = self.source.get_current_pos();
        Token { kind, span: Span { start, end } }
    }

    /// Lexes the rest of the input in one pass: takes tokens until the end
    /// of the input is reached. The returned tokens are exactly the stream
    /// `spec_tokens` describes — the trailing `Empty` sentinel excluded —
    /// and the cursor is left at the end of the buffer.
    pub fn tokenize(&mut self) -> (tokens: Vec<Token>)
        requires
            old(self).wf(),
        ensures
            final (self).wf(),
            final (self).bytes() == old(self).bytes(),
            final (self).position() == old(self).bytes().len(),
            scan::token_tuples(tokens@) == scan::spec_tokens(
                old(self).bytes(),
                old(self).position(),
            ),
    {
        let ghost s = self.bytes();
        let ghost start = self.position();
        let mut tokens: Vec<Token> = Vec::new();
        loop
            invariant
                self.wf(),
                self.bytes() == s,
                0 <= start <= self.position() <= s.len(),
                scan::token_tuples(tokens@) + scan::spec_tokens(s, self.position())
                    == scan::spec_tokens(s, start),
            ensures
                self.wf(),
                self.bytes() == s,
                self.position() == s.len(),
                scan::token_tuples(tokens@) == scan::spec_tokens(s, start),
            decreases s.len() - self.position(),
        {
            if self.source.is_at_end() {
                proof {
                    assert(scan::spec_tokens(s, self.position()) =~= Seq::empty());
                    assert(scan::token_tuples(tokens@) + Seq::empty() =~= scan::token_tuples(
                        tokens@,
                    ));
                }
                break;
            }
            let ghost i = self.position();
            let ghost pre = tokens@;
            let t = self.next_token();
            tokens.push(t);
            proof {
                let (k, e) = scan::spec_next_token(s, i);
                assert(scan::spec_tokens(s, i) == seq![(k, i, e)] + scan::spec_tokens(s, e));
                assert(scan::token_tuples(tokens@) =~= scan::token_tuples(pre) + seq![(k, i, e)]);
                assert(scan::token_tuples(tokens@) + scan::spec_tokens(s, e)
                    =~= scan::token_tuples(pre) + scan::spec_tokens(s, i));
            }
        }
        tokens
    }
}

} // verus!

//! The mathematical model of the lexical grammar.
//!
//! Everything the lexer promises is stated here: byte classification, the
//! greedy run ends that identifier scanning reaches, the next-token function
//! `spec_next_token` that pins down the kind and end offset of the token
//! starting at any position, and the token stream `spec_tokens` of a full
//! lexing pass. The lemmas at the bottom establish the properties callers
//! rely on: progress and termination, gap-free coverage of the buffer,
//! round-trip fidelity of spans, and maximal munch.

use crate::token::{Token, TokenKind};
use vstd::prelude::*;

verus! {

// The byte values the grammar mentions by name.
pub const LOWER_A: u8 = 97;

pub const LOWER_Z: u8 = 122;

pub const UPPER_A: u8 = 65;

pub const UPPER_Z: u8 = 90;

pub const DIGIT_ZERO: u8 = 48;

pub const DIGIT_NINE: u8 = 57;

pub const UNDERSCORE: u8 = 95;

pub const BACKTICK: u8 = 96;

pub const PLUS: u8 = 43;

pub const EQUALS: u8 = 61;

/// True of a byte that may begin an identifier: an ASCII letter or `_`.
pub open spec fn is_ident_start(b: u8) -> bool {
    (LOWER_A <= b <= LOWER_Z) || (UPPER_A <= b <= UPPER_Z) || b == UNDERSCORE
}

/// True of an ASCII decimal digit.
pub open spec fn is_digit(b: u8) -> bool {
    DIGIT_ZERO <= b <= DIGIT_NINE
}

/// True of an ASCII letter or digit.
pub open spec fn is_alnum(b: u8) -> bool {
    (LOWER_A <= b <= LOWER_Z) || (UPPER_A <= b <= UPPER_Z) || is_digit(b)
}

/// True of a byte that may continue an identifier: a letter, digit or `_`.
pub open spec fn is_ident_continue(b: u8) -> bool {
    is_alnum(b) || b == UNDERSCORE
}

/// True of a byte the grammar can start a token from; any other byte is
/// classified `UnexpectedByte`.
pub open spec fn starts_token(b: u8) -> bool {
    is_ident_start(b) || b == BACKTICK || b == PLUS
}

/// The first index at or after `i` whose byte does not continue an
/// identifier (or the end of the buffer): where a greedy identifier scan
/// beginning at `i` stops.
pub open spec fn ident_run_end(s: Seq<u8>, i: int) -> int
    decreases s.len() - i when 0 <= i <= s.len()
{
    if i < s.len() && is_ident_continue(s[i]) {
        ident_run_end(s, i + 1)
    } else {
        i
    }
}

/// The first index at or after `i` whose byte is not alphanumeric (or the
/// end of the buffer): where the inner run of a quoted identifier stops.
pub open spec fn alnum_run_end(s: Seq<u8>, i: int) -> int
    decreases s.len() - i when 0 <= i <= s.len()
{
    if i < s.len() && is_alnum(s[i]) {
        alnum_run_end(s, i + 1)
    } else {
        i
    }
}

/// The token the grammar yields at position `i` of source `s`, as a pair of
/// its kind and its end offset. At or past the end of the buffer the result
/// is the zero-width `Empty` sentinel.
pub open spec fn spec_next_token(s: Seq<u8>, i: int) -> (TokenKind, int) {
    if i >= s.len() {
        (TokenKind::Empty, i)
    } else if is_ident_start(s[i]) {
        (TokenKind::Identifier, ident_run_end(s, i))
    } else if s[i] == BACKTICK {
        spec_quoted_token(s, i)
    } else if s[i] == PLUS {
        if i + 1 < s.len() && s[i + 1] == EQUALS {
            (TokenKind::PlusEq, i + 2)
        } else {
            (TokenKind::Plus, i + 1)
        }
    } else {
        (TokenKind::UnexpectedByte, i + 1)
    }
}

/// The token yielded by a quoted-identifier scan whose opening backtick
/// stands at `i`: the alphanumeric run after the backtick must be closed by
/// a second backtick, else the token reports the missing delimiter and
/// covers only the opening backtick and the run.
pub open spec fn spec_quoted_token(s: Seq<u8>, i: int) -> (TokenKind, int) {
    let r = alnum_run_end(s, i + 1);
    if r < s.len() && s[r] == BACKTICK {
        (TokenKind::QuotedIdentifier, r + 1)
    } else {
        (TokenKind::UnterminatedQuotedIdentifier, r)
    }
}

/// The stream of tokens a full lexing pass yields from position `i` on, each
/// as `(kind, start, end)`. The `Empty` sentinel is not part of the stream:
/// the stream ends where the buffer does.
pub open spec fn spec_tokens(s: Seq<u8>, i: int) -> Seq<(TokenKind, int, int)>
    decreases s.len() - i when 0 <= i <= s.len() via spec_tokens_decreases
{
    if i >= s.len() {
        Seq::empty()
    } else {
        let (k, e) = spec_next_token(s, i);
        seq![(k, i, e)] + spec_tokens(s, e)
    }
}

#[via_fn]
proof fn spec_tokens_decreases(s: Seq<u8>, i: int) {
    if i < s.len() {
        lemma_next_token_advances(s, i);
    }
}

/// The `(kind, start, end)` view of a sequence of produced tokens, for
/// comparison with the stream `spec_tokens` describes.
pub open spec fn token_tuples(ts: Seq<Token>) -> Seq<(TokenKind, int, int)> {
    ts.map(|j: int, t: Token| (t.kind, t.span.start as int, t.span.end as int))
}

/// True of a classification exactly when the byte sequence `lex` is a lexeme
/// of that classification: the shape of text each token kind stands for.
pub open spec fn lexeme_matches_kind(k: TokenKind, lex: Seq<u8>) -> bool {
    match k {
        TokenKind::Plus => lex =~= seq![PLUS],
        TokenKind::PlusEq => lex =~= seq![PLUS, EQUALS],
        TokenKind::Identifier => lex.len() > 0 && is_ident_start(lex[0]) && (forall|j: int|
            0 <= j < lex.len() ==> is_ident_continue(#[trigger] lex[j])),
        TokenKind::QuotedIdentifier => lex.len() >= 2 && lex[0] == BACKTICK && lex[lex.len() - 1]
            == BACKTICK && (forall|j: int| 1 <= j < lex.len() - 1 ==> is_alnum(#[trigger] lex[j])),
        TokenKind::UnterminatedQuotedIdentifier => lex.len() >= 1 && lex[0] == BACKTICK && (forall|
            j: int,
        | 1 <= j < lex.len() ==> is_alnum(#[trigger] lex[j])),
        TokenKind::UnexpectedByte => lex.len() == 1 && !starts_token(lex[0]),
        TokenKind::Empty => lex.len() == 0,
    }
}

/// Whether a byte begins an identifier, as executable code.
pub fn ident_start_byte(b: u8) -> (r: bool)
    ensures
        r == is_ident_start(b),
{
    (b >= LOWER_A && b <= LOWER_Z) || (b >= UPPER_A && b <= UPPER_Z) || b == UNDERSCORE
}

/// Whether a byte continues an identifier, as executable code.
pub fn ident_continue_byte(b: u8) -> (r: bool)
    ensures
        r == is_ident_continue(b),
{
    (b >= LOWER_A && b <= LOWER_Z) || (b >= UPPER_A && b <= UPPER_Z) || (b >= DIGIT_ZERO && b <= DIGIT_NINE) || b == UNDERSCORE
}

/// Whether a byte is an ASCII letter or digit, as executable code.
pub fn alnum_byte(b: u8) -> (r: bool)
    ensures
        r == is_alnum(b),
{
    (b >= LOWER_A && b <= LOWER_Z) || (b >= UPPER_A && b <= UPPER_Z) || (b >= DIGIT_ZERO && b <= DIGIT_NINE)
}

/// An identifier run stays inside the buffer, every byte it covers
/// continues an identifier, and the byte it stops on (if any) does not.
pub proof fn lemma_ident_run_end(s: Seq<u8>, i: int)
    requires
        0 <= i <= s.len(),
    ensures
        i <= ident_run_end(s, i) <= s.len(),
        forall|j: int| i <= j < ident_run_end(s, i) ==> is_ident_continue(#[trigger] s[j]),
        ident_run_end(s, i) < s.len() ==> !is_ident_continue(s[ident_run_end(s, i)]),
    decreases s.len() - i,
{
    if i < s.len() && is_ident_continue(s[i]) {
        lemma_ident_run_end(s, i + 1);
    }
}

/// An alphanumeric run stays inside the buffer, every byte it covers is
/// alphanumeric, and the byte it stops on (if any) is not.
pub proof fn lemma_alnum_run_end(s: Seq<u8>, i: int)
    requires
        0 <= i <= s.len(),
    ensures
        i <= alnum_run_end(s, i) <= s.len(),
        forall|j: int| i <= j < alnum_run_end(s, i) ==> is_alnum(#[trigger] s[j]),
        alnum_run_end(s, i) < s.len() ==> !is_alnum(s[alnum_run_end(s, i)]),
    decreases s.len() - i,
{
    if i < s.len() && is_alnum(s[i]) {
        lemma_alnum_run_end(s, i + 1);
    }
}

/// Termination and progress: before the end of the buffer every token
/// consumes at least one byte and stops inside the buffer; at the end the
/// lexer yields the zero-width `Empty` sentinel and stays put, so repeated
/// calls keep yielding it.
pub proof fn lemma_next_token_advances(s: Seq<u8>, i: int)
    requires
        0 <= i <= s.len(),
    ensures
        i < s.len() ==> i < spec_next_token(s, i).1 <= s.len(),
        i >= s.len() ==> spec_next_token(s, i) == (TokenKind::Empty, i),
{
    if i < s.len() {
        if is_ident_start(s[i]) {
            lemma_ident_run_end(s, i + 1);
            assert(ident_run_end(s, i) == ident_run_end(s, i + 1));
        } else if s[i] == BACKTICK {
            lemma_alnum_run_end(s, i + 1);
        }
    }
}

/// Coverage: the tokens of a full lexing pass from position `i` tile the
/// rest of the buffer exactly. The first token starts at `i`, each later one
/// starts where its predecessor ended, every token consumes at least one
/// byte, and the last token ends at the end of the buffer — no byte is
/// skipped or consumed twice. The stream is finite: it holds at most one
/// token per remaining byte.
pub proof fn lemma_coverage(s: Seq<u8>, i: int)
    requires
        0 <= i <= s.len(),
    ensures
        ({
            let toks = spec_tokens(s, i);
            &&& toks.len() <= s.len() - i
            &&& (i < s.len() ==> toks.len() > 0)
            &&& (toks.len() > 0 ==> toks[0].1 == i)
            &&& (toks.len() > 0 ==> toks[toks.len() - 1].2 == s.len())
            &&& forall|j: int| 0 < j < toks.len() ==> (#[trigger] toks[j]).1 == toks[j - 1].2
            &&& forall|j: int| 0 <= j < toks.len() ==> (#[trigger] toks[j]).1 < toks[j].2 <= s.len()
            &&& forall|j: int|
                0 <= j < toks.len() ==> (#[trigger] toks[j]).0 == spec_next_token(s, toks[j].1).0
                    && toks[j].2 == spec_next_token(s, toks[j].1).1
        }),
    decreases s.len() - i,
{
    if i < s.len() {
        lemma_next_token_advances(s, i);
        let (k, e) = spec_next_token(s, i);
        lemma_coverage(s, e);
        let head = seq![(k, i, e)];
        let rest = spec_tokens(s, e);
        let toks = spec_tokens(s, i);
        assert(toks == head + rest);
        assert forall|j: int| 0 < j < toks.len() implies (#[trigger] toks[j]).1 == toks[j
            - 1].2 by {
            if j > 1 {
                assert(toks[j] == rest[j - 1]);
                assert(toks[j - 1] == rest[j - 2]);
            } else {
                assert(toks[1] == rest[0]);
            }
        }
    }
}

/// Round-trip span fidelity: the bytes a token's span covers are exactly a
/// lexeme of the token's kind — slicing the source with the span gives back
/// the text that justified the classification.
pub proof fn lemma_round_trip_span(s: Seq<u8>, i: int)
    requires
        0 <= i <= s.len(),
    ensures
        ({
            let (k, e) = spec_next_token(s, i);
            lexeme_matches_kind(k, s.subrange(i, e))
        }),
{
    lemma_next_token_advances(s, i);
    if i < s.len() {
        let (k, e) = spec_next_token(s, i);
        let lex = s.subrange(i, e);
        if is_ident_start(s[i]) {
            lemma_ident_run_end(s, i);
        } else if s[i] == BACKTICK {
            lemma_alnum_run_end(s, i + 1);
            let r = alnum_run_end(s, i + 1);
            if r < s.len() && s[r] == BACKTICK {
                assert(lex[lex.len() - 1] == s[r]);
            }
        }
    }
}

/// Maximal munch: a scan never stops where a longer lexeme of the same
/// category could have been read. An identifier token is followed by a byte
/// that cannot continue an identifier, and a `Plus` token is never followed
/// by `=` (that input yields the two-byte `PlusEq` instead).
pub proof fn lemma_maximal_munch(s: Seq<u8>, i: int)
    requires
        0 <= i <= s.len(),
    ensures
        ({
            let (k, e) = spec_next_token(s, i);
            &&& (k == TokenKind::Identifier ==> (e == s.len() || !is_ident_continue(s[e])))
            &&& (k == TokenKind::Plus ==> (e == s.len() || s[e] != EQUALS))
        }),
{
    if i < s.len() && is_ident_start(s[i]) {
        lemma_ident_run_end(s, i);
    }
}

} // verus!


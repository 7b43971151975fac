//! The per-category scan routines for identifiers.
//!
//! Both handlers consume bytes greedily from the lexer's cursor and stop at
//! the first byte outside their category, which is left for the next
//! dispatch — except the closing backtick of a quoted identifier, which is
//! consumed and verified to be present.

use crate::scan;
use crate::token::TokenKind;
use crate::Lexer;
use vstd::prelude::*;

verus! {

impl<'a> Lexer<'a> {
    /// Greedily consumes the identifier run at the cursor: every consecutive
    /// letter, digit or underscore. The first byte that does not continue an
    /// identifier is not consumed; the next dispatch re-examines it.
    pub fn identifier_handler(&mut self)
        requires
            old(self).wf(),
        ensures
            final (self).wf(),
            final (self).bytes() == old(self).bytes(),
            final (self).position() == scan::ident_run_end(
                old(self).bytes(),
                old(self).position(),
            ),
    {
        let ghost s = self.bytes();
        let ghost start = self.position();
        loop
            invariant
                self.wf(),
                self.bytes() == s,
                0 <= start <= self.position() <= s.len(),
                scan::ident_run_end(s, start) == scan::ident_run_end(s, self.position()),
            ensures
                self.wf(),
                self.bytes() == s,
                self.position() == scan::ident_run_end(s, start),
            decreases s.len() - self.position(),
        {
            if self.source.is_at_end() {
                proof {
                    assert(scan::ident_run_end(s, self.position()) == self.position());
                }
                break;
            }
            let byte = self.read_byte();
            if !scan::ident_continue_byte(byte) {
                proof {
                    assert(scan::ident_run_end(s, self.position()) == self.position());
                }
                break;
            }
            proof {
                assert(scan::ident_run_end(s, self.position()) == scan::ident_run_end(
                    s,
                    self.position() + 1,
                ));
            }
            self.bump();
        }
    }

    /// Consumes a quoted identifier at the cursor: the opening backtick, the
    /// greedy alphanumeric run after it, and — when it is present — the
    /// closing backtick. Returns `QuotedIdentifier` when the run is closed
    /// by a backtick, and `UnterminatedQuotedIdentifier` when the run is
    /// ended by the end of the input or by any other byte; in that case the
    /// ending byte is not consumed.
    pub fn quoted_identifier_handler(&mut self) -> (k: TokenKind)
        requires
            old(self).wf(),
            old(self).position() < old(self).bytes().len(),
            old(self).bytes()[old(self).position()] == scan::BACKTICK,
        ensures
            final (self).wf(),
            final (self).bytes() == old(self).bytes(),
            k == scan::spec_quoted_token(old(self).bytes(), old(self).position()).0,
            final (self).position() == scan::spec_quoted_token(
                old(self).bytes(),
                old(self).position(),
            ).1,
    {
        let ghost s = self.bytes();
        let ghost opening = self.position();
        self.bump();
        loop
            invariant
                self.wf(),
                self.bytes() == s,
                0 <= opening && opening + 1 <= self.position() <= s.len(),
                scan::alnum_run_end(s, opening + 1) == scan::alnum_run_end(s, self.position()),
            ensures
                self.wf(),
                self.bytes() == s,
                self.position() == scan::alnum_run_end(s, opening + 1),
            decreases s.len() - self.position(),
        {
            if self.source.is_at_end() {
                proof {
                    assert(scan::alnum_run_end(s, self.position()) == self.position());
                }
                break;
            }
            let byte = self.read_byte();
            if !scan::alnum_byte(byte) {
                proof {
                    assert(scan::alnum_run_end(s, self.position()) == self.position());
                }
                break;
            }
            proof {
                assert(scan::alnum_run_end(s, self.position()) == scan::alnum_run_end(
                    s,
                    self.position() + 1,
                ));
            }
            self.bump();
        }
        if !self.source.is_at_end() && self.source.current() == scan::BACKTICK {
            self.bump();
            TokenKind::QuotedIdentifier
        } else {
            TokenKind::UnterminatedQuotedIdentifier
        }
    }
}

} // verus!

//! The source-buffer cursor.
//!
//! `Source` owns a read position over an immutable, borrowed byte buffer and
//! exposes byte-level peek/advance/slice primitives plus end-of-input
//! detection. It knows nothing about tokens. All access is bounds-checked
//! index arithmetic: reads past the end are ruled out by contract, never
//! silently tolerated.

use vstd::prelude::*;
use vstd::slice::slice_subrange;
use vstd::string::StringSliceAdditionalSpecFns;

verus! {

/// A position-tracked read cursor over an immutable source buffer.
///
/// The buffer is borrowed, never copied: it must outlive the cursor.
/// Invariant: `0 <= position <= text.len()`.
pub struct Source<'a> {
    text: &'a [u8],
    pos: usize,
}

impl<'a> Source<'a> {
    /// The source text as a mathematical byte sequence.
    pub closed spec fn bytes(self) -> Seq<u8> {
        self.text@
    }

    /// The current read position.
    pub closed spec fn position(self) -> int {
        self.pos as int
    }

    /// The cursor invariant: the position never exceeds the buffer length.
    pub open spec fn wf(self) -> bool {
        0 <= self.position() <= self.bytes().len()
    }

    /// Creates a cursor at the start of `source`, read as raw bytes.
    pub fn new(source: &'a str) -> (s: Source<'a>)
        ensures
            s.wf(),
            s.bytes() == source.spec_bytes(),
            s.position() == 0,
    {
        Source { text: source.as_bytes(), pos: 0 }
    }

    /// The entire source buffer.
    pub fn get_whole_source(&self) -> (r: &'a [u8])
        ensures
            r@ == self.bytes(),
    {
        self.text
    }

    /// The current read position as a byte offset from the start.
    pub fn get_current_pos(&self) -> (r: usize)
        ensures
            r == self.position(),
    {
        self.pos
    }

    /// Moves the read position directly to `index` and returns the byte
    /// there. Calling with `index` out of bounds is a contract violation.
    pub fn advance(&mut self, index: usize) -> (b: u8)
        requires
            index < old(self).bytes().len(),
        ensures
            final(self).bytes() == old(self).bytes(),
            final(self).position() == index,
            final(self).wf(),
            b == old(self).bytes()[index as int],
    {
        self.pos = index;
        self.text[index]
    }

    /// Moves the read position forward by `n` bytes, clamped never to
    /// exceed the buffer length: past the end it is an idempotent no-op.
    pub fn advance_by(&mut self, n: usize)
        requires
            old(self).wf(),
        ensures
            final (self).wf(),
            final (self).bytes() == old(self).bytes(),
            final (self).position() == (if old(self).position() + n <= old(self).bytes().len() {
                old(self).position() + n
            } else {
                old(self).bytes().len() as int
            }),
    {
        let len = self.text.len();
        if n >= len - self.pos {
            self.pos = len;
        } else {
            self.pos = self.pos + n;
        }
    }

    /// Reads the byte `index` positions ahead of the cursor, without
    /// advancing. Calling with `position + index` out of bounds is a
    /// contract violation.
    pub fn add(&self, index: usize) -> (b: u8)
        requires
            self.position() + index < self.bytes().len(),
        ensures
            b == self.bytes()[self.position() + index],
    {
        proof {
            vstd::slice::axiom_spec_len(self.text);
        }
        self.text[self.pos + index]
    }

    /// The byte at the current position. Callers must check `is_at_end`
    /// first: calling at the end is a contract violation, never a sentinel.
    pub fn current(&self) -> (b: u8)
        requires
            self.position() < self.bytes().len(),
        ensures
            b == self.bytes()[self.position()],
    {
        self.text[self.pos]
    }

    /// True iff the cursor has consumed the whole buffer.
    pub fn is_at_end(&self) -> (r: bool)
        ensures
            r == (self.position() >= self.bytes().len()),
    {
        self.pos >= self.text.len()
    }

    /// The byte one position ahead of the cursor, if it is in bounds.
    /// Does not advance.
    pub fn peek(&self) -> (r: Option<u8>)
        requires
            self.wf(),
        ensures
            r == (if self.position() + 1 < self.bytes().len() {
                Some(self.bytes()[self.position() + 1])
            } else {
                None::<u8>
            }),
    {
        if self.pos < self.text.len() && self.pos + 1 < self.text.len() {
            Some(self.text[self.pos + 1])
        } else {
            None
        }
    }

    /// The byte range `[start, end)` of the source buffer, zero-copy.
    /// Bounds violations are contract errors, not silent out-of-range reads.
    pub fn get_slice(&self, start: usize, end: usize) -> (r: &'a [u8])
        requires
            start <= end <= self.bytes().len(),
        ensures
            r@ == self.bytes().subrange(start as int, end as int),
    {
        slice_subrange(self.text, start, end)
    }

    /// The current read position as a 32-bit offset, used to build spans.
    pub fn offset(&self) -> (r: u32)
        requires
            self.position() <= u32::MAX,
        ensures
            r == self.position(),
    {
        self.pos as u32
    }

    /// Returns the byte at the cursor as a `char` and advances one position,
    /// or `None` at the end of the buffer.
    pub fn next_char(&mut self) -> (r: Option<char>)
        requires
            old(self).wf(),
        ensures
            final(self).wf(),
            final(self).bytes() == old(self).bytes(),
            old(self).position() < old(self).bytes().len() ==> {
                &&& r == Some(old(self).bytes()[old(self).position()] as char)
                &&& final(self).position() == old(self).position() + 1
            },
            old(self).position() >= old(self).bytes().len() ==> {
                &&& r == None::<char>
                &&& final(self).position() == old(self).position()
            },
    {
        if self.pos < self.text.len() {
            let b = self.text[self.pos];
            self.pos = self.pos + 1;
            Some(b as char)
        } else {
            None
        }
    }

    /// Returns the byte at the cursor as a `char` without advancing, or
    /// `None` at the end of the buffer.
    pub fn peek_char(&self) -> (r: Option<char>)
        ensures
            r == (if self.position() < self.bytes().len() {
                Some(self.bytes()[self.position()] as char)
            } else {
                None::<char>
            }),
    {
        if self.pos < self.text.len() {
            Some(self.text[self.pos] as char)
        } else {
            None
        }
    }
}

} // verus!

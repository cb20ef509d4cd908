//! A forward-only, peekable view over the input bytes.
//!
//! Every consuming operation checks that enough bytes remain and reports
//! `TruncatedInput` instead of running past the end, so malformed or
//! truncated input can never cause an uncontrolled abort.

use vstd::prelude::*;

use crate::errors::DecodeError;

verus! {

/// An exclusively-owned cursor over a byte buffer.
pub struct ByteCursor {
    /// The whole input; never changed by the decode.
    pub data: Vec<u8>,
    /// Index of the first unconsumed byte.
    pub pos: usize,
}

impl ByteCursor {
    /// The cursor never points past the end of the buffer.
    pub open spec fn wf(self) -> bool {
        self.pos <= self.data@.len()
    }

    /// The bytes the cursor ranges over.
    pub open spec fn bytes(self) -> Seq<u8> {
        self.data@
    }

    pub fn new(data: Vec<u8>) -> (c: ByteCursor)
        ensures
            c.wf(),
            c.bytes() == data@,
            c.pos == 0,
    {
        ByteCursor { data, pos: 0 }
    }

    /// Look at the next byte without consuming it.
    pub fn peek(&self) -> (r: Result<u8, DecodeError>)
        requires
            self.wf(),
        ensures
            self.pos < self.bytes().len() ==> r == Ok::<u8, DecodeError>(self.bytes()[self.pos as int]),
            self.pos == self.bytes().len() ==> r == Err::<u8, DecodeError>(DecodeError::TruncatedInput),
    {
        if self.pos < self.data.len() {
            Ok(self.data[self.pos])
        } else {
            Err(DecodeError::TruncatedInput)
        }
    }

    /// Consume and return the next byte.
    pub fn next_byte(&mut self) -> (r: Result<u8, DecodeError>)
        requires
            old(self).wf(),
        ensures
            final(self).wf(),
            final(self).bytes() == old(self).bytes(),
            old(self).pos < old(self).bytes().len() ==> {
                &&& r == Ok::<u8, DecodeError>(old(self).bytes()[old(self).pos as int])
                &&& final(self).pos == old(self).pos + 1
            },
            old(self).pos == old(self).bytes().len() ==> {
                &&& r == Err::<u8, DecodeError>(DecodeError::TruncatedInput)
                &&& final(self).pos == old(self).pos
            },
    {
        if self.pos < self.data.len() {
            let b = self.data[self.pos];
            self.pos = self.pos + 1;
            Ok(b)
        } else {
            Err(DecodeError::TruncatedInput)
        }
    }

    /// Consume `n` bytes and return them as a contiguous buffer.
    /// Fails, leaving the cursor unmoved, when fewer than `n` bytes remain.
    pub fn take(&mut self, n: usize) -> (r: Result<Vec<u8>, DecodeError>)
        requires
            old(self).wf(),
        ensures
            final(self).wf(),
            final(self).bytes() == old(self).bytes(),
            old(self).pos + n <= old(self).bytes().len() ==> {
                &&& r matches Ok(v) && v@ == old(self).bytes().subrange(
                    old(self).pos as int,
                    old(self).pos + n,
                )
                &&& final(self).pos == old(self).pos + n
            },
            old(self).pos + n > old(self).bytes().len() ==> {
                &&& r == Err::<Vec<u8>, DecodeError>(DecodeError::TruncatedInput)
                &&& final(self).pos == old(self).pos
            },
    {
        if n <= self.data.len() - self.pos {
            let dlen = self.data.len();
            let mut out: Vec<u8> = Vec::new();
            let mut i: usize = 0;
            while i < n
                invariant
                    self.wf(),
                    i <= n,
                    self.data@.len() == dlen,
                    self.pos + n <= self.data@.len(),
                    out@ == self.data@.subrange(self.pos as int, self.pos + i),
                decreases n - i,
            {
                out.push(self.data[self.pos + i]);
                i = i + 1;
                proof {
                    assert(out@ =~= self.data@.subrange(self.pos as int, self.pos + i));
                }
            }
            self.pos = self.pos + n;
            Ok(out)
        } else {
            Err(DecodeError::TruncatedInput)
        }
    }

    /// Consume and discard `n` bytes.
    pub fn skip(&mut self, n: usize) -> (r: Result<(), DecodeError>)
        requires
            old(self).wf(),
        ensures
            final(self).wf(),
            final(self).bytes() == old(self).bytes(),
            old(self).pos + n <= old(self).bytes().len() ==> {
                &&& r == Ok::<(), DecodeError>(())
                &&& final(self).pos == old(self).pos + n
            },
            old(self).pos + n > old(self).bytes().len() ==> {
                &&& r == Err::<(), DecodeError>(DecodeError::TruncatedInput)
                &&& final(self).pos == old(self).pos
            },
    {
        if n <= self.data.len() - self.pos {
            self.pos = self.pos + n;
            Ok(())
        } else {
            Err(DecodeError::TruncatedInput)
        }
    }
}

} // verus!

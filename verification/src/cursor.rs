use vstd::prelude::*;

use crate::error::TapeError;

verus! {

/// A 16-bit value assembled from two bytes, least-significant byte first.
pub open spec fn spec_u16_le(lo: u8, hi: u8) -> u16 {
    (lo + 256 * hi) as u16
}

/// A bounded reader over an in-memory byte buffer.
///
/// The cursor tracks only a read position; it never mutates the underlying
/// bytes, never zero-pads and never truncates: every read either consumes
/// exactly the requested bytes or fails with `UnexpectedEndOfInput` and
/// leaves the position where it was.
pub struct ByteCursor {
    data: Vec<u8>,
    pos: usize,
}

impl ByteCursor {
    /// The whole underlying buffer.
    pub closed spec fn data_seq(&self) -> Seq<u8> {
        self.data@
    }

    /// The current read position.
    pub closed spec fn position(&self) -> int {
        self.pos as int
    }

    /// The position never runs past the end of the buffer.
    pub open spec fn wf(&self) -> bool {
        0 <= self.position() && self.position() <= self.data_seq().len()
    }

    /// How many bytes are still unread.
    pub open spec fn remaining(&self) -> int {
        self.data_seq().len() - self.position()
    }

    /// The unread tail of the buffer.
    pub open spec fn window(&self) -> Seq<u8> {
        self.data_seq().subrange(self.position(), self.data_seq().len() as int)
    }

    pub fn new(data: Vec<u8>) -> (c: Self)
        ensures
            c.wf(),
            c.data_seq() == data@,
            c.position() == 0,
    {
        ByteCursor { data, pos: 0 }
    }

    /// The byte offset reached so far; callers use it to report where in
    /// the container a decode failed.
    pub fn offset(&self) -> (n: usize)
        ensures
            n as int == self.position(),
    {
        self.pos
    }

    pub fn bytes_left(&self) -> (n: usize)
        requires
            self.wf(),
        ensures
            n as int == self.remaining(),
    {
        self.data.len() - self.pos
    }

    pub fn read_u8(&mut self) -> (r: Result<u8, TapeError>)
        requires
            old(self).wf(),
        ensures
            final(self).wf(),
            final(self).data_seq() == old(self).data_seq(),
            old(self).remaining() >= 1 ==> {
                &&& r == Ok::<u8, TapeError>(old(self).data_seq()[old(self).position()])
                &&& final(self).position() == old(self).position() + 1
            },
            old(self).remaining() == 0 ==> {
                &&& r == Err::<u8, TapeError>(TapeError::UnexpectedEndOfInput)
                &&& final(self).position() == old(self).position()
            },
    {
        if self.pos < self.data.len() {
            let b = self.data[self.pos];
            self.pos = self.pos + 1;
            Ok(b)
        } else {
            Err(TapeError::UnexpectedEndOfInput)
        }
    }

    pub fn read_u16_le(&mut self) -> (r: Result<u16, TapeError>)
        requires
            old(self).wf(),
        ensures
            final(self).wf(),
            final(self).data_seq() == old(self).data_seq(),
            old(self).remaining() >= 2 ==> {
                &&& r == Ok::<u16, TapeError>(spec_u16_le(
                    old(self).data_seq()[old(self).position()],
                    old(self).data_seq()[old(self).position() + 1],
                ))
                &&& final(self).position() == old(self).position() + 2
            },
            old(self).remaining() < 2 ==> {
                &&& r == Err::<u16, TapeError>(TapeError::UnexpectedEndOfInput)
                &&& final(self).position() == old(self).position()
            },
    {
        if self.data.len() - self.pos >= 2 {
            let lo = self.data[self.pos];
            let hi = self.data[self.pos + 1];
            self.pos = self.pos + 2;
            Ok(lo as u16 + 256 * (hi as u16))
        } else {
            Err(TapeError::UnexpectedEndOfInput)
        }
    }

    pub fn read_exact(&mut self, n: usize) -> (r: Result<Vec<u8>, TapeError>)
        requires
            old(self).wf(),
        ensures
            final(self).wf(),
            final(self).data_seq() == old(self).data_seq(),
            old(self).remaining() >= n ==> {
                &&& r is Ok
                &&& r->Ok_0@ == old(self).data_seq().subrange(
                    old(self).position(),
                    old(self).position() + n,
                )
                &&& final(self).position() == old(self).position() + n
            },
            old(self).remaining() < n ==> {
                &&& r == Err::<Vec<u8>, TapeError>(TapeError::UnexpectedEndOfInput)
                &&& final(self).position() == old(self).position()
            },
    {
        if n <= self.data.len() - self.pos {
            let mut out: Vec<u8> = Vec::new();
            let mut i: usize = 0;
            while i < n
                invariant
                    self.wf(),
                    i <= n,
                    self.pos + n <= self.data.len(),
                    out@ == self.data@.subrange(self.pos as int, self.pos + i),
                decreases n - i,
            {
                out.push(self.data[self.pos + i]);
                i = i + 1;
                proof {
                    assert(out@ =~= self.data@.subrange(self.pos as int, self.pos + i));
                }
            }
            self.pos = self.pos + n;
            Ok(out)
        } else {
            Err(TapeError::UnexpectedEndOfInput)
        }
    }

    /// Advances past `n` bytes without keeping them.
    pub fn skip(&mut self, n: usize) -> (r: Result<(), TapeError>)
        requires
            old(self).wf(),
        ensures
            final(self).wf(),
            final(self).data_seq() == old(self).data_seq(),
            old(self).remaining() >= n ==> {
                &&& r is Ok
                &&& final(self).position() == old(self).position() + n
            },
            old(self).remaining() < n ==> {
                &&& r == Err::<(), TapeError>(TapeError::UnexpectedEndOfInput)
                &&& final(self).position() == old(self).position()
            },
    {
        if n <= self.data.len() - self.pos {
            self.pos = self.pos + n;
            Ok(())
        } else {
            Err(TapeError::UnexpectedEndOfInput)
        }
    }
}

} // verus!

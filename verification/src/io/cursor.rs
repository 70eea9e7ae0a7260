//! An in-memory seekable byte source.

use vstd::prelude::*;
use crate::error::{invalid_input, Error};
use crate::io::traits::{SeekFrom, SeekableReader};

verus! {

/// A byte vector with a position: the in-memory `SeekableReader`.
pub struct Cursor {
    inner: Vec<u8>,
    pos: u64,
}

impl Cursor {
    /// Wraps `inner`, positioned at its first byte.
    pub fn new(inner: Vec<u8>) -> (c: Cursor)
        ensures
            c.source() == inner@,
            c.seek_origin() == 0,
    {
        Cursor { inner, pos: 0 }
    }

    /// The bytes that the cursor reads from.
    pub fn get_ref(&self) -> (v: &Vec<u8>)
        ensures
            v@ == self.source(),
    {
        &self.inner
    }

    /// Gives the bytes back.
    pub fn into_inner(self) -> (v: Vec<u8>)
        ensures
            v@ == self.source(),
    {
        self.inner
    }

    /// The offset of the next byte to be read.
    pub fn position(&self) -> (p: u64)
        ensures
            p == self.seek_origin(),
    {
        self.pos
    }

    /// Moves to offset `pos`, which may lie behind the end.
    pub fn set_position(&mut self, pos: u64)
        ensures
            final(self).source() == old(self).source(),
            final(self).seek_origin() == pos,
    {
        self.pos = pos;
    }
}

impl SeekableReader for Cursor {
    closed spec fn source(&self) -> Seq<u8> {
        self.inner@
    }

    open spec fn remaining(&self) -> Seq<u8> {
        SeekFrom::tail(self.source(), self.seek_origin())
    }

    closed spec fn seek_origin(&self) -> nat {
        self.pos as nat
    }

    open spec fn reliable(&self) -> bool {
        true
    }

    proof fn lemma_source_fits(&self) {
        assert(self.inner@.len() == self.inner.len());
    }

    fn read(&mut self, buf: &mut [u8]) -> (r: Result<usize, Error>)
        ensures
            r matches Ok(n) ==> final(self).seek_origin() == old(self).seek_origin() + n,
    {
        let len: usize = self.inner.len();
        let start: usize = if self.pos >= len as u64 {
            len
        } else {
            self.pos as usize
        };
        let avail: usize = len - start;
        let n: usize = if buf.len() < avail {
            buf.len()
        } else {
            avail
        };
        let ghost before = buf@;
        let mut i: usize = 0;
        while i < n
            invariant
                i <= n,
                start + n <= len,
                len == self.inner@.len(),
                n <= buf@.len(),
                buf@.len() == before.len(),
                self.inner@ == old(self).inner@,
                self.pos == old(self).pos,
                forall|j: int| 0 <= j < i ==> buf@[j] == self.inner@[start + j],
                forall|j: int| i <= j < buf@.len() ==> buf@[j] == before[j],
            decreases n - i,
        {
            buf[i] = self.inner[start + i];
            i = i + 1;
        }
        self.pos = self.pos + n as u64;
        proof {
            let left = old(self).remaining();
            assert(buf@.subrange(0, n as int) =~= left.subrange(0, n as int));
            assert(buf@.subrange(n as int, buf@.len() as int) =~= before.subrange(
                n as int,
                before.len() as int,
            ));
            assert(self.remaining() =~= left.skip(n as int));
        }
        Ok(n)
    }

    fn seek(&mut self, pos: SeekFrom) -> (r: Result<u64, Error>) {
        let len: u64 = self.inner.len() as u64;
        let target: Option<u64> = match pos {
            SeekFrom::Start(n) => Some(n),
            SeekFrom::End(d) => len.checked_add_signed(d),
            SeekFrom::Current(d) => self.pos.checked_add_signed(d),
        };
        match target {
            Some(p) => {
                self.pos = p;
                Ok(p)
            },
            None => Err(Error::Io(invalid_input())),
        }
    }
}

} // verus!

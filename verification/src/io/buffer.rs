//! Buffered reading.
//!
//! `BufferedReader` keeps a block of bytes that it has taken from its source
//! ahead of need, and serves small reads from it. A seek discards the block.

use vstd::prelude::*;
use crate::error::Error;
use crate::io::traits::{vec_of_zeros, SeekFrom, SeekableReader};

verus! {

/// The block of bytes that a `BufferedReader` holds: what it took from the
/// source in one read, and how much of that it has handed out.
struct Block {
    buffer: Vec<u8>,
    pos: usize,
    cap: usize,
    buffer_size: usize,
}

impl Block {
    #[verifier::type_invariant]
    spec fn well_formed(self) -> bool {
        &&& self.pos <= self.cap
        &&& self.cap <= self.buffer@.len()
        &&& self.buffer@.len() == self.buffer_size
    }

    /// The bytes taken from the source and not yet handed out.
    closed spec fn pending(&self) -> Seq<u8> {
        self.buffer@.subrange(self.pos as int, self.cap as int)
    }

    closed spec fn capacity(&self) -> nat {
        self.buffer_size as nat
    }

    fn with_capacity(capacity: usize) -> (b: Block)
        ensures
            b.pending() == Seq::<u8>::empty(),
            b.capacity() == capacity,
    {
        let b = Block { buffer: vec_of_zeros(capacity), pos: 0, cap: 0, buffer_size: capacity };
        assert(b.pending() =~= Seq::<u8>::empty());
        b
    }

    fn len(&self) -> (n: usize)
        ensures
            n == self.pending().len(),
    {
        proof {
            use_type_invariant(self);
        }
        self.cap - self.pos
    }

    fn size(&self) -> (n: usize)
        ensures
            n == self.capacity(),
    {
        self.buffer_size
    }

    /// Drops what is pending.
    fn clear(&mut self)
        ensures
            final(self).pending() == Seq::<u8>::empty(),
            final(self).capacity() == old(self).capacity(),
    {
        proof {
            use_type_invariant(&*self);
        }
        self.pos = 0;
        self.cap = 0;
        assert(self.pending() =~= Seq::<u8>::empty());
    }

    /// Replaces what is pending by one read from `inner`.
    fn fill<R: SeekableReader>(&mut self, inner: &mut R) -> (r: Result<(), Error>)
        ensures
            final(inner).source() == old(inner).source(),
            final(inner).reliable() == old(inner).reliable(),
            final(self).capacity() == old(self).capacity(),
            old(inner).reliable() ==> r is Ok,
            r is Err ==> r->Err_0 is Io,
            r is Ok ==> {
                &&& final(self).pending() + final(inner).remaining() == old(inner).remaining()
                &&& final(self).pending().len() == 0 ==> old(self).capacity() == 0 || old(
                    inner,
                ).remaining().len() == 0
            },
    {
        proof {
            use_type_invariant(&*self);
        }
        let ghost left = inner.remaining();
        let mut fresh: Vec<u8> = vec_of_zeros(self.buffer_size);
        let n = match inner.read(fresh.as_mut_slice()) {
            Ok(n) => n,
            Err(e) => {
                return Err(e);
            },
        };
        self.buffer = fresh;
        self.pos = 0;
        self.cap = n;
        proof {
            assert(self.pending() =~= left.subrange(0, n as int));
            assert(self.pending() + inner.remaining() =~= left);
        }
        Ok(())
    }

    /// Hands out pending bytes into the front of `buf`, as many as fit.
    fn take(&mut self, buf: &mut [u8]) -> (n: usize)
        ensures
            final(self).capacity() == old(self).capacity(),
            n <= old(buf)@.len(),
            n <= old(self).pending().len(),
            n == old(buf)@.len() || n == old(self).pending().len(),
            final(buf)@.len() == old(buf)@.len(),
            final(buf)@.subrange(0, n as int) == old(self).pending().subrange(0, n as int),
            final(buf)@.subrange(n as int, final(buf)@.len() as int) == old(buf)@.subrange(
                n as int,
                old(buf)@.len() as int,
            ),
            final(self).pending() == old(self).pending().skip(n as int),
    {
        proof {
            use_type_invariant(&*self);
        }
        let ghost before = buf@;
        let ghost held = self.pending();
        let available: usize = self.cap - self.pos;
        let to_read: usize = if available < buf.len() {
            available
        } else {
            buf.len()
        };
        let mut i: usize = 0;
        while i < to_read
            invariant
                i <= to_read,
                to_read <= buf@.len(),
                buf@.len() == before.len(),
                self.pos + to_read <= self.cap,
                self.cap <= self.buffer@.len(),
                forall|j: int| 0 <= j < i ==> buf@[j] == self.buffer@[self.pos + j],
                forall|j: int| i <= j < buf@.len() ==> buf@[j] == before[j],
            decreases to_read - i,
        {
            buf[i] = self.buffer[self.pos + i];
            i = i + 1;
        }
        self.pos = self.pos + to_read;
        proof {
            assert(buf@.subrange(0, to_read as int) =~= held.subrange(0, to_read as int));
            assert(buf@.subrange(to_read as int, buf@.len() as int) =~= before.subrange(
                to_read as int,
                before.len() as int,
            ));
            assert(self.pending() =~= held.skip(to_read as int));
        }
        to_read
    }
}

/// A buffered reader that wraps any [`SeekableReader`].
pub struct BufferedReader<R: SeekableReader> {
    inner: R,
    block: Block,
}

impl<R: SeekableReader> BufferedReader<R> {
    /// The reader underneath.
    pub closed spec fn inner_reader(&self) -> R {
        self.inner
    }

    /// The bytes taken from the source and not yet handed out.
    pub closed spec fn pending(&self) -> Seq<u8> {
        self.block.pending()
    }

    /// The size of the internal buffer.
    pub closed spec fn capacity(&self) -> nat {
        self.block.capacity()
    }

    /// Creates a new buffered reader with default buffer size (8KB)
    pub fn new(inner: R) -> (b: Self)
        ensures
            b.inner_reader() == inner,
            b.pending() == Seq::<u8>::empty(),
            b.capacity() == 8192,
    {
        Self::with_capacity(8192, inner)
    }

    /// Creates a new buffered reader with specified buffer size
    pub fn with_capacity(capacity: usize, inner: R) -> (b: Self)
        ensures
            b.inner_reader() == inner,
            b.pending() == Seq::<u8>::empty(),
            b.capacity() == capacity,
    {
        Self { inner, block: Block::with_capacity(capacity) }
    }

    /// Returns a reference to the underlying reader
    pub fn get_ref(&self) -> (r: &R)
        ensures
            *r == self.inner_reader(),
    {
        &self.inner
    }

    /// Returns a mutable reference to the underlying reader. What is
    /// buffered stays buffered.
    pub fn get_mut(&mut self) -> (r: &mut R)
        ensures
            *r == old(self).inner_reader(),
            final(self).inner_reader() == *final(r),
            final(self).pending() == old(self).pending(),
            final(self).capacity() == old(self).capacity(),
    {
        &mut self.inner
    }

    /// Consumes the buffered reader and returns the underlying reader
    pub fn into_inner(self) -> (r: R)
        ensures
            r == self.inner_reader(),
    {
        self.inner
    }

    /// Returns the number of bytes currently buffered
    pub fn buffer_len(&self) -> (n: usize)
        ensures
            n == self.pending().len(),
    {
        self.block.len()
    }

    /// Returns the size of the internal buffer
    pub fn buffer_size(&self) -> (n: usize)
        ensures
            n == self.capacity(),
    {
        self.block.size()
    }

    /// Fills the internal buffer by reading from the underlying reader.
    /// What was buffered before is dropped.
    fn fill_buffer(&mut self) -> (r: Result<(), Error>)
        ensures
            final(self).inner_reader().source() == old(self).inner_reader().source(),
            final(self).inner_reader().reliable() == old(self).inner_reader().reliable(),
            final(self).capacity() == old(self).capacity(),
            old(self).inner_reader().reliable() ==> r is Ok,
            r is Err ==> r->Err_0 is Io,
            r is Ok ==> {
                &&& final(self).pending() + final(self).inner_reader().remaining() == old(
                    self,
                ).inner_reader().remaining()
                &&& final(self).pending().len() == 0 ==> old(self).capacity() == 0 || old(
                    self,
                ).inner_reader().remaining().len() == 0
            },
    {
        self.block.fill(&mut self.inner)
    }

    /// Reads a chunk of specified size from the reader
    ///
    /// Returns a vector containing exactly `size` bytes, or an error
    /// if not enough data is available.
    pub fn read_chunk(&mut self, size: usize) -> (r: Result<Vec<u8>, Error>)
        ensures
            final(self).source() == old(self).source(),
            final(self).reliable() == old(self).reliable(),
            r is Err ==> r->Err_0 is Io,
            old(self).reliable() ==> (r is Ok <==> old(self).remaining().len() >= size),
            r matches Ok(chunk) ==> {
                &&& old(self).remaining().len() >= size
                &&& chunk@ == old(self).remaining().subrange(0, size as int)
                &&& final(self).remaining() == old(self).remaining().skip(size as int)
            },
    {
        let mut chunk = vec_of_zeros(size);
        match self.read_exact(chunk.as_mut_slice()) {
            Ok(()) => Ok(chunk),
            Err(e) => Err(e),
        }
    }
}

impl<R: SeekableReader> SeekableReader for BufferedReader<R> {
    open spec fn source(&self) -> Seq<u8> {
        self.inner_reader().source()
    }

    open spec fn remaining(&self) -> Seq<u8> {
        self.pending() + self.inner_reader().remaining()
    }

    open spec fn seek_origin(&self) -> nat {
        self.inner_reader().seek_origin()
    }

    open spec fn reliable(&self) -> bool {
        self.inner_reader().reliable()
    }

    proof fn lemma_source_fits(&self) {
        self.inner.lemma_source_fits();
    }

    fn read(&mut self, buf: &mut [u8]) -> (r: Result<usize, Error>)
        ensures
            final(self).capacity() == old(self).capacity(),
    {
        let ghost before = buf@;
        if self.block.len() == 0 {
            let ghost left = self.inner.remaining();
            assert(self.pending() =~= Seq::<u8>::empty());
            assert(self.pending() + left =~= left);
            if buf.len() >= self.block.size() {
                let r = self.inner.read(buf);
                proof {
                    assert(self.pending() + self.inner.remaining() =~= self.inner.remaining());
                }
                return r;
            }
            match self.fill_buffer() {
                Ok(()) => {},
                Err(e) => {
                    return Err(e);
                },
            }
            if self.block.len() == 0 {
                proof {
                    assert(self.pending() =~= Seq::<u8>::empty());
                    assert(self.remaining() =~= left.skip(0));
                    assert(buf@.subrange(0, 0) =~= left.subrange(0, 0));
                }
                return Ok(0);
            }
        }
        let ghost left = self.remaining();
        let ghost held = self.pending();
        let n = self.block.take(buf);
        proof {
            assert(buf@.subrange(0, n as int) =~= left.subrange(0, n as int));
            assert(self.remaining() =~= left.skip(n as int));
        }
        Ok(n)
    }

    fn seek(&mut self, pos: SeekFrom) -> (r: Result<u64, Error>)
        ensures
            final(self).capacity() == old(self).capacity(),
            final(self).pending() == Seq::<u8>::empty(),
    {
        self.block.clear();
        let r = self.inner.seek(pos);
        proof {
            assert(self.pending() + self.inner.remaining() =~= self.inner.remaining());
        }
        r
    }
}

} // verus!

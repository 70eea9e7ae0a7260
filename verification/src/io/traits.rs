//! The seekable byte source that the readers of this crate work on.

use vstd::prelude::*;
use crate::error::{unexpected_eof, Error};

verus! {

/// A position to seek to: an offset from the start, from the end, or from
/// where the source stands.
#[derive(Debug, Clone, Copy, PartialEq, Eq, Structural)]
pub enum SeekFrom {
    /// Offset from the start of the source.
    Start(u64),
    /// Offset from the end of the source.
    End(i64),
    /// Offset from the current position.
    Current(i64),
}

impl SeekFrom {
    /// The absolute offset that this request names, in a source of `len`
    /// bytes that stands at `origin`.
    pub open spec fn target(self, len: nat, origin: nat) -> int {
        match self {
            SeekFrom::Start(n) => n as int,
            SeekFrom::End(d) => len + d,
            SeekFrom::Current(d) => origin + d,
        }
    }

    /// What is left of `source` from offset `at` on: nothing when `at` lies
    /// behind the end.
    pub open spec fn tail(source: Seq<u8>, at: nat) -> Seq<u8> {
        if at <= source.len() {
            source.skip(at as int)
        } else {
            Seq::empty()
        }
    }

    /// Taking `k` bytes from what is left at offset `at` leaves what is left
    /// at offset `at + k`, and the bytes taken are those of the source.
    pub proof fn lemma_tail_step(source: Seq<u8>, at: nat, k: nat)
        requires
            at + k <= source.len(),
        ensures
            Self::tail(source, at).len() == source.len() - at,
            Self::tail(source, at).skip(k as int) == Self::tail(source, at + k),
            Self::tail(source, at).subrange(0, k as int) == source.subrange(
                at as int,
                (at + k) as int,
            ),
    {
        assert(Self::tail(source, at).skip(k as int) =~= Self::tail(source, at + k));
        assert(Self::tail(source, at).subrange(0, k as int) =~= source.subrange(
            at as int,
            (at + k) as int,
        ));
    }

    /// What one successful `read` does: it moves the first `n` bytes of what
    /// was left into the front of the buffer and leaves the rest of both
    /// alone. It moves nothing only if the buffer is empty or nothing was left.
    pub open spec fn moved(
        left_before: Seq<u8>,
        left_after: Seq<u8>,
        buf_before: Seq<u8>,
        buf_after: Seq<u8>,
        n: nat,
    ) -> bool {
        &&& n <= buf_before.len()
        &&& n <= left_before.len()
        &&& buf_after.len() == buf_before.len()
        &&& buf_after.subrange(0, n as int) == left_before.subrange(0, n as int)
        &&& buf_after.subrange(n as int, buf_after.len() as int) == buf_before.subrange(
            n as int,
            buf_before.len() as int,
        )
        &&& left_after == left_before.skip(n as int)
        &&& n == 0 ==> buf_before.len() == 0 || left_before.len() == 0
    }
}

/// A byte source that can be read in order and repositioned.
///
/// The model of a source is the byte string it holds (`source`) and the part
/// of it that reads have not yet handed out (`remaining`). A source is
/// `reliable` when it fails only for what is asked of it: an in-memory source
/// is, a file need not be.
pub trait SeekableReader {
    /// All bytes of the source.
    spec fn source(&self) -> Seq<u8>;

    /// The bytes that the next reads hand out, in order.
    spec fn remaining(&self) -> Seq<u8>;

    /// The offset that `SeekFrom::Current` counts from.
    spec fn seek_origin(&self) -> nat;

    /// Whether the source never fails on its own account.
    spec fn reliable(&self) -> bool;

    /// Offsets into a source fit the type that `seek` takes.
    proof fn lemma_source_fits(&self)
        ensures
            self.source().len() <= u64::MAX,
    ;

    /// Reads some bytes into the front of `buf` and returns how many.
    fn read(&mut self, buf: &mut [u8]) -> (r: Result<usize, Error>)
        ensures
            final(self).source() == old(self).source(),
            final(self).reliable() == old(self).reliable(),
            final(buf)@.len() == old(buf)@.len(),
            old(self).reliable() ==> r is Ok,
            r is Err ==> r->Err_0 is Io,
            r matches Ok(n) ==> SeekFrom::moved(
                old(self).remaining(),
                final(self).remaining(),
                old(buf)@,
                final(buf)@,
                n as nat,
            ),
    ;

    /// Moves to the position that `pos` names and returns it. A position
    /// before the start, or one that does not fit `u64`, is an error.
    fn seek(&mut self, pos: SeekFrom) -> (r: Result<u64, Error>)
        ensures
            final(self).source() == old(self).source(),
            final(self).reliable() == old(self).reliable(),
            r is Err ==> r->Err_0 is Io,
            !(0 <= pos.target(old(self).source().len(), old(self).seek_origin()) <= u64::MAX)
                ==> r is Err,
            old(self).reliable() && 0 <= pos.target(
                old(self).source().len(),
                old(self).seek_origin(),
            ) <= u64::MAX ==> r is Ok,
            r matches Ok(p) ==> {
                &&& p == pos.target(old(self).source().len(), old(self).seek_origin())
                &&& final(self).seek_origin() == p
                &&& final(self).remaining() == SeekFrom::tail(old(self).source(), p as nat)
            },
    ;

    /// Fills `buf` completely from the source, or fails: with an I/O error
    /// of kind `UnexpectedEof` when the source ends first.
    fn read_exact(&mut self, buf: &mut [u8]) -> (r: Result<(), Error>)
        ensures
            final(self).source() == old(self).source(),
            final(self).reliable() == old(self).reliable(),
            final(buf)@.len() == old(buf)@.len(),
            r is Err ==> r->Err_0 is Io,
            r is Ok ==> {
                &&& old(self).remaining().len() >= old(buf)@.len()
                &&& final(buf)@ == old(self).remaining().subrange(0, old(buf)@.len() as int)
                &&& final(self).remaining() == old(self).remaining().skip(old(buf)@.len() as int)
            },
            old(self).reliable() ==> (r is Ok <==> old(self).remaining().len() >= old(buf)@.len()),
    {
        let total: usize = buf.len();
        let mut filled: usize = 0;
        while filled < total
            invariant
                filled <= total,
                total == buf@.len(),
                total == old(buf)@.len(),
                self.source() == old(self).source(),
                self.reliable() == old(self).reliable(),
                filled <= old(self).remaining().len(),
                buf@.subrange(0, filled as int) == old(self).remaining().subrange(0, filled as int),
                self.remaining() == old(self).remaining().skip(filled as int),
            decreases total - filled,
        {
            let mut chunk: Vec<u8> = vec_of_zeros(total - filled);
            let n = match self.read(chunk.as_mut_slice()) {
                Ok(n) => n,
                Err(e) => {
                    return Err(e);
                },
            };
            if n == 0 {
                return Err(Error::Io(unexpected_eof()));
            }
            let ghost before = buf@;
            let ghost left = old(self).remaining().skip(filled as int);
            let mut i: usize = 0;
            while i < n
                invariant
                    i <= n,
                    filled + n <= total,
                    total == buf@.len(),
                    n <= chunk@.len(),
                    buf@.subrange(0, filled as int) == before.subrange(0, filled as int),
                    forall|j: int| 0 <= j < i ==> buf@[filled + j] == chunk@[j],
                decreases n - i,
            {
                buf[filled + i] = chunk[i];
                i = i + 1;
            }
            proof {
                let all = old(self).remaining();
                assert forall|j: int| 0 <= j < filled + n implies buf@[j] == all[j] by {
                    if j < filled {
                        assert(buf@.subrange(0, filled as int)[j] == before.subrange(
                            0,
                            filled as int,
                        )[j]);
                        assert(before.subrange(0, filled as int)[j] == all.subrange(
                            0,
                            filled as int,
                        )[j]);
                    } else {
                        assert(chunk@.subrange(0, n as int)[j - filled] == left.subrange(
                            0,
                            n as int,
                        )[j - filled]);
                    }
                }
                assert(buf@.subrange(0, filled + n) =~= all.subrange(0, filled + n));
                assert(left.skip(n as int) =~= all.skip(filled + n));
            }
            filled = filled + n;
        }
        proof {
            assert(buf@ =~= buf@.subrange(0, total as int));
        }
        Ok(())
    }
}

/// A buffer of `n` zero bytes.
pub fn vec_of_zeros(n: usize) -> (v: Vec<u8>)
    ensures
        v@.len() == n,
        forall|i: int| 0 <= i < n ==> v@[i] == 0u8,
{
    let mut v: Vec<u8> = Vec::new();
    let mut i: usize = 0;
    while i < n
        invariant
            i <= n,
            v@.len() == i,
            forall|j: int| 0 <= j < i ==> v@[j] == 0u8,
        decreases n - i,
    {
        v.push(0u8);
        i = i + 1;
    }
    v
}

} // verus!

//! PackBits decompression
//!
//! PackBits is a simple run-length encoding scheme used in TIFF files. A
//! packed stream is a sequence of packets, each led by a header byte `h`
//! read as a signed number:
//! - `0..=127`: the next `h + 1` bytes are literal;
//! - `-127..=-1`: the next byte is repeated `1 - h` times;
//! - `-128`: no operation.

use vstd::prelude::*;
use crate::error::Error;

verus! {

/// `prefix` followed by `rest`, where there is a rest.
pub open spec fn joined(prefix: Seq<u8>, rest: Option<Seq<u8>>) -> Option<Seq<u8>> {
    match rest {
        Some(r) => Some(prefix + r),
        None => None,
    }
}

/// What a packed stream stands for: `None` where a packet is cut short.
pub open spec fn unpacked(data: Seq<u8>) -> Option<Seq<u8>>
    decreases data.len(),
{
    if data.len() == 0 {
        Some(Seq::empty())
    } else {
        let h = data[0];
        if h == 128 {
            unpacked(data.skip(1))
        } else if h < 128 {
            if data.len() < h + 2 {
                None
            } else {
                joined(data.subrange(1, h + 2), unpacked(data.skip(h + 2)))
            }
        } else {
            if data.len() < 2 {
                None
            } else {
                joined(Seq::new((257 - h) as nat, |i: int| data[1]), unpacked(data.skip(2)))
            }
        }
    }
}

/// One packet of a packed stream.
pub enum Packet {
    /// Bytes stored as they are.
    Literal(Seq<u8>),
    /// One byte and how often it is repeated.
    Run(u8, nat),
    /// The header byte that stands for nothing.
    Noop,
}

impl Packet {
    /// A packet that one header byte can announce.
    pub open spec fn valid(self) -> bool {
        match self {
            Packet::Literal(bytes) => 1 <= bytes.len() <= 128,
            Packet::Run(_, count) => 2 <= count <= 128,
            Packet::Noop => true,
        }
    }

    /// The bytes that encode this packet.
    pub open spec fn packed(self) -> Seq<u8> {
        match self {
            Packet::Literal(bytes) => seq![(bytes.len() - 1) as u8] + bytes,
            Packet::Run(byte, count) => seq![(257 - count) as u8, byte],
            Packet::Noop => seq![128u8],
        }
    }

    /// The bytes that this packet stands for.
    pub open spec fn plain(self) -> Seq<u8> {
        match self {
            Packet::Literal(bytes) => bytes,
            Packet::Run(byte, count) => Seq::new(count, |i: int| byte),
            Packet::Noop => Seq::empty(),
        }
    }

    /// The encoding of a sequence of packets.
    pub open spec fn packed_all(packets: Seq<Packet>) -> Seq<u8>
        decreases packets.len(),
    {
        if packets.len() == 0 {
            Seq::empty()
        } else {
            packets[0].packed() + Self::packed_all(packets.skip(1))
        }
    }

    /// The bytes that a sequence of packets stands for.
    pub open spec fn plain_all(packets: Seq<Packet>) -> Seq<u8>
        decreases packets.len(),
    {
        if packets.len() == 0 {
            Seq::empty()
        } else {
            packets[0].plain() + Self::plain_all(packets.skip(1))
        }
    }

    /// A byte string cut into literal packets of at most 128 bytes.
    pub open spec fn literal_packets(bytes: Seq<u8>) -> Seq<Packet>
        decreases bytes.len(),
    {
        if bytes.len() == 0 {
            Seq::empty()
        } else {
            let n = if bytes.len() < 128 {
                bytes.len() as int
            } else {
                128
            };
            seq![Packet::Literal(bytes.subrange(0, n))] + Self::literal_packets(bytes.skip(n))
        }
    }

    /// Unpacking one packet followed by more data gives the packet's bytes
    /// followed by what the rest unpacks to.
    pub proof fn lemma_unpack_first(self, rest: Seq<u8>)
        requires
            self.valid(),
        ensures
            unpacked(self.packed() + rest) == joined(self.plain(), unpacked(rest)),
    {
        let data = self.packed() + rest;
        match self {
            Packet::Literal(bytes) => {
                assert(data[0] == (bytes.len() - 1) as u8);
                assert(data.subrange(1, bytes.len() as int + 1) =~= bytes);
                assert(data.skip(bytes.len() as int + 1) =~= rest);
            },
            Packet::Run(byte, count) => {
                assert(data[0] == (257 - count) as u8);
                assert(data[1] == byte);
                assert(data.skip(2) =~= rest);
                assert(Seq::new((257 - data[0]) as nat, |i: int| data[1]) =~= self.plain());
            },
            Packet::Noop => {
                assert(data.skip(1) =~= rest);
                match unpacked(rest) {
                    Some(r) => {
                        assert(self.plain() + r =~= r);
                    },
                    None => {},
                }
            },
        }
    }

    /// Decoding the encoding of any sequence of valid packets gives the
    /// bytes that the packets stand for.
    pub proof fn lemma_unpack_packets(packets: Seq<Packet>)
        requires
            forall|i: int| 0 <= i < packets.len() ==> (#[trigger] packets[i]).valid(),
        ensures
            unpacked(Self::packed_all(packets)) == Some(Self::plain_all(packets)),
        decreases packets.len(),
    {
        if packets.len() > 0 {
            let tail = packets.skip(1);
            assert forall|i: int| 0 <= i < tail.len() implies (#[trigger] tail[i]).valid() by {
                assert(tail[i] == packets[i + 1]);
            }
            Self::lemma_unpack_packets(tail);
            packets[0].lemma_unpack_first(Self::packed_all(tail));
        }
    }

    /// The literal packets of a byte string are valid and stand for it.
    pub proof fn lemma_literal_packets(bytes: Seq<u8>)
        ensures
            forall|i: int|
                0 <= i < Self::literal_packets(bytes).len() ==> (#[trigger] Self::literal_packets(
                    bytes,
                )[i]).valid(),
            Self::plain_all(Self::literal_packets(bytes)) == bytes,
        decreases bytes.len(),
    {
        if bytes.len() == 0 {
            assert(Self::plain_all(Self::literal_packets(bytes)) =~= bytes);
        } else {
            let n = if bytes.len() < 128 {
                bytes.len() as int
            } else {
                128
            };
            let head = Packet::Literal(bytes.subrange(0, n));
            let tail = Self::literal_packets(bytes.skip(n));
            let all = Self::literal_packets(bytes);
            Self::lemma_literal_packets(bytes.skip(n));
            assert(all == seq![head] + tail);
            assert(all.skip(1) =~= tail);
            assert(all[0] == head);
            assert forall|i: int| 0 <= i < all.len() implies (#[trigger] all[i]).valid() by {
                if i > 0 {
                    assert(all[i] == tail[i - 1]);
                }
            }
            assert(bytes.subrange(0, n) + bytes.skip(n) =~= bytes);
        }
    }

    /// Encoding a byte string and decoding the result gives the byte string
    /// back.
    pub proof fn lemma_round_trip(bytes: Seq<u8>)
        ensures
            unpacked(Self::packed_all(Self::literal_packets(bytes))) == Some(bytes),
    {
        Self::lemma_literal_packets(bytes);
        Self::lemma_unpack_packets(Self::literal_packets(bytes));
    }
}

/// Appends `data[from..to]` to `output`.
fn append_range(output: &mut Vec<u8>, data: &[u8], from: usize, to: usize)
    requires
        from <= to <= data@.len(),
    ensures
        final(output)@ == old(output)@ + data@.subrange(from as int, to as int),
{
    let mut i: usize = from;
    while i < to
        invariant
            from <= i <= to,
            to <= data@.len(),
            output@ == old(output)@ + data@.subrange(from as int, i as int),
        decreases to - i,
    {
        output.push(data[i]);
        i = i + 1;
        assert(output@ =~= old(output)@ + data@.subrange(from as int, i as int));
    }
}

/// Appends `count` copies of `byte` to `output`.
fn append_run(output: &mut Vec<u8>, byte: u8, count: usize)
    ensures
        final(output)@ == old(output)@ + Seq::new(count as nat, |i: int| byte),
{
    let mut i: usize = 0;
    assert(output@ =~= old(output)@ + Seq::new(0, |i: int| byte));
    while i < count
        invariant
            i <= count,
            output@ == old(output)@ + Seq::new(i as nat, |i: int| byte),
        decreases count - i,
    {
        output.push(byte);
        i = i + 1;
        assert(output@ =~= old(output)@ + Seq::new(i as nat, |i: int| byte));
    }
}

/// Decompresses PackBits compressed data. A stream whose last packet is cut
/// short is rejected as `InvalidFormat`.
pub fn decompress(data: &[u8]) -> (r: Result<Vec<u8>, Error>)
    ensures
        r matches Ok(output) ==> unpacked(data@) == Some(output@),
        r matches Err(e) ==> unpacked(data@) is None && e is InvalidFormat,
{
    let mut output: Vec<u8> = Vec::new();
    let mut pos: usize = 0;
    assert(data@.skip(0) =~= data@);
    assert(joined(output@, unpacked(data@)) == unpacked(data@)) by {
        match unpacked(data@) {
            Some(r) => {
                assert(output@ + r =~= r);
            },
            None => {},
        }
    }
    while pos < data.len()
        invariant
            pos <= data@.len(),
            unpacked(data@) == joined(output@, unpacked(data@.skip(pos as int))),
        decreases data@.len() - pos,
    {
        let ghost left = data@.skip(pos as int);
        let ghost before = output@;
        let header: u8 = data[pos];
        assert(left[0] == header);
        pos = pos + 1;
        if header == 128 {
            assert(left.skip(1) =~= data@.skip(pos as int));
        } else if header < 128 {
            let count: usize = header as usize + 1;
            if count > data.len() - pos {
                return Err(Error::InvalidFormat("PackBits: Insufficient literal bytes".to_string()));
            }
            append_range(&mut output, data, pos, pos + count);
            proof {
                assert(left.subrange(1, header + 2) =~= data@.subrange(
                    pos as int,
                    pos + count,
                ));
                assert(left.skip(header + 2) =~= data@.skip(pos + count));
                match unpacked(left.skip(header + 2)) {
                    Some(r) => {
                        assert(before + (left.subrange(1, header + 2) + r) =~= output@ + r);
                    },
                    None => {},
                }
            }
            pos = pos + count;
        } else {
            if pos >= data.len() {
                return Err(Error::InvalidFormat("PackBits: Missing run byte".to_string()));
            }
            let count: usize = 257 - header as usize;
            let byte: u8 = data[pos];
            assert(left[1] == byte);
            pos = pos + 1;
            append_run(&mut output, byte, count);
            proof {
                assert(left.skip(2) =~= data@.skip(pos as int));
                let run = Seq::new((257 - header) as nat, |i: int| left[1]);
                assert(run =~= Seq::new(count as nat, |i: int| byte));
                match unpacked(left.skip(2)) {
                    Some(r) => {
                        assert(before + (run + r) =~= output@ + r);
                    },
                    None => {},
                }
            }
        }
    }
    proof {
        assert(data@.skip(pos as int).len() == 0);
        assert(output@ + Seq::<u8>::empty() =~= output@);
    }
    Ok(output)
}

} // verus!

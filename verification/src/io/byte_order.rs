//! Byte order (endianness) handling.
//!
//! A multi-byte value is read as the number that its bytes spell, least
//! significant byte first (little-endian) or most significant byte first
//! (big-endian).

use vstd::prelude::*;
use vstd::arithmetic::div_mod::{lemma_fundamental_div_mod, lemma_mod_breakdown, lemma_small_mod};
use vstd::arithmetic::mul::lemma_mul_is_commutative;
use crate::error::Error;
use crate::io::traits::{vec_of_zeros, SeekableReader};

verus! {

/// Represents the byte order (endianness) of binary data
#[derive(Debug, Clone, Copy, PartialEq, Eq, Structural)]
pub enum ByteOrder {
    /// Little-endian byte order (least significant byte first)
    LittleEndian,
    /// Big-endian byte order (most significant byte first)
    BigEndian,
}

impl ByteOrder {
    /// `256^k`: the weight of the byte at place `k`.
    pub open spec fn weight(k: nat) -> nat
        decreases k,
    {
        if k == 0 {
            1
        } else {
            256 * Self::weight((k - 1) as nat)
        }
    }

    /// The number that the first `n` bytes spell, least significant first.
    pub open spec fn le_value(bytes: Seq<u8>, n: nat) -> nat
        decreases n,
    {
        if n == 0 {
            0
        } else {
            Self::le_value(bytes, (n - 1) as nat) + bytes[n - 1] as nat * Self::weight(
                (n - 1) as nat,
            )
        }
    }

    /// The number that the first `n` bytes spell, most significant first.
    pub open spec fn be_value(bytes: Seq<u8>, n: nat) -> nat
        decreases n,
    {
        if n == 0 {
            0
        } else {
            Self::be_value(bytes, (n - 1) as nat) * 256 + bytes[n - 1] as nat
        }
    }

    /// The number that `bytes` spell in this order.
    pub open spec fn value(self, bytes: Seq<u8>) -> nat {
        match self {
            ByteOrder::LittleEndian => Self::le_value(bytes, bytes.len()),
            ByteOrder::BigEndian => Self::be_value(bytes, bytes.len()),
        }
    }

    /// The `n` bytes that spell `x` in this order (`x` modulo `256^n`).
    pub open spec fn bytes_of(self, x: nat, n: nat) -> Seq<u8> {
        match self {
            ByteOrder::LittleEndian => Seq::new(n, |i: int| ((x / Self::weight(i as nat)) % 256) as u8),
            ByteOrder::BigEndian => Seq::new(
                n,
                |i: int| ((x / Self::weight((n - 1 - i) as nat)) % 256) as u8,
            ),
        }
    }

    /// The unsigned value whose `width` bytes are the two's-complement form
    /// of `v`.
    pub open spec fn pattern(v: int, width: nat) -> nat {
        if v < 0 {
            (v + Self::weight(width)) as nat
        } else {
            v as nat
        }
    }

    /// The byte order that the two magic bytes of a TIFF file name.
    pub open spec fn spec_from_tiff_magic(b0: u8, b1: u8) -> Option<ByteOrder> {
        if b0 == 0x49 && b1 == 0x49 {
            Some(ByteOrder::LittleEndian)
        } else if b0 == 0x4D && b1 == 0x4D {
            Some(ByteOrder::BigEndian)
        } else {
            None
        }
    }

    /// What a successful read of a `width`-byte value does to a reader: the
    /// value is what the next `width` bytes spell, and they are consumed.
    pub open spec fn fetched(
        self,
        width: nat,
        left_before: Seq<u8>,
        left_after: Seq<u8>,
        value: nat,
    ) -> bool {
        &&& left_before.len() >= width
        &&& value == self.value(left_before.subrange(0, width as int))
        &&& left_after == left_before.skip(width as int)
    }

    /// The weights of the places of a 64-bit value.
    pub proof fn lemma_weights()
        ensures
            Self::weight(0) == 1,
            Self::weight(1) == 0x100,
            Self::weight(2) == 0x1_0000,
            Self::weight(3) == 0x100_0000,
            Self::weight(4) == 0x1_0000_0000,
            Self::weight(5) == 0x100_0000_0000,
            Self::weight(6) == 0x1_0000_0000_0000,
            Self::weight(7) == 0x100_0000_0000_0000,
            Self::weight(8) == 0x1_0000_0000_0000_0000,
    {
        reveal_with_fuel(ByteOrder::weight, 10);
    }

    /// A value of `n` bytes is below `256^n`, in either order.
    pub proof fn lemma_value_bound(bytes: Seq<u8>, n: nat)
        requires
            n <= bytes.len(),
        ensures
            Self::le_value(bytes, n) < Self::weight(n),
            Self::be_value(bytes, n) < Self::weight(n),
        decreases n,
    {
        if n > 0 {
            Self::lemma_value_bound(bytes, (n - 1) as nat);
            let w = Self::weight((n - 1) as nat);
            let b = bytes[n - 1] as nat;
            assert(b * w <= 255 * w) by (nonlinear_arith)
                requires
                    b <= 255,
            ;
        }
    }

    /// The value of the first `n` bytes depends on those bytes only.
    pub proof fn lemma_value_prefix(a: Seq<u8>, b: Seq<u8>, n: nat)
        requires
            n <= a.len(),
            n <= b.len(),
            forall|i: int| 0 <= i < n ==> a[i] == b[i],
        ensures
            Self::le_value(a, n) == Self::le_value(b, n),
            Self::be_value(a, n) == Self::be_value(b, n),
        decreases n,
    {
        if n > 0 {
            Self::lemma_value_prefix(a, b, (n - 1) as nat);
        }
    }

    proof fn lemma_le_round_trip(x: nat, n: nat, k: nat)
        requires
            k <= n,
        ensures
            Self::le_value(ByteOrder::LittleEndian.bytes_of(x, n), k) == x % Self::weight(k),
        decreases k,
    {
        let bytes = ByteOrder::LittleEndian.bytes_of(x, n);
        if k == 0 {
            assert(Self::weight(0) == 1);
        } else {
            let j = (k - 1) as nat;
            Self::lemma_le_round_trip(x, n, j);
            let w = Self::weight(j);
            Self::lemma_weight_positive(j);
            assert(bytes[j as int] == ((x / w) % 256) as u8);
            lemma_mod_breakdown(x as int, w as int, 256);
            lemma_mul_is_commutative(w as int, 256);
            assert(Self::weight(k) == 256 * w);
        }
    }

    proof fn lemma_be_round_trip(x: nat, n: nat, k: nat)
        requires
            k <= n,
        ensures
            Self::be_value(ByteOrder::BigEndian.bytes_of(x, n), k) == (x / Self::weight(
                (n - k) as nat,
            )) % Self::weight(k),
        decreases k,
    {
        let bytes = ByteOrder::BigEndian.bytes_of(x, n);
        if k == 0 {
            assert(Self::weight(0) == 1);
        } else {
            let j = (k - 1) as nat;
            Self::lemma_be_round_trip(x, n, j);
            // y = x / 256^(n-k); the first j bytes spell (y / 256) % 256^j, the next is y % 256
            let lo = Self::weight((n - k) as nat);
            let hi = Self::weight((n - j) as nat);
            let wj = Self::weight(j);
            Self::lemma_weight_positive((n - k) as nat);
            Self::lemma_weight_positive(j);
            assert(hi == 256 * lo);
            let y = x / lo;
            assert(x / hi == y / 256) by {
                vstd::arithmetic::div_mod::lemma_div_denominator(x as int, lo as int, 256);
                lemma_mul_is_commutative(lo as int, 256);
            }
            assert(bytes[j as int] == ((x / lo) % 256) as u8);
            // (y / 256 % wj) * 256 + y % 256 == y % (256 * wj)
            lemma_mod_breakdown(y as int, 256, wj as int);
            lemma_mul_is_commutative(wj as int, 256);
            assert(Self::weight(k) == 256 * wj);
        }
    }

    /// The weight of every place is positive.
    pub proof fn lemma_weight_positive(k: nat)
        ensures
            Self::weight(k) > 0,
        decreases k,
    {
        if k > 0 {
            Self::lemma_weight_positive((k - 1) as nat);
        }
    }

    /// Writing a value in either byte order and reading it back in the same
    /// order gives the value again, for every width that holds it.
    pub proof fn lemma_round_trip(self, x: nat, n: nat)
        requires
            x < Self::weight(n),
        ensures
            self.bytes_of(x, n).len() == n,
            self.value(self.bytes_of(x, n)) == x,
    {
        Self::lemma_weight_positive(n);
        lemma_small_mod(x, Self::weight(n));
        assert(Self::weight(0) == 1);
        let bytes = self.bytes_of(x, n);
        assert(bytes.len() == n);
        if self == ByteOrder::LittleEndian {
            Self::lemma_le_round_trip(x, n, n);
            assert(self.value(bytes) == Self::le_value(bytes, n));
        } else {
            Self::lemma_be_round_trip(x, n, n);
            assert(self.value(bytes) == Self::be_value(bytes, n));
            assert(x / 1 == x);
        }
    }

    /// Detects byte order from TIFF magic bytes
    ///
    /// TIFF files start with either "II" (0x4949) for little-endian
    /// or "MM" (0x4D4D) for big-endian.
    pub fn from_tiff_magic(magic: [u8; 2]) -> (r: Option<Self>)
        ensures
            r == Self::spec_from_tiff_magic(magic@[0], magic@[1]),
    {
        if magic[0] == 0x49 && magic[1] == 0x49 {
            Some(ByteOrder::LittleEndian)
        } else if magic[0] == 0x4D && magic[1] == 0x4D {
            Some(ByteOrder::BigEndian)
        } else {
            None
        }
    }

    /// Reads the two magic bytes from a reader and identifies the byte order.
    /// Two bytes that name no byte order are reported as `InvalidByteOrder`
    /// with the word they spell, first byte high.
    pub fn detect<R: SeekableReader>(reader: &mut R) -> (r: Result<Self, Error>)
        ensures
            final(reader).source() == old(reader).source(),
            final(reader).reliable() == old(reader).reliable(),
            r matches Ok(order) ==> {
                &&& old(reader).remaining().len() >= 2
                &&& Self::spec_from_tiff_magic(
                    old(reader).remaining()[0],
                    old(reader).remaining()[1],
                ) == Some(order)
                &&& final(reader).remaining() == old(reader).remaining().skip(2)
            },
            r matches Err(e) ==> e is Io || {
                &&& old(reader).remaining().len() >= 2
                &&& Self::spec_from_tiff_magic(
                    old(reader).remaining()[0],
                    old(reader).remaining()[1],
                ) is None
                &&& e == Error::InvalidByteOrder(
                    (old(reader).remaining()[0] as u16 * 256 + old(reader).remaining()[1]) as u16,
                )
            },
            old(reader).reliable() ==> (r matches Err(Error::Io(_)) <==> old(
                reader,
            ).remaining().len() < 2),
    {
        let mut magic: Vec<u8> = vec_of_zeros(2);
        match reader.read_exact(magic.as_mut_slice()) {
            Ok(()) => {},
            Err(e) => {
                return Err(e);
            },
        }
        match Self::from_tiff_magic([magic[0], magic[1]]) {
            Some(order) => Ok(order),
            None => Err(Error::InvalidByteOrder(magic[0] as u16 * 256 + magic[1] as u16)),
        }
    }

    /// Creates a handler for this byte order
    pub fn handler(&self) -> (h: OrderHandler)
        ensures
            h.order() == *self,
    {
        match self {
            ByteOrder::LittleEndian => OrderHandler::Little(LittleEndian),
            ByteOrder::BigEndian => OrderHandler::Big(BigEndian),
        }
    }

    /// The number that `bytes` (at most eight) spell in this order.
    pub fn decode(&self, bytes: &[u8]) -> (v: u64)
        requires
            bytes@.len() <= 8,
        ensures
            v == self.value(bytes@),
    {
        let n: usize = bytes.len();
        let mut acc: u64 = 0;
        let mut i: usize = 0;
        proof {
            Self::lemma_weights();
        }
        match self {
            ByteOrder::LittleEndian => {
                let mut w: u64 = 1;
                while i < n
                    invariant
                        i <= n,
                        n == bytes@.len(),
                        n <= 8,
                        acc == Self::le_value(bytes@, i as nat),
                        acc < Self::weight(i as nat),
                        i < n ==> w == Self::weight(i as nat),
                    decreases n - i,
                {
                    let b: u64 = bytes[i] as u64;
                    proof {
                        Self::lemma_weights();
                        Self::lemma_weight_monotone(i as nat, 7);
                        assert(b * w <= 255 * w) by (nonlinear_arith)
                            requires
                                b <= 255,
                        ;
                    }
                    acc = acc + b * w;
                    i = i + 1;
                    if i < n {
                        w = w * 256;
                    }
                }
            },
            ByteOrder::BigEndian => {
                while i < n
                    invariant
                        i <= n,
                        n == bytes@.len(),
                        n <= 8,
                        acc == Self::be_value(bytes@, i as nat),
                        acc < Self::weight(i as nat),
                    decreases n - i,
                {
                    proof {
                        Self::lemma_weights();
                        assert(Self::weight(i as nat) <= 0x100_0000_0000_0000) by {
                            Self::lemma_weight_monotone(i as nat, 7);
                        }
                    }
                    acc = acc * 256 + bytes[i] as u64;
                    i = i + 1;
                }
            },
        }
        acc
    }

    /// `256^(a + b) = 256^a * 256^b`.
    pub proof fn lemma_weight_sum(a: nat, b: nat)
        ensures
            Self::weight(a + b) == Self::weight(a) * Self::weight(b),
        decreases b,
    {
        if b == 0 {
            assert(Self::weight(0) == 1);
            assert(Self::weight(a) * 1 == Self::weight(a)) by (nonlinear_arith);
        } else {
            Self::lemma_weight_sum(a, (b - 1) as nat);
            let wa = Self::weight(a);
            let wb = Self::weight((b - 1) as nat);
            assert(256 * (wa * wb) == wa * (256 * wb)) by (nonlinear_arith);
            assert(Self::weight(a + b) == 256 * Self::weight((a + b - 1) as nat));
        }
    }

    /// The bytes that spell `x` least significant first spell `x` modulo
    /// `256^n`.
    pub proof fn lemma_le_value_of_bytes(x: nat, n: nat)
        ensures
            Self::le_value(ByteOrder::LittleEndian.bytes_of(x, n), n) == x % Self::weight(n),
            ByteOrder::LittleEndian.value(ByteOrder::LittleEndian.bytes_of(x, n)) == x
                % Self::weight(n),
    {
        Self::lemma_le_round_trip(x, n, n);
        assert(ByteOrder::LittleEndian.bytes_of(x, n).len() == n);
    }

    /// A higher place has at least the weight of a lower one.
    pub proof fn lemma_weight_monotone(a: nat, b: nat)
        requires
            a <= b,
        ensures
            Self::weight(a) <= Self::weight(b),
        decreases b,
    {
        if a < b {
            Self::lemma_weight_monotone(a, (b - 1) as nat);
        }
    }
}

/// Reads typed values in one byte order.
pub trait ByteOrderHandler {
    /// The byte order that this handler reads in.
    spec fn order(&self) -> ByteOrder;

    /// Reads an unsigned 16-bit integer
    fn read_u16<R: SeekableReader + ?Sized>(&self, reader: &mut R) -> (r: Result<u16, Error>)
        ensures
            final(reader).source() == old(reader).source(),
            final(reader).reliable() == old(reader).reliable(),
            r is Err ==> r->Err_0 is Io,
            old(reader).reliable() ==> (r is Ok <==> old(reader).remaining().len() >= 2),
            r matches Ok(v) ==> self.order().fetched(
                2,
                old(reader).remaining(),
                final(reader).remaining(),
                v as nat,
            ),
    ;

    /// Reads an unsigned 32-bit integer
    fn read_u32<R: SeekableReader + ?Sized>(&self, reader: &mut R) -> (r: Result<u32, Error>)
        ensures
            final(reader).source() == old(reader).source(),
            final(reader).reliable() == old(reader).reliable(),
            r is Err ==> r->Err_0 is Io,
            old(reader).reliable() ==> (r is Ok <==> old(reader).remaining().len() >= 4),
            r matches Ok(v) ==> self.order().fetched(
                4,
                old(reader).remaining(),
                final(reader).remaining(),
                v as nat,
            ),
    ;

    /// Reads an unsigned 64-bit integer
    fn read_u64<R: SeekableReader + ?Sized>(&self, reader: &mut R) -> (r: Result<u64, Error>)
        ensures
            final(reader).source() == old(reader).source(),
            final(reader).reliable() == old(reader).reliable(),
            r is Err ==> r->Err_0 is Io,
            old(reader).reliable() ==> (r is Ok <==> old(reader).remaining().len() >= 8),
            r matches Ok(v) ==> self.order().fetched(
                8,
                old(reader).remaining(),
                final(reader).remaining(),
                v as nat,
            ),
    ;

    /// Reads a signed 16-bit integer
    fn read_i16<R: SeekableReader + ?Sized>(&self, reader: &mut R) -> (r: Result<i16, Error>)
        ensures
            final(reader).source() == old(reader).source(),
            final(reader).reliable() == old(reader).reliable(),
            r is Err ==> r->Err_0 is Io,
            old(reader).reliable() ==> (r is Ok <==> old(reader).remaining().len() >= 2),
            r matches Ok(v) ==> self.order().fetched(
                2,
                old(reader).remaining(),
                final(reader).remaining(),
                ByteOrder::pattern(v as int, 2),
            ),
    ;

    /// Reads a signed 32-bit integer
    fn read_i32<R: SeekableReader + ?Sized>(&self, reader: &mut R) -> (r: Result<i32, Error>)
        ensures
            final(reader).source() == old(reader).source(),
            final(reader).reliable() == old(reader).reliable(),
            r is Err ==> r->Err_0 is Io,
            old(reader).reliable() ==> (r is Ok <==> old(reader).remaining().len() >= 4),
            r matches Ok(v) ==> self.order().fetched(
                4,
                old(reader).remaining(),
                final(reader).remaining(),
                ByteOrder::pattern(v as int, 4),
            ),
    ;

    /// Reads a signed 64-bit integer
    fn read_i64<R: SeekableReader + ?Sized>(&self, reader: &mut R) -> (r: Result<i64, Error>)
        ensures
            final(reader).source() == old(reader).source(),
            final(reader).reliable() == old(reader).reliable(),
            r is Err ==> r->Err_0 is Io,
            old(reader).reliable() ==> (r is Ok <==> old(reader).remaining().len() >= 8),
            r matches Ok(v) ==> self.order().fetched(
                8,
                old(reader).remaining(),
                final(reader).remaining(),
                ByteOrder::pattern(v as int, 8),
            ),
    ;
}

/// Reads the next `width` bytes of `reader` as one unsigned value.
pub fn read_value<R: SeekableReader + ?Sized>(order: ByteOrder, reader: &mut R, width: usize) -> (r:
    Result<u64, Error>)
    requires
        width <= 8,
    ensures
        final(reader).source() == old(reader).source(),
        final(reader).reliable() == old(reader).reliable(),
        r is Err ==> r->Err_0 is Io,
        old(reader).reliable() ==> (r is Ok <==> old(reader).remaining().len() >= width),
        r matches Ok(v) ==> v < ByteOrder::weight(width as nat) && order.fetched(
            width as nat,
            old(reader).remaining(),
            final(reader).remaining(),
            v as nat,
        ),
{
    let mut buf: Vec<u8> = vec_of_zeros(width);
    match reader.read_exact(buf.as_mut_slice()) {
        Ok(()) => {},
        Err(e) => {
            return Err(e);
        },
    }
    let v = order.decode(buf.as_slice());
    proof {
        ByteOrder::lemma_value_bound(buf@, width as nat);
    }
    Ok(v)
}

/// The little-endian handler.
pub struct LittleEndian;

/// The big-endian handler.
pub struct BigEndian;

impl ByteOrderHandler for LittleEndian {
    open spec fn order(&self) -> ByteOrder {
        ByteOrder::LittleEndian
    }

    fn read_u16<R: SeekableReader + ?Sized>(&self, reader: &mut R) -> (r: Result<u16, Error>) {
        proof {
            ByteOrder::lemma_weights();
        }
        match read_value(ByteOrder::LittleEndian, reader, 2) {
            Ok(v) => Ok(v as u16),
            Err(e) => Err(e),
        }
    }

    fn read_u32<R: SeekableReader + ?Sized>(&self, reader: &mut R) -> (r: Result<u32, Error>) {
        proof {
            ByteOrder::lemma_weights();
        }
        match read_value(ByteOrder::LittleEndian, reader, 4) {
            Ok(v) => Ok(v as u32),
            Err(e) => Err(e),
        }
    }

    fn read_u64<R: SeekableReader + ?Sized>(&self, reader: &mut R) -> (r: Result<u64, Error>) {
        read_value(ByteOrder::LittleEndian, reader, 8)
    }

    fn read_i16<R: SeekableReader + ?Sized>(&self, reader: &mut R) -> (r: Result<i16, Error>) {
        match read_value(ByteOrder::LittleEndian, reader, 2) {
            Ok(v) => Ok(to_i16(v)),
            Err(e) => Err(e),
        }
    }

    fn read_i32<R: SeekableReader + ?Sized>(&self, reader: &mut R) -> (r: Result<i32, Error>) {
        match read_value(ByteOrder::LittleEndian, reader, 4) {
            Ok(v) => Ok(to_i32(v)),
            Err(e) => Err(e),
        }
    }

    fn read_i64<R: SeekableReader + ?Sized>(&self, reader: &mut R) -> (r: Result<i64, Error>) {
        match read_value(ByteOrder::LittleEndian, reader, 8) {
            Ok(v) => Ok(to_i64(v)),
            Err(e) => Err(e),
        }
    }
}

impl ByteOrderHandler for BigEndian {
    open spec fn order(&self) -> ByteOrder {
        ByteOrder::BigEndian
    }

    fn read_u16<R: SeekableReader + ?Sized>(&self, reader: &mut R) -> (r: Result<u16, Error>) {
        proof {
            ByteOrder::lemma_weights();
        }
        match read_value(ByteOrder::BigEndian, reader, 2) {
            Ok(v) => Ok(v as u16),
            Err(e) => Err(e),
        }
    }

    fn read_u32<R: SeekableReader + ?Sized>(&self, reader: &mut R) -> (r: Result<u32, Error>) {
        proof {
            ByteOrder::lemma_weights();
        }
        match read_value(ByteOrder::BigEndian, reader, 4) {
            Ok(v) => Ok(v as u32),
            Err(e) => Err(e),
        }
    }

    fn read_u64<R: SeekableReader + ?Sized>(&self, reader: &mut R) -> (r: Result<u64, Error>) {
        read_value(ByteOrder::BigEndian, reader, 8)
    }

    fn read_i16<R: SeekableReader + ?Sized>(&self, reader: &mut R) -> (r: Result<i16, Error>) {
        match read_value(ByteOrder::BigEndian, reader, 2) {
            Ok(v) => Ok(to_i16(v)),
            Err(e) => Err(e),
        }
    }

    fn read_i32<R: SeekableReader + ?Sized>(&self, reader: &mut R) -> (r: Result<i32, Error>) {
        match read_value(ByteOrder::BigEndian, reader, 4) {
            Ok(v) => Ok(to_i32(v)),
            Err(e) => Err(e),
        }
    }

    fn read_i64<R: SeekableReader + ?Sized>(&self, reader: &mut R) -> (r: Result<i64, Error>) {
        match read_value(ByteOrder::BigEndian, reader, 8) {
            Ok(v) => Ok(to_i64(v)),
            Err(e) => Err(e),
        }
    }
}

/// A 16-bit pattern as a two's-complement number.
pub fn to_i16(v: u64) -> (s: i16)
    requires
        v < ByteOrder::weight(2),
    ensures
        ByteOrder::pattern(s as int, 2) == v,
{
    proof {
        ByteOrder::lemma_weights();
    }
    if v >= 0x8000 {
        (v as i64 - 0x1_0000) as i16
    } else {
        v as i16
    }
}

/// A 32-bit pattern as a two's-complement number.
pub fn to_i32(v: u64) -> (s: i32)
    requires
        v < ByteOrder::weight(4),
    ensures
        ByteOrder::pattern(s as int, 4) == v,
{
    proof {
        ByteOrder::lemma_weights();
    }
    if v >= 0x8000_0000 {
        (v as i64 - 0x1_0000_0000) as i32
    } else {
        v as i32
    }
}

/// A 64-bit pattern as a two's-complement number.
pub fn to_i64(v: u64) -> (s: i64)
    ensures
        ByteOrder::pattern(s as int, 8) == v,
{
    proof {
        ByteOrder::lemma_weights();
    }
    if v >= 0x8000_0000_0000_0000 {
        ((v - 0x8000_0000_0000_0000) as i64) - 0x4000_0000_0000_0000 - 0x4000_0000_0000_0000
    } else {
        v as i64
    }
}

/// The handler of either byte order, as `ByteOrder::handler` gives it.
pub enum OrderHandler {
    /// Reads least significant byte first.
    Little(LittleEndian),
    /// Reads most significant byte first.
    Big(BigEndian),
}

impl ByteOrderHandler for OrderHandler {
    open spec fn order(&self) -> ByteOrder {
        match self {
            OrderHandler::Little(_) => ByteOrder::LittleEndian,
            OrderHandler::Big(_) => ByteOrder::BigEndian,
        }
    }

    fn read_u16<R: SeekableReader + ?Sized>(&self, reader: &mut R) -> (r: Result<u16, Error>) {
        match self {
            OrderHandler::Little(h) => h.read_u16(reader),
            OrderHandler::Big(h) => h.read_u16(reader),
        }
    }

    fn read_u32<R: SeekableReader + ?Sized>(&self, reader: &mut R) -> (r: Result<u32, Error>) {
        match self {
            OrderHandler::Little(h) => h.read_u32(reader),
            OrderHandler::Big(h) => h.read_u32(reader),
        }
    }

    fn read_u64<R: SeekableReader + ?Sized>(&self, reader: &mut R) -> (r: Result<u64, Error>) {
        match self {
            OrderHandler::Little(h) => h.read_u64(reader),
            OrderHandler::Big(h) => h.read_u64(reader),
        }
    }

    fn read_i16<R: SeekableReader + ?Sized>(&self, reader: &mut R) -> (r: Result<i16, Error>) {
        match self {
            OrderHandler::Little(h) => h.read_i16(reader),
            OrderHandler::Big(h) => h.read_i16(reader),
        }
    }

    fn read_i32<R: SeekableReader + ?Sized>(&self, reader: &mut R) -> (r: Result<i32, Error>) {
        match self {
            OrderHandler::Little(h) => h.read_i32(reader),
            OrderHandler::Big(h) => h.read_i32(reader),
        }
    }

    fn read_i64<R: SeekableReader + ?Sized>(&self, reader: &mut R) -> (r: Result<i64, Error>) {
        match self {
            OrderHandler::Little(h) => h.read_i64(reader),
            OrderHandler::Big(h) => h.read_i64(reader),
        }
    }
}

} // verus!

//! Tag value reading operations
//!
//! The values of an entry lie in its value slot when they fit there
//! ("inline"), else in the file at the offset that the slot holds. Inline
//! values are packed into the slot least significant value first.

use vstd::prelude::*;
use vstd::arithmetic::div_mod::{lemma_div_denominator, lemma_fundamental_div_mod};
use crate::error::Error;
use crate::formats::tiff::ifd::IFDEntry;
use crate::formats::tiff::tags::field_types;
use crate::io::byte_order::{read_value, to_i16, to_i32, to_i64, ByteOrder};
use crate::io::traits::{vec_of_zeros, SeekFrom, SeekableReader};

verus! {

/// The bit pattern of a floating-point tag value, as the file holds it.
#[derive(Debug, Clone, Copy, PartialEq, Eq, Structural)]
pub enum FloatBits {
    /// The pattern of a double-precision value.
    Double(u64),
    /// The pattern of a single-precision value.
    Single(u32),
}

/// Handles reading tag values from TIFF files
pub struct TagReader {
    /// The byte order of the file.
    pub(crate) order: ByteOrder,
    /// Whether the file is a BigTIFF.
    pub(crate) is_big_tiff: bool,
}

impl TagReader {
    /// The byte order of the file.
    pub open(crate) spec fn spec_order(&self) -> ByteOrder {
        self.order
    }

    /// Whether the file is a BigTIFF.
    pub open(crate) spec fn spec_is_big_tiff(&self) -> bool {
        self.is_big_tiff
    }

    /// Value `i` of a slot that is read as values of `width` bytes (2, 4 or
    /// 8). Two-byte values are the four 16-bit parts of the slot, low part
    /// first, and zero behind them; of four-byte values the first is the low
    /// half and every later one the high half; the first eight-byte value is
    /// the slot, and every later one zero.
    pub open spec fn inline_element(slot: u64, width: nat, i: nat) -> nat {
        if width == 2 {
            if i < 4 {
                (slot as nat / ByteOrder::weight(2 * i)) % 0x1_0000
            } else {
                0
            }
        } else if width == 4 {
            if i == 0 {
                slot as nat % 0x1_0000_0000
            } else {
                slot as nat / 0x1_0000_0000
            }
        } else {
            if i == 0 {
                slot as nat
            } else {
                0
            }
        }
    }

    /// The bytes of the source from the offset that the slot of `entry`
    /// holds: where the values of an entry lie that is not inline.
    pub open spec fn positioned(entry: IFDEntry, source: Seq<u8>) -> Seq<u8> {
        SeekFrom::tail(source, entry.value_offset as nat)
    }

    /// Value `i` of `entry` read as values of `width` bytes: of an inline
    /// entry the value in the slot; else the value that `bytes` spell at its
    /// place, where `bytes` are the bytes at the offset in the slot.
    pub open(crate) spec fn element(&self, entry: IFDEntry, width: nat, bytes: Seq<u8>, i: nat) -> nat {
        if entry.spec_is_inline(self.is_big_tiff) {
            Self::inline_element(entry.value_offset, width, i)
        } else {
            self.order.value(bytes.subrange((i * width) as int, ((i + 1) * width) as int))
        }
    }

    /// The values of `entry` read as values of `width` bytes: those of the
    /// slot for an inline entry, else those of `bytes`, and `None` where
    /// `bytes` are too few.
    pub open(crate) spec fn values(&self, entry: IFDEntry, width: nat, bytes: Seq<u8>) -> Option<
        Seq<nat>,
    > {
        if entry.spec_is_inline(self.is_big_tiff) || entry.count * width <= bytes.len() {
            Some(Seq::new(entry.count as nat, |i: int| self.element(entry, width, bytes, i as nat)))
        } else {
            None
        }
    }

    /// What a reader has left after the values of `entry` were read from it
    /// as values of `width` bytes, where it had `left` before: an inline entry
    /// leaves the reader alone; else the reader stands behind the values.
    pub open(crate) spec fn left_after(&self,
        entry: IFDEntry,
        width: nat,
        source: Seq<u8>,
        left: Seq<u8>,
    ) -> Seq<u8> {
        if entry.spec_is_inline(self.is_big_tiff) {
            left
        } else {
            Self::positioned(entry, source).skip((entry.count * width) as int)
        }
    }

    /// The part of a slot that the little-endian packing of values puts at
    /// place `i`: the number that bytes `i * width` to `(i + 1) * width` of
    /// the slot's eight bytes spell, least significant byte first.
    pub open spec fn packed(slot: u64, width: nat, i: nat) -> nat {
        ByteOrder::LittleEndian.value(
            ByteOrder::LittleEndian.bytes_of(slot as nat, 8).subrange(
                (i * width) as int,
                ((i + 1) * width) as int,
            ),
        )
    }

    /// Part `i` of a slot is the slot divided by `256^(i * width)`, modulo
    /// `256^width`.
    pub proof fn lemma_packed(slot: u64, width: nat, i: nat)
        requires
            (i + 1) * width <= 8,
        ensures
            Self::packed(slot, width, i) == (slot as nat / ByteOrder::weight(i * width))
                % ByteOrder::weight(width),
    {
        let all = ByteOrder::LittleEndian.bytes_of(slot as nat, 8);
        let part = all.subrange((i * width) as int, ((i + 1) * width) as int);
        let base = ByteOrder::weight(i * width);
        let y = slot as nat / base;
        let direct = ByteOrder::LittleEndian.bytes_of(y, width);
        assert((i + 1) * width == i * width + width) by (nonlinear_arith);
        ByteOrder::lemma_weight_positive(i * width);
        assert forall|j: int| 0 <= j < width implies part[j] == direct[j] by {
            ByteOrder::lemma_weight_sum(i * width, j as nat);
            ByteOrder::lemma_weight_positive(j as nat);
            lemma_div_denominator(slot as int, base as int, ByteOrder::weight(j as nat) as int);
        }
        ByteOrder::lemma_value_prefix(part, direct, width);
        ByteOrder::lemma_le_value_of_bytes(y, width);
    }

    /// For every value that lies wholly in the slot, an inline read gives
    /// the value that the little-endian packing of the slot puts at its place.
    pub proof fn lemma_inline_layout(slot: u64, width: nat, i: nat)
        requires
            width == 2 || width == 4 || width == 8,
            (i + 1) * width <= 8,
        ensures
            Self::inline_element(slot, width, i) == Self::packed(slot, width, i),
    {
        Self::lemma_packed(slot, width, i);
        ByteOrder::lemma_weights();
        let s = slot as nat;
        let p = Self::packed(slot, width, i);
        assert(p == (s / ByteOrder::weight(i * width)) % ByteOrder::weight(width));
        if width == 2 {
            assert(i < 4) by (nonlinear_arith)
                requires
                    (i + 1) * 2 <= 8,
            ;
            assert(i * width == 2 * i) by (nonlinear_arith)
                requires
                    width == 2,
            ;
            assert(p == (s / ByteOrder::weight(2 * i)) % 0x1_0000);
        } else if width == 4 {
            assert(i < 2) by (nonlinear_arith)
                requires
                    (i + 1) * 4 <= 8,
            ;
            if i == 0 {
                assert(i * width == 0) by (nonlinear_arith)
                    requires
                        i == 0,
                ;
                assert(p == (s / 1) % 0x1_0000_0000);
            } else {
                assert(i * width == 4) by (nonlinear_arith)
                    requires
                        i == 1,
                        width == 4,
                ;
                assert(s / 0x1_0000_0000 < 0x1_0000_0000);
                assert(p == (s / 0x1_0000_0000) % 0x1_0000_0000);
            }
        } else {
            assert(i == 0) by (nonlinear_arith)
                requires
                    (i + 1) * 8 <= 8,
            ;
            assert(i * width == 0) by (nonlinear_arith)
                requires
                    i == 0,
            ;
            assert(p == (s / 1) % 0x1_0000_0000_0000_0000);
            vstd::arithmetic::div_mod::lemma_div_basics(s as int);
            vstd::arithmetic::div_mod::lemma_small_mod(s, 0x1_0000_0000_0000_0000);
        }
    }

    /// A reader of tag values for a file of the given byte order and kind.
    pub fn new(order: ByteOrder, is_big_tiff: bool) -> (t: Self)
        ensures
            t.spec_order() == order,
            t.spec_is_big_tiff() == is_big_tiff,
    {
        Self { order, is_big_tiff }
    }

    /// Value `index` of an inline entry read as values of `width` bytes.
    fn inline_value(slot: u64, width: usize, index: u64) -> (v: u64)
        requires
            width == 2 || width == 4 || width == 8,
        ensures
            v == Self::inline_element(slot, width as nat, index as nat),
            v < ByteOrder::weight(width as nat),
    {
        proof {
            ByteOrder::lemma_weights();
            let i = index as nat;
            if i == 0 {
                assert(2 * i == 0);
            } else if i == 1 {
                assert(2 * i == 2);
            } else if i == 2 {
                assert(2 * i == 4);
            } else if i == 3 {
                assert(2 * i == 6);
            }
        }
        if width == 2 {
            if index == 0 {
                slot % 0x1_0000
            } else if index == 1 {
                (slot / 0x1_0000) % 0x1_0000
            } else if index == 2 {
                (slot / 0x1_0000_0000) % 0x1_0000
            } else if index == 3 {
                (slot / 0x1_0000_0000_0000) % 0x1_0000
            } else {
                0
            }
        } else if width == 4 {
            if index == 0 {
                slot % 0x1_0000_0000
            } else {
                slot / 0x1_0000_0000
            }
        } else {
            if index == 0 {
                slot
            } else {
                0
            }
        }
    }

    /// Moves the reader to the values of an entry that is not inline, and
    /// leaves it alone for one that is.
    fn seek_to_tag_data<R: SeekableReader + ?Sized>(&self, reader: &mut R, entry: &IFDEntry) -> (r:
        Result<(), Error>)
        ensures
            final(reader).source() == old(reader).source(),
            final(reader).reliable() == old(reader).reliable(),
            r is Err ==> r->Err_0 is Io,
            old(reader).reliable() ==> r is Ok,
            entry.spec_is_inline(self.is_big_tiff)
                ==> r is Ok && final(reader).remaining() == old(reader).remaining() && final(reader).seek_origin() == old(reader).seek_origin(),
            r is Ok && !entry.spec_is_inline(self.is_big_tiff) ==> final(reader).remaining()
                == Self::positioned(*entry, old(reader).source()),
    {
        if !entry.is_inline(self.is_big_tiff) {
            match reader.seek(SeekFrom::Start(entry.value_offset)) {
                Ok(_) => {},
                Err(e) => {
                    return Err(e);
                },
            }
        }
        Ok(())
    }

    /// Reads the values of `entry` as unsigned values of `width` bytes.
    fn read_raw<R: SeekableReader + ?Sized>(
        &self,
        reader: &mut R,
        entry: &IFDEntry,
        width: usize,
    ) -> (r: Result<Vec<u64>, Error>)
        requires
            width == 2 || width == 4 || width == 8,
        ensures
            final(reader).source() == old(reader).source(),
            final(reader).reliable() == old(reader).reliable(),
            r is Err ==> r->Err_0 is Io,
            entry.spec_is_inline(self.is_big_tiff) ==> r is Ok && final(reader).seek_origin()
                == old(reader).seek_origin(),
            old(reader).reliable() ==> (r is Ok <==> self.values(
                *entry,
                width as nat,
                Self::positioned(*entry, old(reader).source()),
            ) is Some),
            r matches Ok(v) ==> {
                let bytes = Self::positioned(*entry, old(reader).source());
                &&& self.values(*entry, width as nat, bytes) is Some
                &&& v@.len() == entry.count
                &&& forall|i: int|
                    #![trigger v@[i]]
                    0 <= i < v@.len() ==> v@[i] == self.element(*entry, width as nat, bytes, i as nat)
                        && v@[i] < ByteOrder::weight(width as nat)
                &&& final(reader).remaining() == self.left_after(
                    *entry,
                    width as nat,
                    old(reader).source(),
                    old(reader).remaining(),
                )
            },
    {
        let inline = entry.is_inline(self.is_big_tiff);
        match self.seek_to_tag_data(reader, entry) {
            Ok(()) => {},
            Err(e) => {
                return Err(e);
            },
        }
        let ghost bytes = Self::positioned(*entry, old(reader).source());
        let ghost w = width as nat;
        let mut values: Vec<u64> = Vec::new();
        let mut i: u64 = 0;
        assert(bytes.skip(0) =~= bytes);
        while i < entry.count
            invariant
                width == 2 || width == 4 || width == 8,
                w == width,
                i <= entry.count,
                inline == entry.spec_is_inline(self.is_big_tiff),
                reader.source() == old(reader).source(),
                reader.reliable() == old(reader).reliable(),
                bytes == Self::positioned(*entry, old(reader).source()),
                inline ==> reader.remaining() == old(reader).remaining() && reader.seek_origin()
                    == old(reader).seek_origin(),
                !inline ==> i * w <= bytes.len() && reader.remaining() == bytes.skip(
                    (i * w) as int,
                ),
                values@.len() == i,
                forall|j: int|
                    0 <= j < i ==> values@[j] == self.element(*entry, w, bytes, j as nat)
                        && values@[j] < ByteOrder::weight(w),
            decreases entry.count - i,
        {
            let value: u64 = if inline {
                Self::inline_value(entry.value_offset, width, i)
            } else {
                proof {
                    assert((i + 1) * w == i * w + w) by (nonlinear_arith);
                    if (i + 1) * w <= bytes.len() {
                    } else {
                        assert(entry.count * w > bytes.len()) by (nonlinear_arith)
                            requires
                                (i + 1) * w > bytes.len(),
                                i + 1 <= entry.count,
                        ;
                    }
                }
                match read_value(self.order, reader, width) {
                    Ok(v) => {
                        proof {
                            let before = bytes.skip((i * w) as int);
                            assert(before.subrange(0, w as int) =~= bytes.subrange(
                                (i * w) as int,
                                ((i + 1) * w) as int,
                            ));
                            assert(before.skip(w as int) =~= bytes.skip(((i + 1) * w) as int));
                        }
                        v
                    },
                    Err(e) => {
                        return Err(e);
                    },
                }
            };
            values.push(value);
            i = i + 1;
        }
        Ok(values)
    }

    /// Reads tag values as u16 array. The values of an inline entry are
    /// those of its slot, and the reader is left alone; else they are read
    /// at the offset in the slot, and the reader stands behind them.
    pub fn read_u16s<R: SeekableReader + ?Sized>(&self, reader: &mut R, entry: &IFDEntry) -> (r:
        Result<Vec<u16>, Error>)
        ensures
            final(reader).source() == old(reader).source(),
            final(reader).reliable() == old(reader).reliable(),
            r is Err ==> r->Err_0 is Io,
            entry.spec_is_inline(self.spec_is_big_tiff()) ==> r is Ok && final(reader).seek_origin()
                == old(reader).seek_origin(),
            r is Ok ==> final(reader).remaining() == self.left_after(
                *entry,
                2,
                old(reader).source(),
                old(reader).remaining(),
            ),
            old(reader).reliable() ==> (r is Ok <==> self.values(
                *entry,
                2,
                Self::positioned(*entry, old(reader).source()),
            ) is Some),
            r matches Ok(v) ==> {
                let bytes = Self::positioned(*entry, old(reader).source());
                &&& self.values(*entry, 2, bytes) is Some
                &&& v@.len() == entry.count
                &&& forall|i: int|
                    #![trigger v@[i]]
                    0 <= i < v@.len() ==> v@[i] == self.element(*entry, 2, bytes, i as nat)
            },
    {
        let raw = match self.read_raw(reader, entry, 2) {
            Ok(raw) => raw,
            Err(e) => {
                return Err(e);
            },
        };
        let ghost bytes = Self::positioned(*entry, old(reader).source());
        let mut values: Vec<u16> = Vec::new();
        let mut i: usize = 0;
        proof {
            ByteOrder::lemma_weights();
        }
        while i < raw.len()
            invariant
                i <= raw@.len(),
                values@.len() == i,
                forall|j: int| 0 <= j < raw@.len() ==> raw@[j] < 0x1_0000,
                forall|j: int| #![trigger values@[j]] 0 <= j < i ==> values@[j] == raw@[j],
                forall|j: int| #![trigger raw@[j]] 0 <= j < raw@.len()
                    ==> raw@[j] == self.element(*entry, 2, bytes, j as nat),
            decreases raw@.len() - i,
        {
            values.push(raw[i] as u16);
            i = i + 1;
        }
        assert forall|k: int| 0 <= k < values@.len() implies values@[k] == self.element(
            *entry,
            2,
            bytes,
            k as nat,
        ) by {
            assert(values@[k] == raw@[k]);
        }
        Ok(values)
    }

    /// Reads tag values as i16 array. The values of an inline entry are
    /// those of its slot, and the reader is left alone; else they are read
    /// at the offset in the slot, and the reader stands behind them.
    pub fn read_i16s<R: SeekableReader + ?Sized>(&self, reader: &mut R, entry: &IFDEntry) -> (r:
        Result<Vec<i16>, Error>)
        ensures
            final(reader).source() == old(reader).source(),
            final(reader).reliable() == old(reader).reliable(),
            r is Err ==> r->Err_0 is Io,
            entry.spec_is_inline(self.spec_is_big_tiff()) ==> r is Ok && final(reader).seek_origin()
                == old(reader).seek_origin(),
            r is Ok ==> final(reader).remaining() == self.left_after(
                *entry,
                2,
                old(reader).source(),
                old(reader).remaining(),
            ),
            old(reader).reliable() ==> (r is Ok <==> self.values(
                *entry,
                2,
                Self::positioned(*entry, old(reader).source()),
            ) is Some),
            r matches Ok(v) ==> {
                let bytes = Self::positioned(*entry, old(reader).source());
                &&& self.values(*entry, 2, bytes) is Some
                &&& v@.len() == entry.count
                &&& forall|i: int|
                    0 <= i < v@.len() ==> ByteOrder::pattern(v@[i] as int, 2) == self.element(
                        *entry,
                        2,
                        bytes,
                        i as nat,
                    )
            },
    {
        let raw = match self.read_raw(reader, entry, 2) {
            Ok(raw) => raw,
            Err(e) => {
                return Err(e);
            },
        };
        let ghost bytes = Self::positioned(*entry, old(reader).source());
        let mut values: Vec<i16> = Vec::new();
        let mut i: usize = 0;
        while i < raw.len()
            invariant
                i <= raw@.len(),
                values@.len() == i,
                forall|j: int| 0 <= j < raw@.len() ==> raw@[j] < ByteOrder::weight(2),
                forall|j: int| #![trigger values@[j]] 0 <= j < i
                    ==> ByteOrder::pattern(values@[j] as int, 2) == raw@[j],
                forall|j: int| #![trigger raw@[j]] 0 <= j < raw@.len()
                    ==> raw@[j] == self.element(*entry, 2, bytes, j as nat),
            decreases raw@.len() - i,
        {
            values.push(to_i16(raw[i]));
            i = i + 1;
        }
        assert forall|k: int| 0 <= k < values@.len() implies ByteOrder::pattern(
            values@[k] as int,
            2,
        ) == self.element(*entry, 2, bytes, k as nat) by {
            assert(ByteOrder::pattern(values@[k] as int, 2) == raw@[k]);
        }
        Ok(values)
    }

    /// Reads tag values as u32 array. The values of an inline entry are
    /// those of its slot, and the reader is left alone; else they are read
    /// at the offset in the slot, and the reader stands behind them.
    pub fn read_u32s<R: SeekableReader + ?Sized>(&self, reader: &mut R, entry: &IFDEntry) -> (r:
        Result<Vec<u32>, Error>)
        ensures
            final(reader).source() == old(reader).source(),
            final(reader).reliable() == old(reader).reliable(),
            r is Err ==> r->Err_0 is Io,
            entry.spec_is_inline(self.spec_is_big_tiff()) ==> r is Ok && final(reader).seek_origin()
                == old(reader).seek_origin(),
            r is Ok ==> final(reader).remaining() == self.left_after(
                *entry,
                4,
                old(reader).source(),
                old(reader).remaining(),
            ),
            old(reader).reliable() ==> (r is Ok <==> self.values(
                *entry,
                4,
                Self::positioned(*entry, old(reader).source()),
            ) is Some),
            r matches Ok(v) ==> {
                let bytes = Self::positioned(*entry, old(reader).source());
                &&& self.values(*entry, 4, bytes) is Some
                &&& v@.len() == entry.count
                &&& forall|i: int|
                    #![trigger v@[i]]
                    0 <= i < v@.len() ==> v@[i] == self.element(*entry, 4, bytes, i as nat)
            },
    {
        let raw = match self.read_raw(reader, entry, 4) {
            Ok(raw) => raw,
            Err(e) => {
                return Err(e);
            },
        };
        let ghost bytes = Self::positioned(*entry, old(reader).source());
        let mut values: Vec<u32> = Vec::new();
        let mut i: usize = 0;
        proof {
            ByteOrder::lemma_weights();
        }
        while i < raw.len()
            invariant
                i <= raw@.len(),
                values@.len() == i,
                forall|j: int| 0 <= j < raw@.len() ==> raw@[j] < 0x1_0000_0000,
                forall|j: int| #![trigger values@[j]] 0 <= j < i ==> values@[j] == raw@[j],
                forall|j: int| #![trigger raw@[j]] 0 <= j < raw@.len()
                    ==> raw@[j] == self.element(*entry, 4, bytes, j as nat),
            decreases raw@.len() - i,
        {
            values.push(raw[i] as u32);
            i = i + 1;
        }
        assert forall|k: int| 0 <= k < values@.len() implies values@[k] == self.element(
            *entry,
            4,
            bytes,
            k as nat,
        ) by {
            assert(values@[k] == raw@[k]);
        }
        Ok(values)
    }

    /// Reads tag values as i32 array. The values of an inline entry are
    /// those of its slot, and the reader is left alone; else they are read
    /// at the offset in the slot, and the reader stands behind them.
    pub fn read_i32s<R: SeekableReader + ?Sized>(&self, reader: &mut R, entry: &IFDEntry) -> (r:
        Result<Vec<i32>, Error>)
        ensures
            final(reader).source() == old(reader).source(),
            final(reader).reliable() == old(reader).reliable(),
            r is Err ==> r->Err_0 is Io,
            entry.spec_is_inline(self.spec_is_big_tiff()) ==> r is Ok && final(reader).seek_origin()
                == old(reader).seek_origin(),
            r is Ok ==> final(reader).remaining() == self.left_after(
                *entry,
                4,
                old(reader).source(),
                old(reader).remaining(),
            ),
            old(reader).reliable() ==> (r is Ok <==> self.values(
                *entry,
                4,
                Self::positioned(*entry, old(reader).source()),
            ) is Some),
            r matches Ok(v) ==> {
                let bytes = Self::positioned(*entry, old(reader).source());
                &&& self.values(*entry, 4, bytes) is Some
                &&& v@.len() == entry.count
                &&& forall|i: int|
                    0 <= i < v@.len() ==> ByteOrder::pattern(v@[i] as int, 4) == self.element(
                        *entry,
                        4,
                        bytes,
                        i as nat,
                    )
            },
    {
        let raw = match self.read_raw(reader, entry, 4) {
            Ok(raw) => raw,
            Err(e) => {
                return Err(e);
            },
        };
        let ghost bytes = Self::positioned(*entry, old(reader).source());
        let mut values: Vec<i32> = Vec::new();
        let mut i: usize = 0;
        while i < raw.len()
            invariant
                i <= raw@.len(),
                values@.len() == i,
                forall|j: int| 0 <= j < raw@.len() ==> raw@[j] < ByteOrder::weight(4),
                forall|j: int| #![trigger values@[j]] 0 <= j < i
                    ==> ByteOrder::pattern(values@[j] as int, 4) == raw@[j],
                forall|j: int| #![trigger raw@[j]] 0 <= j < raw@.len()
                    ==> raw@[j] == self.element(*entry, 4, bytes, j as nat),
            decreases raw@.len() - i,
        {
            values.push(to_i32(raw[i]));
            i = i + 1;
        }
        assert forall|k: int| 0 <= k < values@.len() implies ByteOrder::pattern(
            values@[k] as int,
            4,
        ) == self.element(*entry, 4, bytes, k as nat) by {
            assert(ByteOrder::pattern(values@[k] as int, 4) == raw@[k]);
        }
        Ok(values)
    }

    /// Reads tag values as u64 array. The values of an inline entry are
    /// those of its slot, and the reader is left alone; else they are read
    /// at the offset in the slot, and the reader stands behind them.
    pub fn read_u64s<R: SeekableReader + ?Sized>(&self, reader: &mut R, entry: &IFDEntry) -> (r:
        Result<Vec<u64>, Error>)
        ensures
            final(reader).source() == old(reader).source(),
            final(reader).reliable() == old(reader).reliable(),
            r is Err ==> r->Err_0 is Io,
            entry.spec_is_inline(self.spec_is_big_tiff()) ==> r is Ok && final(reader).seek_origin()
                == old(reader).seek_origin(),
            r is Ok ==> final(reader).remaining() == self.left_after(
                *entry,
                8,
                old(reader).source(),
                old(reader).remaining(),
            ),
            old(reader).reliable() ==> (r is Ok <==> self.values(
                *entry,
                8,
                Self::positioned(*entry, old(reader).source()),
            ) is Some),
            r matches Ok(v) ==> {
                let bytes = Self::positioned(*entry, old(reader).source());
                &&& self.values(*entry, 8, bytes) is Some
                &&& v@.len() == entry.count
                &&& forall|i: int|
                    #![trigger v@[i]]
                    0 <= i < v@.len() ==> v@[i] == self.element(*entry, 8, bytes, i as nat)
            },
    {
        self.read_raw(reader, entry, 8)
    }

    /// Reads tag values as i64 array. The values of an inline entry are
    /// those of its slot, and the reader is left alone; else they are read
    /// at the offset in the slot, and the reader stands behind them.
    pub fn read_i64s<R: SeekableReader + ?Sized>(&self, reader: &mut R, entry: &IFDEntry) -> (r:
        Result<Vec<i64>, Error>)
        ensures
            final(reader).source() == old(reader).source(),
            final(reader).reliable() == old(reader).reliable(),
            r is Err ==> r->Err_0 is Io,
            entry.spec_is_inline(self.spec_is_big_tiff()) ==> r is Ok && final(reader).seek_origin()
                == old(reader).seek_origin(),
            r is Ok ==> final(reader).remaining() == self.left_after(
                *entry,
                8,
                old(reader).source(),
                old(reader).remaining(),
            ),
            old(reader).reliable() ==> (r is Ok <==> self.values(
                *entry,
                8,
                Self::positioned(*entry, old(reader).source()),
            ) is Some),
            r matches Ok(v) ==> {
                let bytes = Self::positioned(*entry, old(reader).source());
                &&& self.values(*entry, 8, bytes) is Some
                &&& v@.len() == entry.count
                &&& forall|i: int|
                    0 <= i < v@.len() ==> ByteOrder::pattern(v@[i] as int, 8) == self.element(
                        *entry,
                        8,
                        bytes,
                        i as nat,
                    )
            },
    {
        let raw = match self.read_raw(reader, entry, 8) {
            Ok(raw) => raw,
            Err(e) => {
                return Err(e);
            },
        };
        let ghost bytes = Self::positioned(*entry, old(reader).source());
        let mut values: Vec<i64> = Vec::new();
        let mut i: usize = 0;
        while i < raw.len()
            invariant
                i <= raw@.len(),
                values@.len() == i,
                forall|j: int| #![trigger values@[j]] 0 <= j < i
                    ==> ByteOrder::pattern(values@[j] as int, 8) == raw@[j],
                forall|j: int| #![trigger raw@[j]] 0 <= j < raw@.len()
                    ==> raw@[j] == self.element(*entry, 8, bytes, j as nat),
            decreases raw@.len() - i,
        {
            values.push(to_i64(raw[i]));
            i = i + 1;
        }
        assert forall|k: int| 0 <= k < values@.len() implies ByteOrder::pattern(
            values@[k] as int,
            8,
        ) == self.element(*entry, 8, bytes, k as nat) by {
            assert(ByteOrder::pattern(values@[k] as int, 8) == raw@[k]);
        }
        Ok(values)
    }

    /// Whether every byte is an ASCII character.
    pub open spec fn is_ascii(bytes: Seq<u8>) -> bool {
        forall|i: int| 0 <= i < bytes.len() ==> bytes[i] < 128
    }

    /// ASCII bytes as characters.
    pub open spec fn ascii_text(bytes: Seq<u8>) -> Seq<char> {
        Seq::new(bytes.len(), |i: int| bytes[i] as char)
    }

    /// `bytes` without the NUL bytes at its end.
    pub open spec fn trimmed(bytes: Seq<u8>) -> Seq<u8>
        decreases bytes.len(),
    {
        if bytes.len() > 0 && bytes.last() == 0 {
            Self::trimmed(bytes.drop_last())
        } else {
            bytes
        }
    }

    /// The bytes of an ASCII entry: the first `count` bytes of the slot,
    /// least significant first, or `count` bytes of the source at the offset
    /// in the slot; `None` where the source ends before them.
    pub open(crate) spec fn ascii_bytes(&self, entry: IFDEntry, source: Seq<u8>) -> Option<Seq<u8>> {
        if entry.spec_is_inline(self.is_big_tiff) {
            Some(
                ByteOrder::LittleEndian.bytes_of(entry.value_offset as nat, 8).subrange(
                    0,
                    entry.count as int,
                ),
            )
        } else if entry.value_offset + entry.count <= source.len() {
            Some(
                source.subrange(
                    entry.value_offset as int,
                    (entry.value_offset + entry.count) as int,
                ),
            )
        } else {
            None
        }
    }

    /// Whether the bytes of an ASCII entry can be read: they lie within the
    /// file, and are no more than memory can hold.
    pub open(crate) spec fn ascii_readable(&self, entry: IFDEntry, source: Seq<u8>) -> bool {
        self.ascii_bytes(entry, source) is Some && (entry.spec_is_inline(self.is_big_tiff)
            || entry.count <= usize::MAX)
    }

    /// The width of the floating-point values of an entry: eight bytes for
    /// `DOUBLE`, four for `FLOAT`.
    pub open spec fn float_width(entry: IFDEntry) -> nat {
        if entry.field_type == field_types::DOUBLE {
            8
        } else {
            4
        }
    }

    /// The floating-point values of an entry as bit patterns: for `DOUBLE`
    /// the eight-byte values of the entry, for `FLOAT` its four-byte values,
    /// each taken as the other values of an entry are: from the slot where the
    /// entry is inline, else from `bytes`, and `None` where `bytes` are too
    /// few. An entry of another type has no such values, unless it has no
    /// values at all.
    pub open(crate) spec fn float_bits(&self, entry: IFDEntry, bytes: Seq<u8>) -> Option<Seq<FloatBits>> {
        if entry.field_type == field_types::DOUBLE {
            match self.values(entry, 8, bytes) {
                Some(v) => Some(Seq::new(v.len(), |i: int| FloatBits::Double(v[i] as u64))),
                None => None,
            }
        } else if entry.field_type == field_types::FLOAT {
            match self.values(entry, 4, bytes) {
                Some(v) => Some(Seq::new(v.len(), |i: int| FloatBits::Single(v[i] as u32))),
                None => None,
            }
        } else if entry.count == 0 {
            Some(Seq::empty())
        } else {
            None
        }
    }

    /// The floating-point values of an entry in a file.
    pub open(crate) spec fn floats(&self, entry: IFDEntry, source: Seq<u8>) -> Option<Seq<FloatBits>> {
        self.float_bits(entry, Self::positioned(entry, source))
    }

    /// The two-byte values of an entry in a file.
    pub open(crate) spec fn shorts(&self, entry: IFDEntry, source: Seq<u8>) -> Option<Seq<u16>> {
        match self.values(entry, 2, Self::positioned(entry, source)) {
            Some(v) => Some(Seq::new(v.len(), |i: int| v[i] as u16)),
            None => None,
        }
    }

    /// Drops the NUL bytes at the end of `bytes`.
    fn trim_nuls(bytes: &mut Vec<u8>)
        ensures
            final(bytes)@ == Self::trimmed(old(bytes)@),
    {
        while bytes.len() > 0 && bytes[bytes.len() - 1] == 0
            invariant
                Self::trimmed(bytes@) == Self::trimmed(old(bytes)@),
            decreases bytes@.len(),
        {
            let ghost before = bytes@;
            bytes.pop();
            assert(bytes@ =~= before.drop_last());
        }
    }

    /// Reads the bytes of an ASCII entry.
    fn read_ascii_bytes<R: SeekableReader + ?Sized>(&self, reader: &mut R, entry: &IFDEntry) -> (r:
        Result<Vec<u8>, Error>)
        ensures
            final(reader).source() == old(reader).source(),
            final(reader).reliable() == old(reader).reliable(),
            r matches Err(e) ==> e is Io || (e is InvalidFormat && entry.count > usize::MAX),
            old(reader).reliable() ==> (r is Ok <==> self.ascii_readable(
                *entry,
                old(reader).source(),
            )),
            r matches Ok(bytes) ==> self.ascii_bytes(*entry, old(reader).source()) == Some(bytes@),
            entry.spec_is_inline(self.is_big_tiff) ==> r is Ok && final(reader).seek_origin()
                == old(reader).seek_origin(),
            r is Ok ==> final(reader).remaining() == self.left_after(
                *entry,
                1,
                old(reader).source(),
                old(reader).remaining(),
            ),
    {
        if entry.is_inline(self.is_big_tiff) {
            let mut bytes: Vec<u8> = Vec::new();
            let mut rest: u64 = entry.value_offset;
            let mut i: u64 = 0;
            let ghost slot = entry.value_offset as nat;
            let ghost all = ByteOrder::LittleEndian.bytes_of(slot, 8);
            proof {
                ByteOrder::lemma_weights();
                // an inline entry has at most eight values
                let size = IFDEntry::type_size(entry.field_type);
                assert(entry.count <= 8) by (nonlinear_arith)
                    requires
                        size * entry.count <= 8,
                        size >= 1,
                ;
                vstd::arithmetic::div_mod::lemma_div_basics(slot as int);
            }
            while i < entry.count
                invariant
                    i <= entry.count <= 8,
                    slot == entry.value_offset,
                    all == ByteOrder::LittleEndian.bytes_of(slot, 8),
                    rest == slot / ByteOrder::weight(i as nat),
                    bytes@ == all.subrange(0, i as int),
                decreases entry.count - i,
            {
                proof {
                    ByteOrder::lemma_weights();
                    ByteOrder::lemma_weight_positive(i as nat);
                    lemma_div_denominator(slot as int, ByteOrder::weight(i as nat) as int, 256);
                    ByteOrder::lemma_weight_sum(i as nat, 1);
                }
                bytes.push((rest % 256) as u8);
                rest = rest / 256;
                i = i + 1;
                assert(bytes@ =~= all.subrange(0, i as int));
            }
            return Ok(bytes);
        }
        if entry.count > usize::MAX as u64 {
            return Err(Error::InvalidFormat("ASCII value too long".to_string()));
        }
        match reader.seek(SeekFrom::Start(entry.value_offset)) {
            Ok(_) => {},
            Err(e) => {
                return Err(e);
            },
        }
        let mut bytes: Vec<u8> = vec_of_zeros(entry.count as usize);
        proof {
            let source = old(reader).source();
            let at = entry.value_offset as nat;
            if at + entry.count <= source.len() {
                SeekFrom::lemma_tail_step(source, at, entry.count as nat);
            } else if at <= source.len() {
                SeekFrom::lemma_tail_step(source, at, 0);
            }
        }
        match reader.read_exact(bytes.as_mut_slice()) {
            Ok(()) => Ok(bytes),
            Err(e) => Err(e),
        }
    }

    /// Reads ASCII string from tag: the bytes of the entry without the NUL
    /// bytes at their end, as text. Bytes that are no UTF-8 are replaced as
    /// `String::from_utf8_lossy` replaces them. The bytes of an inline entry
    /// are those of its slot, and the reader is left alone.
    pub fn read_ascii<R: SeekableReader + ?Sized>(&self, reader: &mut R, entry: &IFDEntry) -> (r:
        Result<String, Error>)
        ensures
            final(reader).source() == old(reader).source(),
            final(reader).reliable() == old(reader).reliable(),
            r matches Err(e) ==> e is Io || (e is InvalidFormat && entry.count > usize::MAX),
            old(reader).reliable() ==> (r is Ok <==> self.ascii_readable(
                *entry,
                old(reader).source(),
            )),
            r matches Ok(text) ==> {
                &&& self.ascii_bytes(*entry, old(reader).source()) is Some
                &&& text@ == utf8_lossy(
                    Self::trimmed(self.ascii_bytes(*entry, old(reader).source())->Some_0),
                )
                &&& Self::is_ascii(
                    Self::trimmed(self.ascii_bytes(*entry, old(reader).source())->Some_0),
                ) ==> text@ == Self::ascii_text(
                    Self::trimmed(self.ascii_bytes(*entry, old(reader).source())->Some_0),
                )
            },
            entry.spec_is_inline(self.spec_is_big_tiff()) ==> r is Ok && final(reader).seek_origin()
                == old(reader).seek_origin(),
            r is Ok ==> final(reader).remaining() == self.left_after(
                *entry,
                1,
                old(reader).source(),
                old(reader).remaining(),
            ),
    {
        let mut bytes = match self.read_ascii_bytes(reader, entry) {
            Ok(bytes) => bytes,
            Err(e) => {
                return Err(e);
            },
        };
        Self::trim_nuls(&mut bytes);
        Ok(lossy_text(bytes.as_slice()))
    }

    /// Reads floating-point tag values as bit patterns: the eight-byte
    /// patterns of a `DOUBLE` entry, the four-byte patterns of a `FLOAT`
    /// entry. The values of an inline entry are those of its slot, and the
    /// reader is left alone. An entry of another type that has values is
    /// `InvalidFormat`, and the reader is left alone.
    pub fn read_double_bits<R: SeekableReader + ?Sized>(
        &self,
        reader: &mut R,
        entry: &IFDEntry,
    ) -> (r: Result<Vec<FloatBits>, Error>)
        ensures
            final(reader).source() == old(reader).source(),
            final(reader).reliable() == old(reader).reliable(),
            r matches Err(e) ==> if entry.field_type == field_types::DOUBLE || entry.field_type
                == field_types::FLOAT {
                e is Io
            } else {
                e is InvalidFormat && entry.count > 0
            },
            entry.field_type != field_types::DOUBLE && entry.field_type != field_types::FLOAT ==> (r
                is Ok <==> entry.count == 0),
            entry.spec_is_inline(self.spec_is_big_tiff()) ==> final(reader).remaining() == old(reader).remaining() && final(reader).seek_origin() == old(reader).seek_origin() && (r is Ok
                <==> self.float_bits(*entry, Self::positioned(*entry, old(reader).source()))
                is Some),
            old(reader).reliable() ==> (r is Ok <==> self.float_bits(
                *entry,
                Self::positioned(*entry, old(reader).source()),
            ) is Some),
            r matches Ok(v) ==> self.float_bits(
                *entry,
                Self::positioned(*entry, old(reader).source()),
            ) == Some(v@),
            r is Ok ==> final(reader).remaining() == self.left_after(
                *entry,
                Self::float_width(*entry),
                old(reader).source(),
                old(reader).remaining(),
            ),
    {
        let ghost bytes = Self::positioned(*entry, old(reader).source());
        let mut values: Vec<FloatBits> = Vec::new();
        if entry.field_type == field_types::DOUBLE {
            let raw = match self.read_raw(reader, entry, 8) {
                Ok(raw) => raw,
                Err(e) => {
                    return Err(e);
                },
            };
            let ghost expected = self.values(*entry, 8, bytes)->Some_0;
            let mut i: usize = 0;
            while i < raw.len()
                invariant
                    i <= raw@.len(),
                    values@.len() == i,
                    forall|j: int|
                        #![trigger values@[j]]
                        0 <= j < i ==> values@[j] == FloatBits::Double(raw@[j]),
                decreases raw@.len() - i,
            {
                values.push(FloatBits::Double(raw[i]));
                i = i + 1;
            }
            proof {
                assert forall|k: int| 0 <= k < values@.len() implies values@[k]
                    == FloatBits::Double(expected[k] as u64) by {
                    assert(values@[k] == FloatBits::Double(raw@[k]));
                    assert(raw@[k] == self.element(*entry, 8, bytes, k as nat));
                }
                assert(values@ =~= self.float_bits(*entry, bytes)->Some_0);
            }
            return Ok(values);
        }
        if entry.field_type == field_types::FLOAT {
            let raw = match self.read_raw(reader, entry, 4) {
                Ok(raw) => raw,
                Err(e) => {
                    return Err(e);
                },
            };
            let ghost expected = self.values(*entry, 4, bytes)->Some_0;
            let mut i: usize = 0;
            proof {
                ByteOrder::lemma_weights();
            }
            while i < raw.len()
                invariant
                    i <= raw@.len(),
                    values@.len() == i,
                    forall|j: int| 0 <= j < raw@.len() ==> raw@[j] < 0x1_0000_0000,
                    forall|j: int|
                        #![trigger values@[j]]
                        0 <= j < i ==> values@[j] == FloatBits::Single(raw@[j] as u32),
                decreases raw@.len() - i,
            {
                values.push(FloatBits::Single(raw[i] as u32));
                i = i + 1;
            }
            proof {
                assert forall|k: int| 0 <= k < values@.len() implies values@[k]
                    == FloatBits::Single(expected[k] as u32) by {
                    assert(values@[k] == FloatBits::Single(raw@[k] as u32));
                    assert(raw@[k] == self.element(*entry, 4, bytes, k as nat));
                }
                assert(values@ =~= self.float_bits(*entry, bytes)->Some_0);
            }
            return Ok(values);
        }
        if entry.count > 0 {
            return Err(Error::InvalidFormat("Expected DOUBLE or FLOAT type".to_string()));
        }
        assert(values@ =~= self.float_bits(*entry, bytes)->Some_0);
        assert(entry.spec_is_inline(self.is_big_tiff)) by {
            assert(IFDEntry::type_size(entry.field_type) * 0 == 0);
        }
        Ok(values)
    }
}

/// The text that `String::from_utf8_lossy` makes of bytes: their characters
/// where they are UTF-8, with U+FFFD in place of what is not.
pub uninterp spec fn utf8_lossy(bytes: Seq<u8>) -> Seq<char>;

/// `String::from_utf8_lossy`, made into an owned `String`. ASCII bytes are
/// UTF-8 of one byte per character, so they come out as they are.
#[verifier::external_body]
fn lossy_text(bytes: &[u8]) -> (s: String)
    ensures
        s@ == utf8_lossy(bytes@),
        TagReader::is_ascii(bytes@) ==> s@ == TagReader::ascii_text(bytes@),
{
    String::from_utf8_lossy(bytes).into_owned()
}

} // verus!

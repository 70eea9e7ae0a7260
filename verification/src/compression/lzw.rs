//! LZW decompression
//!
//! LZW (Lempel-Ziv-Welch) is a lossless compression algorithm used in TIFF
//! files. The stream is a sequence of codes of 9 to 12 bits. Codes below 256
//! stand for single bytes, 256 clears the table, 257 ends the stream, and
//! each later code stands for an entry that the decoder has added to its
//! table. Bits are taken from each byte starting at its least significant
//! bit.

use vstd::prelude::*;
use vstd::slice::slice_to_vec;
use crate::error::Error;
use crate::text::{concat, format_u64};

verus! {

/// `2^k`.
pub open spec fn two_to(k: nat) -> nat
    decreases k,
{
    if k == 0 {
        1
    } else {
        2 * two_to((k - 1) as nat)
    }
}

/// Bit `j` of a byte stream: bit `j % 8` of byte `j / 8`, counted from the
/// least significant bit.
pub open spec fn stream_bit(data: Seq<u8>, j: nat) -> nat {
    ((data[(j / 8) as int] >> ((j % 8) as u8)) & 1) as nat
}

/// The code that the `count` bits from bit `pos` on spell, least
/// significant bit first.
pub open spec fn code_at(data: Seq<u8>, pos: nat, count: nat) -> nat
    decreases count,
{
    if count == 0 {
        0
    } else {
        code_at(data, pos, (count - 1) as nat) + stream_bit(data, pos + (count - 1) as nat)
            * two_to((count - 1) as nat)
    }
}

/// The code that clears the table.
pub const CLEAR: u16 = 256;

/// The code that ends the stream.
pub const END: u16 = 257;

/// `prefix` followed by `rest`, where there is a rest.
pub open spec fn joined(prefix: Seq<u8>, rest: Option<Seq<u8>>) -> Option<Seq<u8>> {
    match rest {
        Some(r) => Some(prefix + r),
        None => None,
    }
}

/// The state of a decoder between two codes.
pub struct LzwState {
    /// The entries added since the last clear: entry `i` belongs to code
    /// `258 + i`.
    pub added: Seq<Seq<u8>>,
    /// The width of the next code in bits.
    pub code_size: nat,
    /// The code read last, unless the table was just cleared.
    pub previous: Option<nat>,
}

impl LzwState {
    /// The state at the start of a stream and after a clear code.
    pub open spec fn initial() -> LzwState {
        LzwState { added: Seq::empty(), code_size: 9, previous: None }
    }

    /// The code that the next entry will get.
    pub open spec fn next_code(self) -> nat {
        258 + self.added.len()
    }

    /// The bytes that a code of the table stands for.
    pub open spec fn entry(self, code: nat) -> Option<Seq<u8>> {
        if code < 256 {
            Some(seq![code as u8])
        } else if 258 <= code < self.next_code() {
            Some(self.added[code - 258])
        } else {
            None
        }
    }

    /// The bytes that `code` (neither clear nor end) puts out in this state:
    /// its entry; or, for the code that the next entry will get, the previous
    /// entry followed by its own first byte; `None` for any other code.
    pub open spec fn emitted(self, code: nat) -> Option<Seq<u8>> {
        if self.entry(code) is Some {
            self.entry(code)
        } else if code == self.next_code() && self.previous is Some && self.entry(
            self.previous->Some_0,
        ) is Some {
            let prev = self.entry(self.previous->Some_0)->Some_0;
            Some(prev.push(prev[0]))
        } else {
            None
        }
    }

    /// The state after `code` has put out `out`: where there was a previous
    /// code and the table has room (fewer than 4096 codes), the previous entry
    /// followed by the first byte of `out` is added; the code width grows by
    /// one bit, up to twelve, when the next code reaches `2^code_size`.
    pub open spec fn step(self, code: nat, out: Seq<u8>) -> LzwState {
        if self.previous is Some && self.entry(self.previous->Some_0) is Some {
            let prev = self.entry(self.previous->Some_0)->Some_0;
            let added = if self.next_code() < 4096 {
                self.added.push(prev.push(out[0]))
            } else {
                self.added
            };
            let code_size = if 258 + added.len() == two_to(self.code_size) && self.code_size
                < 12 {
                self.code_size + 1
            } else {
                self.code_size
            };
            LzwState { added, code_size, previous: Some(code) }
        } else {
            LzwState { added: self.added, code_size: self.code_size, previous: Some(code) }
        }
    }

    /// What a sequence of codes decodes to from this state on: `None` where
    /// a code has no meaning in the state it is met in.
    pub open spec fn decode_codes(self, codes: Seq<nat>) -> Option<Seq<u8>>
        decreases codes.len(),
    {
        if codes.len() == 0 {
            Some(Seq::empty())
        } else if codes[0] == END {
            Some(Seq::empty())
        } else if codes[0] == CLEAR {
            Self::initial().decode_codes(codes.skip(1))
        } else {
            match self.emitted(codes[0]) {
                None => None,
                Some(out) => joined(out, self.step(codes[0], out).decode_codes(codes.skip(1))),
            }
        }
    }

    /// The state and the output after all of `codes`: `None` where a code has
    /// no meaning, or the end code is among them.
    pub open spec fn run_codes(self, codes: Seq<nat>) -> Option<(LzwState, Seq<u8>)>
        decreases codes.len(),
    {
        if codes.len() == 0 {
            Some((self, Seq::empty()))
        } else if codes[0] == END {
            None
        } else if codes[0] == CLEAR {
            Self::initial().run_codes(codes.skip(1))
        } else {
            match self.emitted(codes[0]) {
                None => None,
                Some(out) => match self.step(codes[0], out).run_codes(codes.skip(1)) {
                    None => None,
                    Some((state, rest)) => Some((state, out + rest)),
                },
            }
        }
    }

    /// The codes of the stream `data` from bit `pos` on, read at the widths
    /// that the decoder has when it meets them. The sequence ends with the end
    /// code, with the first code that has no meaning, or where fewer bits are
    /// left than a code takes.
    pub open spec fn codes_from(self, data: Seq<u8>, pos: nat) -> Seq<nat>
        decreases 8 * data.len() - pos,
    {
        if self.code_size == 0 || pos + self.code_size > 8 * data.len() {
            Seq::empty()
        } else {
            let code = code_at(data, pos, self.code_size);
            let next = pos + self.code_size;
            if code == END {
                seq![code]
            } else if code == CLEAR {
                seq![code] + Self::initial().codes_from(data, next)
            } else {
                match self.emitted(code) {
                    None => seq![code],
                    Some(out) => seq![code] + self.step(code, out).codes_from(data, next),
                }
            }
        }
    }

    /// What the stream `data` decodes to from bit `pos` on.
    pub open spec fn decode_from(self, data: Seq<u8>, pos: nat) -> Option<Seq<u8>> {
        self.decode_codes(self.codes_from(data, pos))
    }

    /// Decoding codes that are all below 256 gives the bytes they name, in
    /// any state.
    pub proof fn lemma_literals(self, codes: Seq<nat>)
        requires
            forall|i: int| 0 <= i < codes.len() ==> codes[i] < 256,
        ensures
            self.decode_codes(codes) == Some(Seq::new(codes.len(), |i: int| codes[i] as u8)),
        decreases codes.len(),
    {
        let bytes = Seq::new(codes.len(), |i: int| codes[i] as u8);
        if codes.len() == 0 {
            assert(bytes =~= Seq::<u8>::empty());
        } else {
            let out = seq![codes[0] as u8];
            let rest = codes.skip(1);
            assert(self.emitted(codes[0]) == Some(out));
            self.step(codes[0], out).lemma_literals(rest);
            let rest_bytes = Seq::new(rest.len(), |i: int| rest[i] as u8);
            assert(out + rest_bytes =~= bytes);
        }
    }

    /// Decoding `codes` followed by `more` is decoding `codes`, then `more`
    /// from the state that `codes` leaves.
    pub proof fn lemma_append(self, codes: Seq<nat>, more: Seq<nat>)
        requires
            self.run_codes(codes) is Some,
        ensures
            self.decode_codes(codes + more) == joined(
                self.run_codes(codes)->Some_0.1,
                self.run_codes(codes)->Some_0.0.decode_codes(more),
            ),
        decreases codes.len(),
    {
        let (state, out) = self.run_codes(codes)->Some_0;
        if codes.len() == 0 {
            assert(codes + more =~= more);
            match self.decode_codes(more) {
                Some(r) => {
                    assert(out + r =~= r);
                },
                None => {},
            }
        } else {
            let all = codes + more;
            assert(all[0] == codes[0]);
            assert(all.skip(1) =~= codes.skip(1) + more);
            if codes[0] == CLEAR {
                Self::initial().lemma_append(codes.skip(1), more);
            } else {
                let first = self.emitted(codes[0])->Some_0;
                let then = self.step(codes[0], first);
                then.lemma_append(codes.skip(1), more);
                let (_, rest) = then.run_codes(codes.skip(1))->Some_0;
                match state.decode_codes(more) {
                    Some(r) => {
                        assert(first + (rest + r) =~= (first + rest) + r);
                    },
                    None => {},
                }
            }
        }
    }

    /// A stream that clears the table before a run of single-byte codes
    /// decodes to the same bytes as the stream without that clear code.
    pub proof fn lemma_clear_before_literals(self, codes: Seq<nat>, literals: Seq<nat>)
        requires
            self.run_codes(codes) is Some,
            forall|i: int| 0 <= i < literals.len() ==> literals[i] < 256,
        ensures
            self.decode_codes(codes + seq![CLEAR as nat] + literals) == self.decode_codes(
                codes + literals,
            ),
    {
        let (state, out) = self.run_codes(codes)->Some_0;
        let cleared = seq![CLEAR as nat] + literals;
        assert(codes + seq![CLEAR as nat] + literals =~= codes + cleared);
        self.lemma_append(codes, cleared);
        self.lemma_append(codes, literals);
        assert(cleared.skip(1) =~= literals);
        Self::initial().lemma_literals(literals);
        state.lemma_literals(literals);
    }

    /// How decoding goes on past one code of the stream.
    pub proof fn lemma_decode_step(self, data: Seq<u8>, pos: nat)
        requires
            self.code_size > 0,
            pos + self.code_size <= 8 * data.len(),
        ensures
            self.decode_from(data, pos) == ({
                let code = code_at(data, pos, self.code_size);
                let next = pos + self.code_size;
                if code == END {
                    Some(Seq::empty())
                } else if code == CLEAR {
                    Self::initial().decode_from(data, next)
                } else {
                    match self.emitted(code) {
                        None => None,
                        Some(out) => joined(out, self.step(code, out).decode_from(data, next)),
                    }
                }
            }),
    {
        let code = code_at(data, pos, self.code_size);
        let next = pos + self.code_size;
        let codes = self.codes_from(data, pos);
        assert(codes[0] == code);
        if code == END {
        } else if code == CLEAR {
            assert(codes.skip(1) =~= Self::initial().codes_from(data, next));
        } else {
            match self.emitted(code) {
                None => {
                    assert(codes =~= seq![code]);
                },
                Some(out) => {
                    assert(codes.skip(1) =~= self.step(code, out).codes_from(data, next));
                },
            }
        }
    }

    /// Where fewer bits are left than a code takes, nothing more is decoded.
    pub proof fn lemma_decode_end(self, data: Seq<u8>, pos: nat)
        requires
            pos + self.code_size > 8 * data.len(),
        ensures
            self.decode_from(data, pos) == Some(Seq::<u8>::empty()),
    {
    }

    /// After a clear code the rest of a stream decodes as a stream of its
    /// own: what the table held before does not matter.
    pub proof fn lemma_clear_resets(self, codes: Seq<nat>, more: Seq<nat>)
        requires
            self.run_codes(codes) is Some,
        ensures
            self.decode_codes(codes + seq![CLEAR as nat] + more) == joined(
                self.run_codes(codes)->Some_0.1,
                Self::initial().decode_codes(more),
            ),
    {
        let cleared = seq![CLEAR as nat] + more;
        assert(codes + seq![CLEAR as nat] + more =~= codes + cleared);
        self.lemma_append(codes, cleared);
        assert(cleared.skip(1) =~= more);
    }
}

/// What an LZW stream decodes to: `None` where a code has no meaning in the
/// state it is met in.
pub open spec fn decoded(data: Seq<u8>) -> Option<Seq<u8>> {
    LzwState::initial().decode_from(data, 0)
}

/// The first seventeen powers of two.
pub proof fn lemma_two_to()
    ensures
        two_to(0) == 1,
        two_to(1) == 2,
        two_to(2) == 4,
        two_to(3) == 8,
        two_to(4) == 16,
        two_to(5) == 32,
        two_to(6) == 64,
        two_to(7) == 128,
        two_to(8) == 256,
        two_to(9) == 512,
        two_to(10) == 1024,
        two_to(11) == 2048,
        two_to(12) == 4096,
        two_to(13) == 8192,
        two_to(14) == 16384,
        two_to(15) == 32768,
        two_to(16) == 65536,
{
    reveal_with_fuel(two_to, 18);
}

/// A code of `count` bits is below `2^count`.
pub proof fn lemma_code_bound(data: Seq<u8>, pos: nat, count: nat)
    ensures
        code_at(data, pos, count) < two_to(count),
    decreases count,
{
    if count > 0 {
        lemma_code_bound(data, pos, (count - 1) as nat);
        let b = data[((pos + count - 1) / 8) as int];
        let o = ((pos + count - 1) % 8) as u8;
        assert((b >> o) & 1 <= 1) by (bit_vector);
        let bit = stream_bit(data, pos + (count - 1) as nat);
        let w = two_to((count - 1) as nat);
        assert(bit * w <= w) by (nonlinear_arith)
            requires
                bit <= 1,
        ;
    }
}

/// Decompresses LZW compressed data. A stream that holds a code without
/// meaning is rejected as `InvalidFormat`; a stream may end without an end
/// code.
pub fn decompress(data: &[u8]) -> (r: Result<Vec<u8>, Error>)
    ensures
        r matches Ok(out) ==> decoded(data@) == Some(out@),
        r matches Err(e) ==> decoded(data@) is None && e is InvalidFormat,
{
    let mut decoder = LzwDecoder::new();
    decoder.decode(data)
}

/// LZW decoder: the table of a stream that is being decoded.
pub struct LzwDecoder {
    dictionary: Vec<Vec<u8>>,
    next_code: usize,
}

impl LzwDecoder {
    /// The table holds the 256 single-byte entries, then the added ones, and
    /// no empty entry; the next code is two ahead of its length.
    pub closed spec fn wf(&self) -> bool {
        &&& self.dictionary@.len() >= 256
        &&& self.next_code == self.dictionary@.len() + 2
        &&& self.next_code <= 4096
        &&& forall|i: int| 0 <= i < 256 ==> (#[trigger] self.dictionary@[i])@ == seq![i as u8]
        &&& forall|i: int|
            0 <= i < self.dictionary@.len() ==> (#[trigger] self.dictionary@[i])@.len() >= 1
    }

    /// The entries added since the table was last cleared.
    pub closed spec fn added(&self) -> Seq<Seq<u8>> {
        Seq::new((self.dictionary@.len() - 256) as nat, |i: int| self.dictionary@[256 + i]@)
    }

    /// This table with a code width and a previous code.
    pub open spec fn state(&self, code_size: nat, previous: Option<u16>) -> LzwState {
        LzwState {
            added: self.added(),
            code_size,
            previous: match previous {
                Some(p) => Some(p as nat),
                None => None,
            },
        }
    }

    /// A decoder with the table of a fresh stream.
    pub fn new() -> (d: Self)
        ensures
            d.wf(),
            d.added() == Seq::<Seq<u8>>::empty(),
    {
        let mut dictionary: Vec<Vec<u8>> = Vec::with_capacity(4096);
        let mut i: usize = 0;
        while i < 256
            invariant
                i <= 256,
                dictionary@.len() == i,
                forall|j: int| 0 <= j < i ==> (#[trigger] dictionary@[j])@ == seq![j as u8],
            decreases 256 - i,
        {
            let mut entry: Vec<u8> = Vec::new();
            entry.push(i as u8);
            assert(entry@ =~= seq![i as u8]);
            dictionary.push(entry);
            i = i + 1;
        }
        let d = Self { dictionary, next_code: 258 };
        assert(d.added() =~= Seq::<Seq<u8>>::empty());
        d
    }

    /// The number of entries in the table.
    pub fn dictionary_len(&self) -> (n: usize)
        requires
            self.wf(),
        ensures
            n == 256 + self.added().len(),
    {
        self.dictionary.len()
    }

    /// The code that the next entry will get.
    pub fn next_code(&self) -> (n: usize)
        requires
            self.wf(),
        ensures
            n == 258 + self.added().len(),
    {
        self.next_code
    }

    fn decode(&mut self, data: &[u8]) -> (r: Result<Vec<u8>, Error>)
        requires
            old(self).wf(),
        ensures
            final(self).wf(),
            r matches Ok(out) ==> old(self).state(9, None).decode_from(data@, 0) == Some(out@),
            r matches Err(e) ==> old(self).state(9, None).decode_from(data@, 0) is None
                && e is InvalidFormat,
    {
        let mut output: Vec<u8> = Vec::new();
        let mut reader = BitReader::new(data);
        let mut code_size: u8 = 9;
        let mut previous_code: Option<u16> = None;
        let ghost start = self.state(9, None);
        proof {
            match start.decode_from(data@, 0) {
                Some(r) => {
                    assert(output@ + r =~= r);
                },
                None => {},
            }
        }
        loop
            invariant
                self.wf(),
                start == old(self).state(9, None),
                9 <= code_size <= 12,
                reader.stream() == data@,
                reader.position() <= 8 * data@.len(),
                previous_code is Some ==> self.state(code_size as nat, previous_code).entry(
                    previous_code->Some_0 as nat,
                ) is Some,
                start.decode_from(data@, 0) == joined(
                    output@,
                    self.state(code_size as nat, previous_code).decode_from(
                        data@,
                        reader.position(),
                    ),
                ),
            decreases 8 * data@.len() - reader.position(),
        {
            let ghost state = self.state(code_size as nat, previous_code);
            let ghost pos = reader.position();
            let ghost before = output@;
            let code: u16 = match reader.read_bits(code_size) {
                Some(code) => code,
                None => {
                    proof {
                        state.lemma_decode_end(data@, pos);
                        assert(output@ + Seq::<u8>::empty() =~= output@);
                    }
                    return Ok(output);
                },
            };
            proof {
                state.lemma_decode_step(data@, pos);
                lemma_code_bound(data@, pos, code_size as nat);
                lemma_two_to();
            }
            if code == END {
                proof {
                    assert(output@ + Seq::<u8>::empty() =~= output@);
                }
                return Ok(output);
            }
            if code == CLEAR {
                self.reset();
                code_size = 9;
                previous_code = None;
                continue ;
            }
            let entry = match self.get_entry(code as usize, previous_code) {
                Ok(entry) => entry,
                Err(e) => {
                    return Err(e);
                },
            };
            append_all(&mut output, &entry);
            if let Some(prev) = previous_code {
                self.add_entry(prev as usize, entry[0]);
                if self.next_code == code_limit(code_size) && code_size < 12 {
                    code_size = code_size + 1;
                }
            }
            previous_code = Some(code);
            proof {
                let after = self.state(code_size as nat, previous_code);
                assert(after == state.step(code as nat, entry@));
                match after.decode_from(data@, reader.position()) {
                    Some(r) => {
                        assert(before + (entry@ + r) =~= output@ + r);
                    },
                    None => {},
                }
            }
        }
    }

    /// The place in the table of a code that has an entry.
    fn slot(code: usize) -> (i: usize)
        requires
            code < 256 || code >= 258,
        ensures
            i == if code < 256 {
                code as int
            } else {
                code - 2
            },
    {
        if code < 256 {
            code
        } else {
            code - 2
        }
    }

    fn get_entry(&self, code: usize, previous: Option<u16>) -> (r: Result<Vec<u8>, Error>)
        requires
            self.wf(),
            previous is Some ==> self.state(0, previous).entry(previous->Some_0 as nat) is Some,
        ensures
            r matches Ok(entry) ==> self.state(0, previous).emitted(code as nat) == Some(entry@),
            r matches Err(e) ==> self.state(0, previous).emitted(code as nat) is None
                && e is InvalidFormat,
    {
        let ghost state = self.state(0, previous);
        if code < 256 || (code >= 258 && code < self.next_code) {
            let i = Self::slot(code);
            let entry = slice_to_vec(self.dictionary[i].as_slice());
            assert(state.entry(code as nat) == Some(entry@));
            Ok(entry)
        } else if code == self.next_code {
            if let Some(prev) = previous {
                let i = Self::slot(prev as usize);
                let mut entry = slice_to_vec(self.dictionary[i].as_slice());
                let first = entry[0];
                entry.push(first);
                Ok(entry)
            } else {
                Err(Error::InvalidFormat("Invalid LZW sequence".to_string()))
            }
        } else {
            Err(
                Error::InvalidFormat(
                    concat("Invalid LZW code: ", format_u64(code as u64).as_str()),
                ),
            )
        }
    }

    fn add_entry(&mut self, previous_code: usize, first_byte: u8)
        requires
            old(self).wf(),
            old(self).state(0, None).entry(previous_code as nat) is Some,
        ensures
            final(self).wf(),
            final(self).added() == if 258 + old(self).added().len() < 4096 {
                old(self).added().push(
                    old(self).state(0, None).entry(previous_code as nat)->Some_0.push(first_byte),
                )
            } else {
                old(self).added()
            },
    {
        if self.next_code < 4096 {
            let i = Self::slot(previous_code);
            let mut entry = slice_to_vec(self.dictionary[i].as_slice());
            entry.push(first_byte);
            self.dictionary.push(entry);
            self.next_code = self.next_code + 1;
            proof {
                assert(self.added() =~= old(self).added().push(entry@));
            }
        }
    }

    fn reset(&mut self)
        requires
            old(self).wf(),
        ensures
            final(self).wf(),
            final(self).added() == Seq::<Seq<u8>>::empty(),
    {
        self.dictionary.truncate(256);
        self.next_code = 258;
        assert(self.added() =~= Seq::<Seq<u8>>::empty());
    }
}

/// The largest code of a width plus one.
fn code_limit(code_size: u8) -> (n: usize)
    requires
        9 <= code_size <= 12,
    ensures
        n == two_to(code_size as nat),
{
    proof {
        lemma_two_to();
    }
    if code_size == 9 {
        512
    } else if code_size == 10 {
        1024
    } else if code_size == 11 {
        2048
    } else {
        4096
    }
}

/// Appends `bytes` to `output`.
fn append_all(output: &mut Vec<u8>, bytes: &Vec<u8>)
    ensures
        final(output)@ == old(output)@ + bytes@,
{
    let mut i: usize = 0;
    assert(output@ =~= old(output)@ + bytes@.subrange(0, 0));
    while i < bytes.len()
        invariant
            i <= bytes@.len(),
            output@ == old(output)@ + bytes@.subrange(0, i as int),
        decreases bytes@.len() - i,
    {
        output.push(bytes[i]);
        i = i + 1;
        assert(output@ =~= old(output)@ + bytes@.subrange(0, i as int));
    }
    assert(bytes@.subrange(0, bytes@.len() as int) =~= bytes@);
}

/// Reads variable-length bit codes from byte stream
pub struct BitReader<'a> {
    data: &'a [u8],
    byte_index: usize,
    bit_offset: u8,
}

impl<'a> BitReader<'a> {
    #[verifier::type_invariant]
    spec fn well_formed(self) -> bool {
        &&& self.byte_index <= self.data@.len()
        &&& self.bit_offset < 8
        &&& self.byte_index == self.data@.len() ==> self.bit_offset == 0
    }

    /// The bytes that are read from.
    pub closed spec fn stream(&self) -> Seq<u8> {
        self.data@
    }

    /// The number of bits read so far.
    pub closed spec fn position(&self) -> nat {
        (8 * self.byte_index + self.bit_offset) as nat
    }

    /// A reader at the first bit of `data`.
    pub fn new(data: &'a [u8]) -> (r: Self)
        ensures
            r.stream() == data@,
            r.position() == 0,
    {
        Self { data, byte_index: 0, bit_offset: 0 }
    }

    /// Reads the next `count` bits as one code, least significant bit first.
    /// Gives `None` for a count of zero or above sixteen, and where fewer
    /// than `count` bits are left: then the reader moves to the end.
    pub fn read_bits(&mut self, count: u8) -> (r: Option<u16>)
        ensures
            final(self).stream() == old(self).stream(),
            count == 0 || count > 16 ==> r is None && final(self).position() == old(
                self,
            ).position(),
            1 <= count <= 16 && old(self).position() + count <= 8 * old(self).stream().len() ==> {
                &&& r == Some(code_at(old(self).stream(), old(self).position(), count as nat) as u16)
                &&& code_at(old(self).stream(), old(self).position(), count as nat) <= u16::MAX
                &&& final(self).position() == old(self).position() + count
            },
            1 <= count <= 16 && old(self).position() + count > 8 * old(self).stream().len() ==> {
                &&& r is None
                &&& final(self).position() == 8 * old(self).stream().len()
            },
    {
        proof {
            use_type_invariant(&*self);
        }
        if count > 16 || count == 0 {
            return None;
        }
        let ghost start = self.position();
        let mut byte_index: usize = self.byte_index;
        let mut bit_offset: u8 = self.bit_offset;
        let mut result: u32 = 0;
        let mut weight: u32 = 1;
        let mut bits_read: u8 = 0;
        while bits_read < count
            invariant
                bits_read <= count <= 16,
                byte_index <= self.data@.len(),
                bit_offset < 8,
                byte_index == self.data@.len() ==> bit_offset == 0,
                8 * byte_index + bit_offset == start + bits_read,
                weight == two_to(bits_read as nat),
                result == code_at(self.data@, start, bits_read as nat),
                result < weight,
                self.data@ == old(self).data@,
                start == old(self).position(),
            decreases count - bits_read,
        {
            proof {
                lemma_two_to();
            }
            if byte_index >= self.data.len() {
                *self = BitReader { data: self.data, byte_index, bit_offset };
                return None;
            }
            let byte: u8 = self.data[byte_index];
            let bit: u8 = (byte >> bit_offset) & 1;
            proof {
                assert((byte >> bit_offset) & 1 <= 1) by (bit_vector);
                assert((start + bits_read) / 8 == byte_index);
                assert((start + bits_read) % 8 == bit_offset);
                assert(bit as nat == stream_bit(self.data@, start + bits_read as nat));
                assert(bit as nat * weight <= weight) by (nonlinear_arith)
                    requires
                        bit <= 1,
                ;
            }
            result = result + bit as u32 * weight;
            weight = weight * 2;
            bits_read = bits_read + 1;
            bit_offset = bit_offset + 1;
            if bit_offset >= 8 {
                bit_offset = 0;
                byte_index = byte_index + 1;
            }
        }
        proof {
            lemma_two_to();
            lemma_code_bound(self.data@, start, count as nat);
        }
        *self = BitReader { data: self.data, byte_index, bit_offset };
        Some(result as u16)
    }
}

} // verus!

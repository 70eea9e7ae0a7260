//! The horizontal differencing predictor.
//!
//! A tile that was stored with the predictor holds, in each row, the first
//! sample as it is and every later sample as its difference to the sample
//! before it. Undoing the predictor adds the samples of a row up again, modulo
//! 256.

use vstd::prelude::*;

verus! {

/// Sample `i` of `data` after the predictor is undone in rows of `width`
/// samples: the sum, modulo 256, of the stored samples from the start of its
/// row up to it.
pub open spec fn restored_at(data: Seq<u8>, width: nat, i: nat) -> u8
    decreases i,
{
    if width == 0 || i % width == 0 || i == 0 {
        data[i as int]
    } else {
        ((restored_at(data, width, (i - 1) as nat) + data[i as int]) % 256) as u8
    }
}

/// `data` after the predictor is undone in its first `height` rows of
/// `width` samples. Samples behind those rows stay as they are.
pub open spec fn restored(data: Seq<u8>, width: nat, height: nat) -> Seq<u8> {
    Seq::new(
        data.len(),
        |i: int|
            if i < width * height {
                restored_at(data, width, i as nat)
            } else {
                data[i]
            },
    )
}

/// Row-wise differences of `data`, modulo 256, in its first `height` rows of
/// `width` samples: what an encoder stores. Samples behind those rows stay
/// as they are.
pub open spec fn differenced(data: Seq<u8>, width: nat, height: nat) -> Seq<u8> {
    Seq::new(
        data.len(),
        |i: int|
            if width == 0 || i % (width as int) == 0 || i == 0 || i >= width * height {
                data[i]
            } else {
                ((data[i] - data[i - 1]) % 256) as u8
            },
    )
}

/// Undoing the predictor on the differences of a sample gives the sample.
pub proof fn lemma_restored_at_differenced(data: Seq<u8>, width: nat, height: nat, i: nat)
    requires
        i < data.len(),
        i < width * height,
    ensures
        restored_at(differenced(data, width, height), width, i) == data[i as int],
    decreases i,
{
    if width == 0 || i % width == 0 || i == 0 {
    } else {
        lemma_restored_at_differenced(data, width, height, (i - 1) as nat);
        let a = data[i - 1] as int;
        let b = data[i as int] as int;
        assert((a + (b - a) % 256) % 256 == b) by {
            if b >= a {
                assert((b - a) % 256 == b - a);
            } else {
                assert((b - a) % 256 == b - a + 256);
            }
        }
    }
}

/// Undoing the predictor on the row-wise differences of `data` gives `data`
/// back.
pub proof fn lemma_predictor_inverse(data: Seq<u8>, width: nat, height: nat)
    ensures
        restored(differenced(data, width, height), width, height) == data,
{
    let stored = differenced(data, width, height);
    assert forall|i: int| 0 <= i < data.len() implies restored(stored, width, height)[i]
        == data[i] by {
        if i < width * height {
            lemma_restored_at_differenced(data, width, height, i as nat);
        }
    }
    assert(restored(stored, width, height) =~= data);
}

/// Apply horizontal differencing predictor: in each of the first `height`
/// rows of `width` samples, every sample but the first becomes its sum with
/// the sample before it, modulo 256.
pub fn apply_horizontal_predictor(data: &mut [u8], width: usize, height: usize)
    ensures
        final(data)@ == restored(old(data)@, width as nat, height as nat),
{
    let len: usize = data.len();
    let ghost stored = data@;
    if width == 0 {
        assert(data@ =~= restored(stored, 0, height as nat));
        return ;
    }
    let mut row: usize = 0;
    let mut start: usize = 0;
    while row < height && start < len
        invariant
            width > 0,
            len == data@.len(),
            len == stored.len(),
            row <= height,
            start == row * width || (start == len && row * width >= len),
            start <= len,
            forall|i: int| 0 <= i < start ==> data@[i] == restored_at(stored, width as nat, i as nat),
            forall|i: int| start <= i < len ==> data@[i] == stored[i],
        decreases height - row,
    {
        let end: usize = if width < len - start {
            start + width
        } else {
            len
        };
        proof {
            assert(start % width == 0) by (nonlinear_arith)
                requires
                    start == row * width,
                    width > 0,
            ;
        }
        let mut i: usize = start + 1;
        while i < end
            invariant
                width > 0,
                len == data@.len(),
                len == stored.len(),
                start == row * width,
                start < len,
                start + 1 <= i,
                i <= end || end == start,
                end <= len,
                end <= start + width,
                forall|j: int|
                    0 <= j < i && j < len ==> data@[j] == restored_at(
                        stored,
                        width as nat,
                        j as nat,
                    ),
                forall|j: int| i <= j < len ==> data@[j] == stored[j],
            decreases end - i,
        {
            proof {
                // i lies strictly inside the row that starts at `start`
                assert(i % width != 0) by (nonlinear_arith)
                    requires
                        start == row * width,
                        start < i < start + width,
                        width > 0,
                ;
            }
            data[i] = data[i].wrapping_add(data[i - 1]);
            i = i + 1;
        }
        row = row + 1;
        proof {
            assert(row * width == start + width) by (nonlinear_arith)
                requires
                    start == (row - 1) * width,
            ;
        }
        start = end;
    }
    proof {
        let goal = restored(stored, width as nat, height as nat);
        assert forall|i: int| 0 <= i < len implies data@[i] == goal[i] by {
            if start == len {
                // every sample was restored; those behind the rows did not
                // exist
                if i >= width * height {
                    assert(row * width <= height * width) by (nonlinear_arith)
                        requires
                            row <= height,
                            width >= 0,
                    ;
                }
            } else {
                assert(row == height);
            }
        }
        assert(data@ =~= goal);
    }
}

} // verus!

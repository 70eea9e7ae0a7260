//! Tile prefetching and access pattern prediction
//!
//! The tracker keeps the last eight tile indices that were read and predicts
//! up to sixteen tiles to read next: the tiles that follow when the history is
//! one run of consecutive indices; else the tiles that continue the last
//! stride when that stride is one tile or one row of tiles; else the tiles
//! around the last one.

use vstd::prelude::*;
use std::collections::VecDeque;

verus! {

/// Maximum history size for pattern detection
pub const HISTORY_SIZE: usize = 8;

/// Minimum pattern length to trigger prefetching
pub const MIN_PATTERN_LENGTH: usize = 3;

/// Access pattern tracker for intelligent prefetching
pub struct AccessPattern {
    history: VecDeque<usize>,
    tiles_per_row: usize,
}

impl AccessPattern {
    /// The tile indices that were recorded, the latest last.
    pub closed spec fn history(&self) -> Seq<usize> {
        self.history@
    }

    /// The number of tiles in one row of tiles.
    pub closed spec fn row_length(&self) -> nat {
        self.tiles_per_row as nat
    }

    /// Whether every index is the one before it plus one.
    pub open spec fn is_run(history: Seq<usize>) -> bool {
        forall|i: int| 1 <= i < history.len() ==> #[trigger] history[i] == history[i - 1] + 1
    }

    /// The sixteen indices after `last` at distance `step` from one another.
    pub open spec fn ahead(last: int, step: int) -> Seq<int> {
        Seq::new(16, |i: int| last + (i + 1) * step)
    }

    /// The first `k` places of the four by four block of tiles that starts
    /// at `last`, row by row, without `last` itself and without the tiles
    /// that would lie beyond the end of its row.
    pub open spec fn around(last: int, row_length: int, k: nat) -> Seq<int>
        decreases k,
    {
        if k == 0 {
            Seq::empty()
        } else {
            let j = (k - 1) as int;
            let dy = j / 4;
            let dx = j % 4;
            let before = Self::around(last, row_length, (k - 1) as nat);
            if j != 0 && last % row_length + dx < row_length {
                before.push(last + dy * row_length + dx)
            } else {
                before
            }
        }
    }

    /// The tiles to fetch ahead after `history`.
    pub open spec fn predicted(history: Seq<usize>, row_length: int) -> Seq<int> {
        if history.len() < MIN_PATTERN_LENGTH {
            Seq::empty()
        } else {
            let last = history.last() as int;
            let stride = last - history[history.len() - 2];
            if Self::is_run(history) {
                Self::ahead(last, 1)
            } else if stride == 1 {
                Self::ahead(last, 1)
            } else if stride > 0 && stride == row_length {
                Self::ahead(last, row_length)
            } else {
                Self::around(last, row_length, 16)
            }
        }
    }

    /// The tiles to fetch ahead after the history of this tracker.
    pub open spec fn forecast(&self) -> Seq<usize> {
        Seq::new(
            Self::predicted(self.history(), self.row_length() as int).len(),
            |i: int| Self::predicted(self.history(), self.row_length() as int)[i] as usize,
        )
    }

    /// Whether the tiles to fetch ahead after `history` are those around the
    /// tile recorded last.
    pub open spec fn asks_around(history: Seq<usize>, row_length: int) -> bool {
        let last = history.last() as int;
        let stride = last - history[history.len() - 2];
        &&& history.len() >= MIN_PATTERN_LENGTH
        &&& !Self::is_run(history)
        &&& stride != 1
        &&& !(stride > 0 && stride == row_length)
    }

    /// What `predict_next` needs: the index of every tile that it predicts
    /// fits `usize`, and rows have at least one tile where the tiles around
    /// the last one are asked for.
    pub open spec fn can_predict(&self) -> bool {
        let row = self.row_length() as int;
        let tiles = Self::predicted(self.history(), row);
        &&& Self::asks_around(self.history(), row) ==> row > 0
        &&& forall|i: int| 0 <= i < tiles.len() ==> #[trigger] tiles[i] <= usize::MAX
    }

    /// Whether every tile around `last` has an index that fits `usize`.
    pub open spec fn around_fits(last: int, row_length: int) -> bool {
        forall|i: int|
            0 <= i < Self::around(last, row_length, 16).len() ==> #[trigger] Self::around(
                last,
                row_length,
                16,
            )[i] <= usize::MAX
    }

    /// The first places of the block around a tile give the first of the
    /// tiles around it.
    pub proof fn lemma_around_grows(last: int, row_length: int, k: nat, m: nat)
        requires
            k <= m,
        ensures
            Self::around(last, row_length, k).len() <= Self::around(last, row_length, m).len(),
            forall|i: int|
                0 <= i < Self::around(last, row_length, k).len() ==> Self::around(
                    last,
                    row_length,
                    m,
                )[i] == #[trigger] Self::around(last, row_length, k)[i],
        decreases m,
    {
        if k < m {
            Self::lemma_around_grows(last, row_length, k, (m - 1) as nat);
        }
    }

    /// Creates a new access pattern tracker
    pub fn new(tiles_per_row: usize) -> (p: Self)
        ensures
            p.history() == Seq::<usize>::empty(),
            p.row_length() == tiles_per_row,
    {
        Self { history: VecDeque::with_capacity(HISTORY_SIZE), tiles_per_row }
    }

    /// Records a tile access. The history keeps the eight latest.
    pub fn record(&mut self, tile_index: usize)
        ensures
            final(self).row_length() == old(self).row_length(),
            final(self).history() == if old(self).history().len() >= HISTORY_SIZE {
                old(self).history().skip(1).push(tile_index)
            } else {
                old(self).history().push(tile_index)
            },
    {
        if self.history.len() >= HISTORY_SIZE {
            self.history.pop_front();
            assert(self.history@ =~= old(self).history@.skip(1));
        }
        self.history.push_back(tile_index);
    }

    /// Whether `predict_next` can be asked.
    pub fn predictable(&self) -> (b: bool)
        ensures
            b == self.can_predict(),
    {
        let n = self.history.len();
        if n < MIN_PATTERN_LENGTH {
            return true;
        }
        let last: usize = self.history[n - 1];
        let second_last: usize = self.history[n - 2];
        let ghost row = self.row_length() as int;
        let ghost tiles = Self::predicted(self.history(), row);
        if self.is_sequential() || (last > second_last && last - second_last == 1) {
            proof {
                assert(tiles == Self::ahead(last as int, 1));
                assert(tiles[15] == last + 16);
            }
            return last <= usize::MAX - 16;
        }
        if last > second_last && last - second_last == self.tiles_per_row {
            let room: usize = (usize::MAX - last) / 16;
            proof {
                let d = (usize::MAX - last) as int;
                assert(room * 16 <= d && (room + 1) * 16 > d) by {
                    vstd::arithmetic::div_mod::lemma_fundamental_div_mod(d, 16);
                }
                assert(tiles == Self::ahead(last as int, row));
                assert(tiles[15] == last + 16 * row);
                assert forall|i: int| 0 <= i < 16 implies tiles[i] <= last + 16 * row by {
                    assert((i + 1) * row <= 16 * row) by (nonlinear_arith)
                        requires
                            0 <= i < 16,
                            row >= 0,
                    ;
                }
            }
            return self.tiles_per_row <= room;
        }
        assert(Self::asks_around(self.history(), row));
        if self.tiles_per_row == 0 {
            return false;
        }
        Self::neighbors_fit(last, self.tiles_per_row)
    }

    /// Predicts which tiles should be prefetched
    pub fn predict_next(&self) -> (r: Vec<usize>)
        requires
            self.can_predict(),
        ensures
            r@.len() == Self::predicted(self.history(), self.row_length() as int).len(),
            forall|i: int|
                0 <= i < r@.len() ==> r@[i] == Self::predicted(
                    self.history(),
                    self.row_length() as int,
                )[i],
            r@ == self.forecast(),
    {
        if self.history.len() < MIN_PATTERN_LENGTH {
            let none: Vec<usize> = Vec::new();
            assert(none@ =~= self.forecast());
            return none;
        }
        let ghost row = self.row_length() as int;
        let ghost last = self.history().last() as int;
        let ghost tiles = Self::predicted(self.history(), row);
        proof {
            let stride = last - self.history()[self.history().len() - 2];
            if Self::is_run(self.history()) || stride == 1 {
                assert(tiles[15] == last + 16);
            } else if stride > 0 && stride == row {
                assert(tiles[15] == last + 16 * row);
            }
        }
        if let Some(tiles) = self.detect_sequential() {
            assert(tiles@ =~= self.forecast());
            return tiles;
        }
        if let Some(tiles) = self.detect_raster_scan() {
            assert(tiles@ =~= self.forecast());
            return tiles;
        }
        assert(Self::asks_around(self.history(), row));
        let tiles = self.detect_spatial_locality();
        assert(tiles@ =~= self.forecast());
        tiles
    }

    /// Whether the history is one run of consecutive indices.
    fn is_sequential(&self) -> (b: bool)
        ensures
            b == Self::is_run(self.history()),
    {
        let n = self.history.len();
        let mut i: usize = 1;
        while i < n
            invariant
                1 <= i || n == 0,
                i <= n || n == 0,
                n == self.history@.len(),
                forall|j: int| 1 <= j < i ==> #[trigger] self.history@[j] == self.history@[j - 1] + 1,
            decreases n - i,
        {
            let previous: usize = self.history[i - 1];
            if previous == usize::MAX || self.history[i] != previous + 1 {
                assert(self.history()[i as int] != self.history()[i - 1] + 1);
                return false;
            }
            i = i + 1;
        }
        true
    }

    /// Whether every tile around `last` has an index that fits `usize`.
    fn neighbors_fit(last: usize, row: usize) -> (b: bool)
        requires
            row > 0,
        ensures
            b == Self::around_fits(last as int, row as int),
    {
        let tile_x: usize = last % row;
        let mut k: usize = 0;
        while k < 16
            invariant
                k <= 16,
                row > 0,
                tile_x == last % row,
                forall|i: int|
                    0 <= i < Self::around(last as int, row as int, k as nat).len()
                        ==> #[trigger] Self::around(last as int, row as int, k as nat)[i]
                        <= usize::MAX,
            decreases 16 - k,
        {
            let dy: usize = k / 4;
            let dx: usize = k % 4;
            if k != 0 && dx < row - tile_x {
                assert(dy * row <= 3 * row) by (nonlinear_arith)
                    requires
                        dy <= 3,
                        row >= 1,
                ;
                let index: u128 = last as u128 + dy as u128 * row as u128 + dx as u128;
                if index > usize::MAX as u128 {
                    proof {
                        let next = Self::around(last as int, row as int, (k + 1) as nat);
                        let at = Self::around(last as int, row as int, k as nat).len() as int;
                        assert(next[at] == index);
                        Self::lemma_around_grows(last as int, row as int, (k + 1) as nat, 16);
                        assert(Self::around(last as int, row as int, 16)[at] == next[at]);
                    }
                    return false;
                }
            }
            proof {
                let before = Self::around(last as int, row as int, k as nat);
                let next = Self::around(last as int, row as int, (k + 1) as nat);
                assert forall|i: int| 0 <= i < next.len() implies #[trigger] next[i]
                    <= usize::MAX by {
                    if i < before.len() {
                        assert(next[i] == before[i]);
                    }
                }
            }
            k = k + 1;
        }
        true
    }

    /// The sixteen indices after `last` at distance `step`.
    fn run_ahead(last: usize, step: usize) -> (r: Vec<usize>)
        requires
            last + 16 * step <= usize::MAX,
        ensures
            r@.len() == 16,
            forall|i: int| 0 <= i < 16 ==> r@[i] == Self::ahead(last as int, step as int)[i],
    {
        let mut tiles: Vec<usize> = Vec::new();
        let mut i: usize = 1;
        while i <= 16
            invariant
                1 <= i <= 17,
                last + 16 * step <= usize::MAX,
                tiles@.len() == i - 1,
                forall|j: int| 0 <= j < i - 1 ==> tiles@[j] == last + (j + 1) * step,
            decreases 17 - i,
        {
            assert(i * step <= 16 * step) by (nonlinear_arith)
                requires
                    i <= 16,
                    step >= 0,
            ;
            tiles.push(last + i * step);
            i = i + 1;
        }
        tiles
    }

    /// Detects sequential access pattern (0, 1, 2, 3...)
    fn detect_sequential(&self) -> (r: Option<Vec<usize>>)
        requires
            self.history().len() >= MIN_PATTERN_LENGTH,
            Self::is_run(self.history()) ==> self.history().last() + 16 <= usize::MAX,
        ensures
            r is Some <==> Self::is_run(self.history()),
            r matches Some(tiles) ==> tiles@.len() == 16 && forall|i: int|
                0 <= i < 16 ==> tiles@[i] == Self::ahead(self.history().last() as int, 1)[i],
    {
        if !self.is_sequential() {
            return None;
        }
        let last: usize = self.history[self.history.len() - 1];
        Some(Self::run_ahead(last, 1))
    }

    /// Detects raster scan pattern (row by row)
    fn detect_raster_scan(&self) -> (r: Option<Vec<usize>>)
        requires
            self.history().len() >= MIN_PATTERN_LENGTH,
            ({
                let last = self.history().last() as int;
                let stride = last - self.history()[self.history().len() - 2];
                &&& stride == 1 ==> last + 16 <= usize::MAX
                &&& stride > 0 && stride == self.row_length() ==> last + 16 * self.row_length()
                    <= usize::MAX
            }),
        ensures
            ({
                let last = self.history().last() as int;
                let stride = last - self.history()[self.history().len() - 2];
                if stride == 1 {
                    r matches Some(tiles) && tiles@.len() == 16 && forall|i: int|
                        0 <= i < 16 ==> tiles@[i] == Self::ahead(last, 1)[i]
                } else if stride > 0 && stride == self.row_length() {
                    r matches Some(tiles) && tiles@.len() == 16 && forall|i: int|
                        0 <= i < 16 ==> tiles@[i] == Self::ahead(last, self.row_length() as int)[i]
                } else {
                    r is None
                }
            }),
    {
        let n = self.history.len();
        let last: usize = self.history[n - 1];
        let second_last: usize = self.history[n - 2];
        if last <= second_last {
            return None;
        }
        let diff: usize = last - second_last;
        if diff == 1 {
            return Some(Self::run_ahead(last, 1));
        }
        if diff == self.tiles_per_row {
            return Some(Self::run_ahead(last, self.tiles_per_row));
        }
        None
    }

    /// Predicts neighboring tiles based on spatial locality
    fn detect_spatial_locality(&self) -> (r: Vec<usize>)
        requires
            self.history().len() > 0,
            self.row_length() > 0,
            Self::around_fits(self.history().last() as int, self.row_length() as int),
        ensures
            r@.len() == Self::around(
                self.history().last() as int,
                self.row_length() as int,
                16,
            ).len(),
            forall|i: int|
                0 <= i < r@.len() ==> r@[i] == Self::around(
                    self.history().last() as int,
                    self.row_length() as int,
                    16,
                )[i],
    {
        let n = self.history.len();
        let last: usize = self.history[n - 1];
        let row: usize = self.tiles_per_row;
        let tile_x: usize = last % row;
        let mut neighbors: Vec<usize> = Vec::new();
        let mut k: usize = 0;
        while k < 16
            invariant
                k <= 16,
                row > 0,
                tile_x == last % row,
                Self::around_fits(last as int, row as int),
                neighbors@.len() == Self::around(last as int, row as int, k as nat).len(),
                forall|i: int|
                    0 <= i < neighbors@.len() ==> neighbors@[i] == Self::around(
                        last as int,
                        row as int,
                        k as nat,
                    )[i],
            decreases 16 - k,
        {
            let dy: usize = k / 4;
            let dx: usize = k % 4;
            // tile_x + dx < row, written so that the sum cannot overflow
            if k != 0 && dx < row - tile_x {
                proof {
                    let next = Self::around(last as int, row as int, (k + 1) as nat);
                    let at = Self::around(last as int, row as int, k as nat).len() as int;
                    assert(next[at] == last + dy * row + dx);
                    Self::lemma_around_grows(last as int, row as int, (k + 1) as nat, 16);
                    assert(Self::around(last as int, row as int, 16)[at] == next[at]);
                    assert(0 <= dy * row) by (nonlinear_arith)
                        requires
                            dy >= 0,
                            row >= 0,
                    ;
                }
                neighbors.push(last + dy * row + dx);
            }
            k = k + 1;
        }
        neighbors
    }
}

/// Configuration for prefetching behavior
pub struct PrefetchConfig {
    /// Enable prefetching
    pub enabled: bool,
    /// Maximum number of tiles to prefetch
    pub max_prefetch: usize,
    /// Enable spatial locality prefetching
    pub spatial: bool,
    /// Enable sequential pattern detection
    pub sequential: bool,
    /// Enable raster scan detection
    pub raster_scan: bool,
}

impl Default for PrefetchConfig {
    fn default() -> (c: Self)
        ensures
            c.enabled,
            c.max_prefetch == 8,
            c.spatial,
            c.sequential,
            c.raster_scan,
    {
        Self { enabled: true, max_prefetch: 8, spatial: true, sequential: true, raster_scan: true }
    }
}

impl PrefetchConfig {
    /// Creates a disabled prefetch configuration
    pub fn disabled() -> (c: Self)
        ensures
            !c.enabled,
            c.max_prefetch == 0,
            !c.spatial,
            !c.sequential,
            !c.raster_scan,
    {
        Self {
            enabled: false,
            max_prefetch: 0,
            spatial: false,
            sequential: false,
            raster_scan: false,
        }
    }

    /// Creates an aggressive prefetch configuration
    pub fn aggressive() -> (c: Self)
        ensures
            c.enabled,
            c.max_prefetch == 16,
            c.spatial,
            c.sequential,
            c.raster_scan,
    {
        Self { enabled: true, max_prefetch: 16, spatial: true, sequential: true, raster_scan: true }
    }
}

} // verus!

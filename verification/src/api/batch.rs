//! Batch lookups and their CSV answer
//!
//! A coordinate that lies outside the raster is marked by `u64::MAX` in both
//! places. Only the other coordinates are read; in the answer a marked
//! coordinate carries the text `OUT_OF_BOUNDS` in place of a value.

use vstd::prelude::*;
use vstd::string::StringExecFns;
use crate::api::models::CsvRow;
use crate::error::Error;
use crate::formats::tiff::ifd::IFD;
use crate::formats::tiff::reader::{Pixels, TiffReader};
use crate::io::traits::SeekableReader;
use crate::text::format_u64;

verus! {

/// The batch lookups of the adapter.
pub struct Batch;

impl Batch {
    /// Whether a coordinate is marked as outside the raster.
    pub open spec fn marked(c: (u64, u64)) -> bool {
        c.0 == u64::MAX
    }

    /// The coordinates that are not marked, in their order.
    pub open spec fn valid(coords: Seq<(u64, u64)>) -> Seq<(u64, u64)>
        decreases coords.len(),
    {
        if coords.len() == 0 {
            Seq::empty()
        } else if Self::marked(coords.last()) {
            Self::valid(coords.drop_last())
        } else {
            Self::valid(coords.drop_last()).push(coords.last())
        }
    }

    /// The values of all coordinates, given the values of those that are
    /// not marked: a marked coordinate has none.
    pub open spec fn placed(coords: Seq<(u64, u64)>, values: Seq<u8>) -> Seq<Option<u8>>
        decreases coords.len(),
    {
        if coords.len() == 0 {
            Seq::empty()
        } else if Self::marked(coords.last()) {
            Self::placed(coords.drop_last(), values).push(None)
        } else {
            Self::placed(coords.drop_last(), values).push(
                Some(values[Self::valid(coords).len() - 1]),
            )
        }
    }

    /// The coordinates that are not marked.
    pub fn valid_coordinates(coords: &[(u64, u64)]) -> (r: Vec<(u64, u64)>)
        ensures
            r@ == Self::valid(coords@),
    {
        let mut valid: Vec<(u64, u64)> = Vec::new();
        let mut i: usize = 0;
        while i < coords.len()
            invariant
                i <= coords@.len(),
                valid@ == Self::valid(coords@.subrange(0, i as int)),
            decreases coords@.len() - i,
        {
            proof {
                let next = coords@.subrange(0, i + 1);
                assert(next.drop_last() =~= coords@.subrange(0, i as int));
                assert(next.last() == coords@[i as int]);
            }
            if coords[i].0 != u64::MAX {
                valid.push(coords[i]);
            }
            i = i + 1;
        }
        assert(coords@.subrange(0, i as int) =~= coords@);
        valid
    }

    /// Puts the values of the coordinates that are not marked to the places
    /// of their coordinates.
    pub fn place_values(coords: &[(u64, u64)], values: &[u8]) -> (r: Vec<Option<u8>>)
        requires
            values@.len() == Self::valid(coords@).len(),
        ensures
            r@ == Self::placed(coords@, values@),
    {
        let mut placed: Vec<Option<u8>> = Vec::new();
        let mut used: usize = 0;
        let mut i: usize = 0;
        while i < coords.len()
            invariant
                i <= coords@.len(),
                used == Self::valid(coords@.subrange(0, i as int)).len(),
                used <= values@.len(),
                values@.len() == Self::valid(coords@).len(),
                placed@ == Self::placed(coords@.subrange(0, i as int), values@),
            decreases coords@.len() - i,
        {
            proof {
                let next = coords@.subrange(0, i + 1);
                assert(next.drop_last() =~= coords@.subrange(0, i as int));
                assert(next.last() == coords@[i as int]);
                Self::lemma_valid_grows(coords@, i + 1);
            }
            if coords[i].0 != u64::MAX {
                placed.push(Some(values[used]));
                used = used + 1;
            } else {
                placed.push(None);
            }
            i = i + 1;
        }
        assert(coords@.subrange(0, i as int) =~= coords@);
        placed
    }

    /// A part of a list holds no more unmarked coordinates than the list.
    pub proof fn lemma_valid_grows(coords: Seq<(u64, u64)>, n: int)
        requires
            0 <= n <= coords.len(),
        ensures
            Self::valid(coords.subrange(0, n)).len() <= Self::valid(coords).len(),
        decreases coords.len(),
    {
        if n < coords.len() {
            assert(coords.drop_last().subrange(0, n) =~= coords.subrange(0, n));
            Self::lemma_valid_grows(coords.drop_last(), n);
        } else {
            assert(coords.subrange(0, n) =~= coords);
        }
    }

    /// Reads the values of a batch of coordinates: those that are not
    /// marked are read at once, and each value goes to the place of its
    /// coordinate. Where they cannot all be read, the error is that of
    /// reading them at once.
    pub fn read_exposures<R: SeekableReader>(
        reader: &mut TiffReader<R>,
        ifd: &IFD,
        coords: &[(u64, u64)],
    ) -> (r: Result<Vec<Option<u8>>, Error>)
        requires
            old(reader).wf(),
            ifd.wf(),
        ensures
            *final(reader) == *old(reader),
            r matches Ok(values) ==> values@.len() == coords@.len(),
            r matches Ok(values) ==> forall|i: int|
                #![trigger values@[i]]
                0 <= i < values@.len() ==> (values@[i] is None <==> Self::marked(coords@[i])),
            r matches Ok(values) ==> old(reader).spec_tile_reader().spec_mmap() is Some ==> Pixels::samples(
                old(reader).source(),
                old(reader).spec_byte_order(),
                *ifd,
                Self::valid(coords@),
            ) is Some && values@ == Self::placed(
                coords@,
                Pixels::samples(
                    old(reader).source(),
                    old(reader).spec_byte_order(),
                    *ifd,
                    Self::valid(coords@),
                )->Some_0,
            ),
            r matches Err(e) ==> e is Unsupported || e is InvalidFormat || e is OutOfBounds
                || e is MissingTag || e is Io,
            match r {
                Ok(values) => {
                    &&& Pixels::gathered(
                        old(reader).spec_tile_reader().spec_mmap(),
                        old(reader).spec_byte_order(),
                        *ifd,
                        Self::valid(coords@),
                    ) is Some
                    &&& values@ == Self::placed(
                        coords@,
                        Pixels::gathered(
                            old(reader).spec_tile_reader().spec_mmap(),
                            old(reader).spec_byte_order(),
                            *ifd,
                            Self::valid(coords@),
                        )->Some_0,
                    )
                },
                Err(e) => {
                    &&& Pixels::gathered(
                        old(reader).spec_tile_reader().spec_mmap(),
                        old(reader).spec_byte_order(),
                        *ifd,
                        Self::valid(coords@),
                    ) is None
                    &&& Pixels::refused(
                        e,
                        old(reader).spec_tile_reader().spec_mmap(),
                        old(reader).spec_byte_order(),
                        *ifd,
                        Self::valid(coords@),
                    )
                },
            },
    {
        let valid = Self::valid_coordinates(coords);
        let values = match reader.read_pixels_batch(ifd, valid.as_slice()) {
            Ok(v) => v,
            Err(e) => {
                return Err(e);
            },
        };
        let placed = Self::place_values(coords, values.as_slice());
        proof {
            Self::lemma_placed(coords@, values@);
        }
        Ok(placed)
    }

    /// Every coordinate has a place, and a value unless it is marked.
    pub proof fn lemma_placed(coords: Seq<(u64, u64)>, values: Seq<u8>)
        ensures
            Self::placed(coords, values).len() == coords.len(),
            forall|i: int|
                0 <= i < coords.len() ==> (#[trigger] Self::placed(coords, values)[i] is None
                    <==> Self::marked(coords[i])),
        decreases coords.len(),
    {
        if coords.len() > 0 {
            Self::lemma_placed(coords.drop_last(), values);
            let all = Self::placed(coords, values);
            let before = Self::placed(coords.drop_last(), values);
            assert forall|i: int| 0 <= i < coords.len() implies (#[trigger] all[i] is None
                <==> Self::marked(coords[i])) by {
                if i < coords.len() - 1 {
                    assert(all[i] == before[i]);
                    assert(coords[i] == coords.drop_last()[i]);
                }
            }
        }
    }

    /// Whether one of the rows has a name that is not empty.
    pub open spec fn has_names(rows: Seq<CsvRow>) -> bool {
        exists|i: int|
            0 <= i < rows.len() && (#[trigger] rows[i]).name is Some && rows[i].name->Some_0@.len()
                > 0
    }

    /// The value of row `i`: none where the list of values ends before it.
    pub open spec fn value_at(values: Seq<Option<u8>>, i: int) -> Option<u8> {
        if 0 <= i < values.len() {
            values[i]
        } else {
            None
        }
    }

    /// How many of the first `n` rows have a value.
    pub open spec fn successful(values: Seq<Option<u8>>, n: nat) -> nat
        decreases n,
    {
        if n == 0 {
            0
        } else {
            Self::successful(values, (n - 1) as nat) + if Self::value_at(values, n - 1) is Some {
                1nat
            } else {
                0nat
            }
        }
    }

    /// The text of a value: its number, or `OUT_OF_BOUNDS`.
    pub open spec fn value_text(value: Option<u8>) -> Seq<char> {
        match value {
            Some(v) => crate::text::decimal(v as nat),
            None => "OUT_OF_BOUNDS"@,
        }
    }

    /// The line of one row: latitude, longitude, the name where the answer
    /// has names, and the value.
    pub open spec fn row_text(row: CsvRow, value: Option<u8>, named: bool) -> Seq<char> {
        Self::named_place(row, named) + Self::value_text(value) + "\n"@
    }

    /// The start of the line of one row: latitude and longitude, and the
    /// name where the answer has names, each with a comma behind it.
    pub open spec fn named_place(row: CsvRow, named: bool) -> Seq<char> {
        let place = row.latitude@ + ","@ + row.longitude@ + ","@;
        if named {
            place + match row.name {
                Some(name) => name@,
                None => Seq::empty(),
            } + ","@
        } else {
            place
        }
    }

    /// `text` with the lines of the first `n` rows behind it.
    pub open spec fn with_rows(
        text: Seq<char>,
        rows: Seq<CsvRow>,
        values: Seq<Option<u8>>,
        named: bool,
        n: nat,
    ) -> Seq<char>
        decreases n,
    {
        if n == 0 {
            text
        } else {
            Self::with_rows(text, rows, values, named, (n - 1) as nat) + Self::row_text(
                rows[n - 1],
                Self::value_at(values, n - 1),
                named,
            )
        }
    }

    /// The head of an answer: five comment lines with the statistics, then
    /// the line that names the columns.
    pub open spec fn head_text(
        total: nat,
        successful: nat,
        execution_time: Seq<char>,
        pixels_per_second: Seq<char>,
        named: bool,
    ) -> Seq<char> {
        "# Total points: "@ + crate::text::decimal(total) + "\n"@ + "# Successful: "@
            + crate::text::decimal(successful) + "\n"@ + "# Failed: "@ + crate::text::decimal(
            (total - successful) as nat,
        ) + "\n"@ + "# Execution time: "@ + execution_time + " ms\n"@ + "# Pixels per second: "@
            + pixels_per_second + "\n"@ + if named {
            "latitude,longitude,name,exposure_value\n"@
        } else {
            "latitude,longitude,exposure_value\n"@
        }
    }

    /// The CSV answer to a batch of rows.
    pub open spec fn csv_text(
        rows: Seq<CsvRow>,
        values: Seq<Option<u8>>,
        execution_time: Seq<char>,
        pixels_per_second: Seq<char>,
    ) -> Seq<char> {
        Self::with_rows(
            Self::head_text(
                rows.len(),
                Self::successful(values, rows.len()),
                execution_time,
                pixels_per_second,
                Self::has_names(rows),
            ),
            rows,
            values,
            Self::has_names(rows),
            rows.len(),
        )
    }

    /// How many rows have a value.
    pub fn count_successful(rows: &[CsvRow], values: &[Option<u8>]) -> (n: usize)
        ensures
            n == Self::successful(values@, rows@.len()),
            n <= rows@.len(),
    {
        let mut n: usize = 0;
        let mut i: usize = 0;
        while i < rows.len()
            invariant
                i <= rows@.len(),
                n <= i,
                n == Self::successful(values@, i as nat),
            decreases rows@.len() - i,
        {
            if i < values.len() && values[i].is_some() {
                n = n + 1;
            }
            i = i + 1;
        }
        n
    }

    /// Whether one of the rows has a name that is not empty.
    pub fn any_names(rows: &[CsvRow]) -> (b: bool)
        ensures
            b == Self::has_names(rows@),
    {
        let mut i: usize = 0;
        while i < rows.len()
            invariant
                i <= rows@.len(),
                forall|j: int|
                    0 <= j < i ==> !((#[trigger] rows@[j]).name is Some && rows@[j].name->Some_0@.len()
                        > 0),
            decreases rows@.len() - i,
        {
            if let Some(name) = &rows[i].name {
                if !name.as_str().is_empty() {
                    return true;
                }
            }
            i = i + 1;
        }
        false
    }

    /// Writes the CSV answer to a batch of rows: the statistics, the names
    /// of the columns, and one line for each row with its value or the text
    /// `OUT_OF_BOUNDS`. The column of names is there when one of the rows has
    /// a name that is not empty.
    pub fn render_csv(
        rows: &[CsvRow],
        values: &[Option<u8>],
        execution_time: &str,
        pixels_per_second: &str,
    ) -> (text: String)
        ensures
            text@ == Self::csv_text(rows@, values@, execution_time@, pixels_per_second@),
    {
        let named = Self::any_names(rows);
        let successful = Self::count_successful(rows, values);
        let mut text = String::from_str("# Total points: ");
        text.append(format_u64(rows.len() as u64).as_str());
        text.append("\n");
        text.append("# Successful: ");
        text.append(format_u64(successful as u64).as_str());
        text.append("\n");
        text.append("# Failed: ");
        text.append(format_u64((rows.len() - successful) as u64).as_str());
        text.append("\n");
        text.append("# Execution time: ");
        text.append(execution_time);
        text.append(" ms\n");
        text.append("# Pixels per second: ");
        text.append(pixels_per_second);
        text.append("\n");
        if named {
            text.append("latitude,longitude,name,exposure_value\n");
        } else {
            text.append("latitude,longitude,exposure_value\n");
        }
        let ghost head = text@;
        assert(head == Self::head_text(
            rows@.len(),
            successful as nat,
            execution_time@,
            pixels_per_second@,
            named,
        ));
        let mut i: usize = 0;
        while i < rows.len()
            invariant
                i <= rows@.len(),
                text@ == Self::with_rows(head, rows@, values@, named, i as nat),
            decreases rows@.len() - i,
        {
            let row = &rows[i];
            let ghost before = text@;
            text.append(row.latitude.as_str());
            text.append(",");
            text.append(row.longitude.as_str());
            text.append(",");
            let ghost place = row.latitude@ + ","@ + row.longitude@ + ","@;
            assert(text@ =~= before + place);
            if named {
                if let Some(name) = &row.name {
                    text.append(name.as_str());
                }
                text.append(",");
            }
            let ghost with_name = Self::named_place(*row, named);
            assert(text@ =~= before + with_name);
            let value: Option<u8> = if i < values.len() {
                values[i]
            } else {
                None
            };
            match value {
                Some(v) => {
                    text.append(format_u64(v as u64).as_str());
                },
                None => {
                    text.append("OUT_OF_BOUNDS");
                },
            }
            text.append("\n");
            assert(text@ =~= before + Self::row_text(*row, value, named));
            i = i + 1;
        }
        text
    }
}

} // verus!

//! TIFF data structures

use vstd::prelude::*;
use vstd::string::StringExecFns;
use crate::formats::tiff::ifd::{IFDEntry, IFD};
use crate::formats::tiff::tags::tag_name;
use crate::text::format_u64;
use crate::types::Dimensions;

verus! {

/// Represents a TIFF or BigTIFF file
#[derive(Debug)]
pub struct Tiff {
    /// Whether this is BigTIFF format
    pub is_big_tiff: bool,
    /// Image File Directories
    pub ifds: Vec<IFD>,
}

impl Tiff {
    /// Every directory of the file is well-formed.
    pub open spec fn wf(&self) -> bool {
        forall|i: int| 0 <= i < self.ifds@.len() ==> (#[trigger] self.ifds@[i]).wf()
    }

    /// Creates a new TIFF structure
    pub fn new(is_big_tiff: bool) -> (t: Self)
        ensures
            t.wf(),
            t.is_big_tiff == is_big_tiff,
            t.ifds@ == Seq::<IFD>::empty(),
    {
        Self { is_big_tiff, ifds: Vec::new() }
    }

    /// Adds an IFD to this TIFF
    pub fn add_ifd(&mut self, ifd: IFD)
        ensures
            final(self).is_big_tiff == old(self).is_big_tiff,
            final(self).ifds@ == old(self).ifds@.push(ifd),
            old(self).wf() && ifd.wf() ==> final(self).wf(),
    {
        self.ifds.push(ifd);
    }

    /// Returns the main (first) IFD
    pub fn main_ifd(&self) -> (r: Option<&IFD>)
        ensures
            match r {
                Some(ifd) => self.ifds@.len() > 0 && *ifd == self.ifds@[0],
                None => self.ifds@.len() == 0,
            },
    {
        if self.ifds.len() > 0 {
            Some(&self.ifds[0])
        } else {
            None
        }
    }

    /// Returns the number of IFDs
    pub fn ifd_count(&self) -> (n: usize)
        ensures
            n == self.ifds@.len(),
    {
        self.ifds.len()
    }

    /// Returns all IFDs
    pub fn all_ifds(&self) -> (r: &[IFD])
        ensures
            r@ == self.ifds@,
    {
        self.ifds.as_slice()
    }

    /// `label`, two numbers with ` x ` between them, and a line end, where
    /// there are dimensions; else nothing.
    pub open spec fn dimensions_line(label: Seq<char>, dims: Option<Dimensions>) -> Seq<char> {
        match dims {
            Some(d) => label + crate::text::decimal(d.width as nat) + " x "@
                + crate::text::decimal(d.height as nat) + "\n"@,
            None => Seq::empty(),
        }
    }

    /// `label`, a number and a line end, where there is a number; else
    /// nothing.
    pub open spec fn number_line(label: Seq<char>, value: Option<u64>) -> Seq<char> {
        match value {
            Some(v) => label + crate::text::decimal(v as nat) + "\n"@,
            None => Seq::empty(),
        }
    }

    /// "Yes" or "No".
    pub open spec fn yes_no(b: bool) -> Seq<char> {
        if b {
            "Yes"@
        } else {
            "No"@
        }
    }

    /// The line of one GeoTIFF tag: its number, its name and how many
    /// values it has.
    pub open spec fn tag_line(entry: IFDEntry) -> Seq<char> {
        "  Tag "@ + crate::text::decimal(entry.tag as nat) + ": "@
            + crate::formats::tiff::tags::spec_tag_name(entry.tag) + " ("@ + crate::text::decimal(
            entry.count as nat,
        ) + " values)\n"@
    }

    /// `text` with the lines of the first `n` tags behind it.
    pub open spec fn with_tags(text: Seq<char>, found: Seq<IFDEntry>, n: nat) -> Seq<char>
        decreases n,
    {
        if n == 0 {
            text
        } else {
            Self::with_tags(text, found, (n - 1) as nat) + Self::tag_line(found[n - 1])
        }
    }

    /// What is said of the main image.
    pub open spec fn main_text(ifd: IFD) -> Seq<char> {
        let found = IFD::geo_entries(ifd.listed());
        let lines = "\nMain Image (IFD 0):\n"@ + Self::dimensions_line(
            "  Dimensions: "@,
            ifd.spec_dimensions(),
        ) + "  Samples per pixel: "@ + crate::text::decimal(
            ifd.spec_value_or(crate::formats::tiff::tags::SAMPLES_PER_PIXEL, 1) as nat,
        ) + "\n"@ + Self::number_line(
            "  Bits per sample: "@,
            ifd.spec_tag_value(crate::formats::tiff::tags::BITS_PER_SAMPLE),
        ) + Self::number_line(
            "  Compression: "@,
            ifd.spec_tag_value(crate::formats::tiff::tags::COMPRESSION),
        ) + "  Tiled: "@ + Self::yes_no(ifd.spec_is_tiled()) + "\n"@ + Self::dimensions_line(
            "  Tile size: "@,
            ifd.spec_tile_dimensions(),
        ) + "  GeoTIFF: "@ + Self::yes_no(found.len() > 0) + "\n"@;
        if found.len() > 0 {
            Self::with_tags(lines + "\nGeoTIFF Tags Found:\n"@, found, found.len())
        } else {
            lines
        }
    }

    /// What is said of the file: its format, the number of its directories,
    /// and the main image where there is one.
    pub open spec fn text(&self) -> Seq<char> {
        let head = "TIFF File Information:\n"@ + "  Format: "@ + if self.is_big_tiff {
            "BigTIFF"@
        } else {
            "TIFF"@
        } + "\n"@ + "  Number of IFDs: "@ + crate::text::decimal(self.ifds@.len()) + "\n"@;
        if self.ifds@.len() > 0 {
            head + Self::main_text(self.ifds@[0])
        } else {
            head
        }
    }

    /// Appends a line of dimensions, where there are dimensions.
    fn append_dimensions(text: &mut String, label: &str, dims: Option<Dimensions>)
        ensures
            final(text)@ == old(text)@ + Self::dimensions_line(label@, dims),
    {
        match dims {
            Some(d) => {
                text.append(label);
                text.append(format_u64(d.width).as_str());
                text.append(" x ");
                text.append(format_u64(d.height).as_str());
                text.append("\n");
                assert(text@ =~= old(text)@ + Self::dimensions_line(label@, dims));
            },
            None => {
                assert(text@ =~= old(text)@ + Self::dimensions_line(label@, dims));
            },
        }
    }

    /// Appends a line with a number, where there is a number.
    fn append_number(text: &mut String, label: &str, value: Option<u64>)
        ensures
            final(text)@ == old(text)@ + Self::number_line(label@, value),
    {
        match value {
            Some(v) => {
                text.append(label);
                text.append(format_u64(v).as_str());
                text.append("\n");
                assert(text@ =~= old(text)@ + Self::number_line(label@, value));
            },
            None => {
                assert(text@ =~= old(text)@ + Self::number_line(label@, value));
            },
        }
    }

    /// "Yes" or "No".
    fn yes_no_text(b: bool) -> (s: &'static str)
        ensures
            s@ == Self::yes_no(b),
    {
        if b {
            "Yes"
        } else {
            "No"
        }
    }

    /// What is said of the main image, as text.
    fn describe_main(ifd: &IFD) -> (s: String)
        requires
            ifd.wf(),
        ensures
            s@ == Self::main_text(*ifd),
    {
        let mut text = String::from_str("\nMain Image (IFD 0):\n");
        Self::append_dimensions(&mut text, "  Dimensions: ", ifd.dimensions());
        text.append("  Samples per pixel: ");
        text.append(format_u64(ifd.samples_per_pixel()).as_str());
        text.append("\n");
        Self::append_number(&mut text, "  Bits per sample: ", ifd.bits_per_sample());
        Self::append_number(&mut text, "  Compression: ", ifd.compression());
        text.append("  Tiled: ");
        text.append(Self::yes_no_text(ifd.is_tiled()));
        text.append("\n");
        Self::append_dimensions(&mut text, "  Tile size: ", ifd.tile_dimensions());
        let found = ifd.geotiff_tags();
        let ghost listed = IFD::geo_entries(ifd.listed());
        text.append("  GeoTIFF: ");
        text.append(Self::yes_no_text(found.len() > 0));
        text.append("\n");
        if found.len() > 0 {
            text.append("\nGeoTIFF Tags Found:\n");
            let ghost head = text@;
            let mut i: usize = 0;
            while i < found.len()
                invariant
                    i <= found@.len(),
                    found@.len() == listed.len(),
                    forall|j: int| 0 <= j < found@.len() ==> *#[trigger] found@[j] == listed[j],
                    text@ == Self::with_tags(head, listed, i as nat),
                decreases found@.len() - i,
            {
                let entry = found[i];
                let ghost before = text@;
                text.append("  Tag ");
                text.append(format_u64(entry.tag as u64).as_str());
                text.append(": ");
                text.append(tag_name(entry.tag));
                text.append(" (");
                text.append(format_u64(entry.count).as_str());
                text.append(" values)\n");
                assert(text@ =~= before + Self::tag_line(*entry));
                i = i + 1;
            }
        }
        text
    }

    /// Describes the file in words: its format, the number of its
    /// directories, and the main image where there is one.
    pub fn to_string(&self) -> (s: String)
        requires
            self.wf(),
        ensures
            s@ == self.text(),
    {
        let mut text = String::from_str("TIFF File Information:\n");
        text.append("  Format: ");
        text.append(
            if self.is_big_tiff {
                "BigTIFF"
            } else {
                "TIFF"
            },
        );
        text.append("\n");
        text.append("  Number of IFDs: ");
        text.append(format_u64(self.ifds.len() as u64).as_str());
        text.append("\n");
        if self.ifds.len() > 0 {
            let main = Self::describe_main(&self.ifds[0]);
            text.append(main.as_str());
        }
        text
    }
}

} // verus!

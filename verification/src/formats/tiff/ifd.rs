//! Image File Directory (IFD) structures

use vstd::prelude::*;
use std::collections::HashMap;
use crate::types::{DataType, Dimensions};
use crate::formats::tiff::tags;
use crate::formats::tiff::tags::field_types;

verus! {

broadcast use vstd::std_specs::hash::group_hash_axioms;

/// Represents an Image File Directory entry
#[derive(Debug, Clone, Copy, PartialEq, Eq, Structural)]
pub struct IFDEntry {
    /// TIFF tag identifier
    pub tag: u16,
    /// Field type
    pub field_type: u16,
    /// Number of values
    pub count: u64,
    /// Value or offset to value
    pub value_offset: u64,
}

impl IFDEntry {
    /// The size in bytes of one value of a field type: 1 for a type that
    /// this crate does not know.
    pub open spec fn type_size(field_type: u16) -> nat {
        if field_type == field_types::SHORT || field_type == field_types::SSHORT {
            2
        } else if field_type == field_types::LONG || field_type == field_types::SLONG
            || field_type == field_types::FLOAT {
            4
        } else if field_type == field_types::RATIONAL || field_type == field_types::SRATIONAL
            || field_type == field_types::DOUBLE || field_type == field_types::LONG8 || field_type
            == field_types::SLONG8 || field_type == field_types::IFD8 {
            8
        } else {
            1
        }
    }

    /// The size in bytes of the value slot of an entry.
    pub open spec fn slot_size(is_big_tiff: bool) -> nat {
        if is_big_tiff {
            8
        } else {
            4
        }
    }

    /// The size in bytes of all values of this entry.
    pub open spec fn payload_size(self) -> nat {
        Self::type_size(self.field_type) * self.count as nat
    }

    /// Whether the values of this entry lie in its value slot.
    pub open spec fn spec_is_inline(self, is_big_tiff: bool) -> bool {
        self.payload_size() <= Self::slot_size(is_big_tiff)
    }

    /// Creates a new IFD entry
    pub fn new(tag: u16, field_type: u16, count: u64, value_offset: u64) -> (e: Self)
        ensures
            e == (IFDEntry { tag, field_type, count, value_offset }),
    {
        Self { tag, field_type, count, value_offset }
    }

    /// Returns the size in bytes of this field type
    pub fn field_type_size(&self) -> (n: usize)
        ensures
            n == Self::type_size(self.field_type),
    {
        let t = self.field_type;
        if t == field_types::SHORT || t == field_types::SSHORT {
            2
        } else if t == field_types::LONG || t == field_types::SLONG || t == field_types::FLOAT {
            4
        } else if t == field_types::RATIONAL || t == field_types::SRATIONAL || t
            == field_types::DOUBLE || t == field_types::LONG8 || t == field_types::SLONG8 || t
            == field_types::IFD8 {
            8
        } else {
            1
        }
    }

    /// Returns whether the value is stored inline (in value_offset field)
    pub fn is_inline(&self, is_big_tiff: bool) -> (b: bool)
        ensures
            b == self.spec_is_inline(is_big_tiff),
    {
        let size: u64 = self.field_type_size() as u64;
        let inline_size: u64 = if is_big_tiff {
            8
        } else {
            4
        };
        let limit: u64 = inline_size / size;
        proof {
            let c = self.count as nat;
            let s = size as nat;
            if self.count <= limit {
                assert(s * c <= inline_size) by (nonlinear_arith)
                    requires
                        c <= limit,
                        limit * s <= inline_size,
                        s >= 1,
                ;
            } else {
                assert(s * c > inline_size) by (nonlinear_arith)
                    requires
                        c >= limit + 1,
                        (limit + 1) * s > inline_size,
                        s >= 1,
                ;
            }
        }
        self.count <= limit
    }
}

/// Represents an Image File Directory
#[derive(Debug, Clone)]
pub struct IFD {
    /// IFD number (0-based)
    pub number: usize,
    /// Offset to this IFD in file
    pub offset: u64,
    /// Entries in this IFD
    pub entries: Vec<IFDEntry>,
    /// Tag map for quick lookup
    tag_map: HashMap<u16, usize>,
}

impl IFD {
    /// The entry that a lookup of `tag` among `entries` gives: the last one
    /// that carries the tag.
    pub open spec fn find(entries: Seq<IFDEntry>, tag: u16) -> Option<IFDEntry>
        decreases entries.len(),
    {
        if entries.len() == 0 {
            None
        } else if entries.last().tag == tag {
            Some(entries.last())
        } else {
            Self::find(entries.drop_last(), tag)
        }
    }

    /// The entries of this directory, in their order.
    pub closed spec fn listed(&self) -> Seq<IFDEntry> {
        self.entries@
    }

    /// The number of this directory.
    pub closed spec fn spec_number(&self) -> usize {
        self.number
    }

    /// The offset of this directory in the file.
    pub closed spec fn spec_offset(&self) -> u64 {
        self.offset
    }

    /// The tag map agrees with the entries: it holds each tag that occurs,
    /// with the place of the entry that a lookup gives.
    pub closed spec fn wf(&self) -> bool {
        forall|tag: u16|
            match #[trigger] Self::find(self.entries@, tag) {
                None => !self.tag_map@.contains_key(tag),
                Some(e) => {
                    &&& self.tag_map@.contains_key(tag)
                    &&& self.tag_map@[tag] < self.entries@.len()
                    &&& self.entries@[self.tag_map@[tag] as int] == e
                },
            }
    }

    /// The entry with `tag`.
    pub open spec fn spec_get_entry(&self, tag: u16) -> Option<IFDEntry> {
        Self::find(self.listed(), tag)
    }

    /// The value slot of the entry with `tag`.
    pub open spec fn spec_tag_value(&self, tag: u16) -> Option<u64> {
        match self.spec_get_entry(tag) {
            Some(e) => Some(e.value_offset),
            None => None,
        }
    }

    /// The two tag values as width and height, where both are there.
    pub open spec fn spec_pair(&self, width_tag: u16, height_tag: u16) -> Option<Dimensions> {
        match (self.spec_tag_value(width_tag), self.spec_tag_value(height_tag)) {
            (Some(width), Some(height)) => Some(Dimensions { width, height }),
            _ => None,
        }
    }

    /// The image dimensions.
    pub open spec fn spec_dimensions(&self) -> Option<Dimensions> {
        self.spec_pair(tags::IMAGE_WIDTH, tags::IMAGE_LENGTH)
    }

    /// The tile dimensions.
    pub open spec fn spec_tile_dimensions(&self) -> Option<Dimensions> {
        self.spec_pair(tags::TILE_WIDTH, tags::TILE_LENGTH)
    }

    /// Whether the image is stored in tiles.
    pub open spec fn spec_is_tiled(&self) -> bool {
        self.spec_get_entry(tags::TILE_WIDTH) is Some
    }

    /// The value of `tag`, or `default` where the tag is missing.
    pub open spec fn spec_value_or(&self, tag: u16, default: u64) -> u64 {
        match self.spec_tag_value(tag) {
            Some(v) => v,
            None => default,
        }
    }

    /// The pixel type that sample format and bits per sample name.
    pub open spec fn type_of(format: u64, bits: u64) -> Option<DataType> {
        if format == 1 && bits == 8 {
            Some(DataType::U8)
        } else if format == 1 && bits == 16 {
            Some(DataType::U16)
        } else if format == 1 && bits == 32 {
            Some(DataType::U32)
        } else if format == 2 && bits == 8 {
            Some(DataType::I8)
        } else if format == 2 && bits == 16 {
            Some(DataType::I16)
        } else if format == 2 && bits == 32 {
            Some(DataType::I32)
        } else if format == 3 && bits == 32 {
            Some(DataType::F32)
        } else if format == 3 && bits == 64 {
            Some(DataType::F64)
        } else {
            None
        }
    }

    /// The pixel type of the image.
    pub open spec fn spec_data_type(&self) -> Option<DataType> {
        match self.spec_tag_value(tags::BITS_PER_SAMPLE) {
            Some(bits) => Self::type_of(self.spec_value_or(tags::SAMPLE_FORMAT, 1), bits),
            None => None,
        }
    }

    /// Whether `tag` is one of the six GeoTIFF tags.
    pub open spec fn is_geo_tag(tag: u16) -> bool {
        tag == tags::MODEL_PIXEL_SCALE || tag == tags::MODEL_TIEPOINT || tag
            == tags::MODEL_TRANSFORMATION || tag == tags::GEO_KEY_DIRECTORY || tag
            == tags::GEO_DOUBLE_PARAMS || tag == tags::GEO_ASCII_PARAMS
    }

    /// The entries with a GeoTIFF tag, in their order.
    pub open spec fn geo_entries(entries: Seq<IFDEntry>) -> Seq<IFDEntry>
        decreases entries.len(),
    {
        if entries.len() == 0 {
            Seq::empty()
        } else if Self::is_geo_tag(entries.last().tag) {
            Self::geo_entries(entries.drop_last()).push(entries.last())
        } else {
            Self::geo_entries(entries.drop_last())
        }
    }

    /// Creates a new IFD
    pub fn new(number: usize, offset: u64) -> (ifd: Self)
        ensures
            ifd.wf(),
            ifd.spec_number() == number,
            ifd.spec_offset() == offset,
            ifd.listed() == Seq::<IFDEntry>::empty(),
    {
        Self { number, offset, entries: Vec::new(), tag_map: HashMap::new() }
    }

    /// Adds an entry to this IFD. An entry added later hides an earlier one
    /// with the same tag from lookups.
    pub fn add_entry(&mut self, entry: IFDEntry)
        requires
            old(self).wf(),
        ensures
            final(self).wf(),
            final(self).spec_number() == old(self).spec_number(),
            final(self).spec_offset() == old(self).spec_offset(),
            final(self).listed() == old(self).listed().push(entry),
    {
        let index = self.entries.len();
        self.tag_map.insert(entry.tag, index);
        self.entries.push(entry);
        proof {
            let before = old(self).entries@;
            let after = self.entries@;
            assert(after.drop_last() =~= before);
            assert forall|tag: u16|
                match #[trigger] Self::find(self.entries@, tag) {
                    None => !self.tag_map@.contains_key(tag),
                    Some(e) => {
                        &&& self.tag_map@.contains_key(tag)
                        &&& self.tag_map@[tag] < self.entries@.len()
                        &&& self.entries@[self.tag_map@[tag] as int] == e
                    },
                } by {
                if tag != entry.tag {
                    assert(Self::find(after, tag) == Self::find(before, tag));
                }
            }
        }
    }

    /// A copy of this directory.
    pub fn duplicate(&self) -> (copy: Self)
        requires
            self.wf(),
        ensures
            copy.wf(),
            copy.spec_number() == self.spec_number(),
            copy.spec_offset() == self.spec_offset(),
            copy.listed() == self.listed(),
    {
        let mut copy = Self::new(self.number, self.offset);
        let mut i: usize = 0;
        while i < self.entries.len()
            invariant
                i <= self.entries@.len(),
                copy.wf(),
                copy.number == self.number,
                copy.offset == self.offset,
                copy.entries@ == self.entries@.subrange(0, i as int),
            decreases self.entries@.len() - i,
        {
            copy.add_entry(self.entries[i]);
            i = i + 1;
            assert(copy.entries@ =~= self.entries@.subrange(0, i as int));
        }
        assert(self.entries@.subrange(0, i as int) =~= self.entries@);
        copy
    }

    /// Gets an entry by tag
    pub fn get_entry(&self, tag: u16) -> (r: Option<&IFDEntry>)
        requires
            self.wf(),
        ensures
            match r {
                Some(e) => self.spec_get_entry(tag) == Some(*e),
                None => self.spec_get_entry(tag) is None,
            },
    {
        let ghost found = Self::find(self.entries@, tag);
        match self.tag_map.get(&tag) {
            Some(idx) => {
                let i: usize = *idx;
                Some(&self.entries[i])
            },
            None => None,
        }
    }

    /// Gets the value of a tag as u64 (for inline values)
    pub fn get_tag_value(&self, tag: u16) -> (r: Option<u64>)
        requires
            self.wf(),
        ensures
            r == self.spec_tag_value(tag),
    {
        match self.get_entry(tag) {
            Some(e) => Some(e.value_offset),
            None => None,
        }
    }

    /// Returns image dimensions if available
    pub fn dimensions(&self) -> (r: Option<Dimensions>)
        requires
            self.wf(),
        ensures
            r == self.spec_dimensions(),
    {
        let width = match self.get_tag_value(tags::IMAGE_WIDTH) {
            Some(v) => v,
            None => {
                return None;
            },
        };
        let height = match self.get_tag_value(tags::IMAGE_LENGTH) {
            Some(v) => v,
            None => {
                return None;
            },
        };
        Some(Dimensions::new(width, height))
    }

    /// Returns compression type
    pub fn compression(&self) -> (r: Option<u64>)
        requires
            self.wf(),
        ensures
            r == self.spec_tag_value(tags::COMPRESSION),
    {
        self.get_tag_value(tags::COMPRESSION)
    }

    /// Returns samples per pixel
    pub fn samples_per_pixel(&self) -> (r: u64)
        requires
            self.wf(),
        ensures
            r == self.spec_value_or(tags::SAMPLES_PER_PIXEL, 1),
    {
        match self.get_tag_value(tags::SAMPLES_PER_PIXEL) {
            Some(v) => v,
            None => 1,
        }
    }

    /// Returns bits per sample
    pub fn bits_per_sample(&self) -> (r: Option<u64>)
        requires
            self.wf(),
        ensures
            r == self.spec_tag_value(tags::BITS_PER_SAMPLE),
    {
        self.get_tag_value(tags::BITS_PER_SAMPLE)
    }

    /// Returns sample format (1=unsigned, 2=signed, 3=float)
    pub fn sample_format(&self) -> (r: u64)
        requires
            self.wf(),
        ensures
            r == self.spec_value_or(tags::SAMPLE_FORMAT, 1),
    {
        match self.get_tag_value(tags::SAMPLE_FORMAT) {
            Some(v) => v,
            None => 1,
        }
    }

    /// Determines the pixel data type based on TIFF tags
    pub fn data_type(&self) -> (r: Option<DataType>)
        requires
            self.wf(),
        ensures
            r == self.spec_data_type(),
    {
        let bits = match self.bits_per_sample() {
            Some(v) => v,
            None => {
                return None;
            },
        };
        let format = self.sample_format();
        if format == 1 && bits == 8 {
            Some(DataType::U8)
        } else if format == 1 && bits == 16 {
            Some(DataType::U16)
        } else if format == 1 && bits == 32 {
            Some(DataType::U32)
        } else if format == 2 && bits == 8 {
            Some(DataType::I8)
        } else if format == 2 && bits == 16 {
            Some(DataType::I16)
        } else if format == 2 && bits == 32 {
            Some(DataType::I32)
        } else if format == 3 && bits == 32 {
            Some(DataType::F32)
        } else if format == 3 && bits == 64 {
            Some(DataType::F64)
        } else {
            None
        }
    }

    /// Returns whether this IFD represents a tiled image
    pub fn is_tiled(&self) -> (b: bool)
        requires
            self.wf(),
        ensures
            b == self.spec_is_tiled(),
    {
        self.get_entry(tags::TILE_WIDTH).is_some()
    }

    /// Returns tile dimensions if tiled
    pub fn tile_dimensions(&self) -> (r: Option<Dimensions>)
        requires
            self.wf(),
        ensures
            r == self.spec_tile_dimensions(),
    {
        let width = match self.get_tag_value(tags::TILE_WIDTH) {
            Some(v) => v,
            None => {
                return None;
            },
        };
        let height = match self.get_tag_value(tags::TILE_LENGTH) {
            Some(v) => v,
            None => {
                return None;
            },
        };
        Some(Dimensions::new(width, height))
    }

    /// Returns number of entries
    pub fn entry_count(&self) -> (n: usize)
        ensures
            n == self.listed().len(),
    {
        self.entries.len()
    }

    /// Returns all GeoTIFF related tags
    pub fn geotiff_tags(&self) -> (r: Vec<&IFDEntry>)
        ensures
            r@.len() == Self::geo_entries(self.listed()).len(),
            forall|i: int| 0 <= i < r@.len() ==> *r@[i] == Self::geo_entries(self.listed())[i],
    {
        let mut found: Vec<&IFDEntry> = Vec::new();
        let mut i: usize = 0;
        while i < self.entries.len()
            invariant
                i <= self.entries@.len(),
                found@.len() == Self::geo_entries(self.entries@.subrange(0, i as int)).len(),
                forall|j: int|
                    0 <= j < found@.len() ==> *found@[j] == Self::geo_entries(
                        self.entries@.subrange(0, i as int),
                    )[j],
            decreases self.entries@.len() - i,
        {
            let e = &self.entries[i];
            proof {
                let next = self.entries@.subrange(0, i + 1);
                assert(next.drop_last() =~= self.entries@.subrange(0, i as int));
                assert(next.last() == *e);
            }
            let tag = e.tag;
            if tag == tags::MODEL_PIXEL_SCALE || tag == tags::MODEL_TIEPOINT || tag
                == tags::MODEL_TRANSFORMATION || tag == tags::GEO_KEY_DIRECTORY || tag
                == tags::GEO_DOUBLE_PARAMS || tag == tags::GEO_ASCII_PARAMS {
                found.push(e);
            }
            i = i + 1;
        }
        proof {
            assert(self.entries@.subrange(0, i as int) =~= self.entries@);
        }
        found
    }

    /// Checks if this IFD has GeoTIFF tags
    pub fn is_geotiff(&self) -> (b: bool)
        ensures
            b == (Self::geo_entries(self.listed()).len() > 0),
    {
        !self.geotiff_tags().is_empty()
    }
}

} // verus!

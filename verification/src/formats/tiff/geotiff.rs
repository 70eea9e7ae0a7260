//! GeoTIFF specific functionality
//!
//! The georeferencing of an image lies in five tags: the pixel scale (three
//! doubles), the tiepoints (six doubles each), the model transformation
//! (sixteen doubles), the GeoKey directory (a header of four shorts, then four
//! shorts per key) and the ASCII parameters. This
//! module reads them as the file holds them: floating-point values as bit
//! patterns, the EPSG code as the value of the first key that names a
//! geographic or a projected coordinate system.

use vstd::prelude::*;
use crate::error::Error;
use crate::formats::tiff::ifd::{IFDEntry, IFD};
use crate::formats::tiff::reader::tags::{FloatBits, TagReader};
use crate::formats::tiff::reader::TiffReader;
use crate::formats::tiff::tags;
use crate::io::traits::SeekableReader;

verus! {

/// The id of the key that names a geographic coordinate system.
pub const GEOGRAPHIC_TYPE: u16 = 2048;

/// The id of the key that names a projected coordinate system.
pub const PROJECTED_CS_TYPE: u16 = 3072;

/// A tiepoint as the file holds it: the bit patterns of a pixel position
/// and of the position in the world that it is tied to.
#[derive(Debug, Clone, Copy, PartialEq, Eq, Structural)]
pub struct TiePointBits {
    pub pixel_x: FloatBits,
    pub pixel_y: FloatBits,
    pub pixel_z: FloatBits,
    pub geo_x: FloatBits,
    pub geo_y: FloatBits,
    pub geo_z: FloatBits,
}

/// The georeferencing tags of a directory as the file holds them.
#[derive(Debug)]
pub struct GeoFields {
    /// Model pixel scale (ScaleX, ScaleY, ScaleZ)
    pub pixel_scale: Option<(FloatBits, FloatBits, FloatBits)>,
    /// Model tiepoints (pixel coord -> geo coord mapping)
    pub tiepoints: Vec<TiePointBits>,
    /// The sixteen values of the model transformation, row by row
    pub transform: Option<Vec<FloatBits>>,
    /// EPSG code if detected
    pub epsg_code: Option<u16>,
    /// CRS name
    pub crs_name: Option<String>,
}

impl GeoFields {
    /// Whether a directory carries one of the tags that make it a GeoTIFF
    /// directory: pixel scale, tiepoints or GeoKey directory.
    pub open spec fn has_geo_tags(ifd: IFD) -> bool {
        ifd.spec_get_entry(tags::MODEL_PIXEL_SCALE) is Some || ifd.spec_get_entry(
            tags::MODEL_TIEPOINT,
        ) is Some || ifd.spec_get_entry(tags::GEO_KEY_DIRECTORY) is Some
    }

    /// The number of keys of a GeoKey directory that are looked at: as many
    /// as its header announces.
    pub open spec fn key_count(keys: Seq<u16>) -> nat {
        if keys.len() >= 4 {
            keys[3] as nat
        } else {
            0
        }
    }

    /// The EPSG code among the keys from key `i` on: the value of the first
    /// key with the id of a geographic or a projected coordinate system that
    /// lies wholly within the directory.
    pub open spec fn epsg_from(keys: Seq<u16>, i: nat) -> Option<u16>
        decreases Self::key_count(keys) - i,
    {
        if i >= Self::key_count(keys) {
            None
        } else if 4 + 4 * i + 3 < keys.len() && (keys[4 + 4 * i as int] == GEOGRAPHIC_TYPE
            || keys[4 + 4 * i as int] == PROJECTED_CS_TYPE) {
            Some(keys[4 + 4 * i as int + 3])
        } else {
            Self::epsg_from(keys, i + 1)
        }
    }

    /// The EPSG code of a GeoKey directory.
    pub open spec fn epsg_of(keys: Seq<u16>) -> Option<u16> {
        Self::epsg_from(keys, 0)
    }

    /// The pixel scale that a list of values holds: its first three.
    pub open spec fn scale_of(values: Seq<FloatBits>) -> Option<(FloatBits, FloatBits, FloatBits)> {
        if values.len() >= 3 {
            Some((values[0], values[1], values[2]))
        } else {
            None
        }
    }

    /// The transformation matrix that a list of values holds: its first
    /// sixteen.
    pub open spec fn matrix_of(values: Seq<FloatBits>) -> Option<Seq<FloatBits>> {
        if values.len() >= 16 {
            Some(values.subrange(0, 16))
        } else {
            None
        }
    }

    /// The tiepoints that a list of values holds: one for each full group
    /// of six.
    pub open spec fn tiepoints_of(values: Seq<FloatBits>) -> Seq<TiePointBits> {
        Seq::new(
            values.len() / 6,
            |i: int|
                TiePointBits {
                    pixel_x: values[6 * i],
                    pixel_y: values[6 * i + 1],
                    pixel_z: values[6 * i + 2],
                    geo_x: values[6 * i + 3],
                    geo_y: values[6 * i + 4],
                    geo_z: values[6 * i + 5],
                },
        )
    }

    /// The EPSG code of a GeoKey directory: see `epsg_of`.
    pub fn epsg_from_geo_keys(keys: &[u16]) -> (r: Option<u16>)
        ensures
            r == Self::epsg_of(keys@),
    {
        if keys.len() < 4 {
            return None;
        }
        let num_keys: usize = keys[3] as usize;
        let mut i: usize = 0;
        while i < num_keys
            invariant
                i <= num_keys,
                keys@.len() >= 4,
                num_keys == Self::key_count(keys@),
                Self::epsg_of(keys@) == Self::epsg_from(keys@, i as nat),
            decreases num_keys - i,
        {
            let offset: usize = 4 + i * 4;
            if offset < keys.len() && 3 < keys.len() - offset {
                let key_id = keys[offset];
                if key_id == GEOGRAPHIC_TYPE || key_id == PROJECTED_CS_TYPE {
                    return Some(keys[offset + 3]);
                }
            }
            i = i + 1;
        }
        None
    }

    /// Groups values into tiepoints: see `tiepoints_of`.
    pub fn tiepoints_from(values: &[FloatBits]) -> (r: Vec<TiePointBits>)
        ensures
            r@ == Self::tiepoints_of(values@),
    {
        let mut tiepoints: Vec<TiePointBits> = Vec::new();
        let groups: usize = values.len() / 6;
        let mut i: usize = 0;
        assert(values@.len() == values.len());
        while i < groups
            invariant
                i <= groups,
                groups == values@.len() / 6,
                values@.len() <= usize::MAX,
                tiepoints@.len() == i,
                forall|j: int|
                    #![trigger tiepoints@[j]]
                    0 <= j < i ==> tiepoints@[j] == Self::tiepoints_of(values@)[j],
            decreases groups - i,
        {
            let base: usize = 6 * i;
            tiepoints.push(
                TiePointBits {
                    pixel_x: values[base],
                    pixel_y: values[base + 1],
                    pixel_z: values[base + 2],
                    geo_x: values[base + 3],
                    geo_y: values[base + 4],
                    geo_z: values[base + 5],
                },
            );
            i = i + 1;
        }
        assert(tiepoints@ =~= Self::tiepoints_of(values@));
        tiepoints
    }

    /// Whether all georeferencing tags of a directory can be read.
    pub open spec fn readable(ifd: IFD, tag_reader: TagReader, source: Seq<u8>) -> bool {
        &&& Self::floats_readable(ifd, tags::MODEL_PIXEL_SCALE, tag_reader, source)
        &&& Self::floats_readable(ifd, tags::MODEL_TIEPOINT, tag_reader, source)
        &&& Self::floats_readable(ifd, tags::MODEL_TRANSFORMATION, tag_reader, source)
        &&& Self::shorts_readable(ifd, tags::GEO_KEY_DIRECTORY, tag_reader, source)
        &&& Self::text_readable(ifd, tags::GEO_ASCII_PARAMS, tag_reader, source)
    }

    /// Whether the floating-point values of the entry with `tag` can be
    /// read: a directory without the tag has nothing to read.
    pub open spec fn floats_readable(ifd: IFD, tag: u16, tag_reader: TagReader, source: Seq<u8>)
        -> bool {
        match ifd.spec_get_entry(tag) {
            None => true,
            Some(entry) => tag_reader.floats(entry, source) is Some,
        }
    }

    /// Whether the two-byte values of the entry with `tag` can be read.
    pub open spec fn shorts_readable(ifd: IFD, tag: u16, tag_reader: TagReader, source: Seq<u8>)
        -> bool {
        match ifd.spec_get_entry(tag) {
            None => true,
            Some(entry) => tag_reader.shorts(entry, source) is Some,
        }
    }

    /// Whether the text of the entry with `tag` can be read.
    pub open spec fn text_readable(ifd: IFD, tag: u16, tag_reader: TagReader, source: Seq<u8>)
        -> bool {
        match ifd.spec_get_entry(tag) {
            None => true,
            Some(entry) => tag_reader.ascii_readable(entry, source),
        }
    }

    /// Reads the floating-point values of the entry with `tag`, where the
    /// directory has one.
    fn read_float_tag<R: SeekableReader>(ifd: &IFD, reader: &mut TiffReader<R>, tag: u16) -> (r:
        Result<Option<Vec<FloatBits>>, Error>)
        requires
            old(reader).wf(),
            ifd.wf(),
        ensures
            final(reader).wf(),
            final(reader).same_file(old(reader)),
            final(reader).spec_tile_reader().spec_cache()
                == old(reader).spec_tile_reader().spec_cache(),
            r matches Err(e) ==> e is Io || e is InvalidFormat,
            r matches Ok(found) ==> match ifd.spec_get_entry(tag) {
                None => found is None,
                Some(entry) => found is Some && old(reader).tag_reader().floats(
                    entry,
                    old(reader).source(),
                ) == Some(found->Some_0@),
            },
            old(reader).reliable() ==> (r is Ok <==> Self::floats_readable(
                *ifd,
                tag,
                old(reader).tag_reader(),
                old(reader).source(),
            )),
    {
        match ifd.get_entry(tag) {
            None => Ok(None),
            Some(entry) => {
                let values = match reader.read_tag_double_bits(entry) {
                    Ok(v) => v,
                    Err(e) => {
                        return Err(e);
                    },
                };
                Ok(Some(values))
            },
        }
    }

    /// Reads the EPSG code from the GeoKey directory, where the directory
    /// has one.
    fn read_epsg<R: SeekableReader>(ifd: &IFD, reader: &mut TiffReader<R>) -> (r: Result<
        Option<u16>,
        Error,
    >)
        requires
            old(reader).wf(),
            ifd.wf(),
        ensures
            final(reader).wf(),
            final(reader).same_file(old(reader)),
            final(reader).spec_tile_reader().spec_cache()
                == old(reader).spec_tile_reader().spec_cache(),
            r matches Err(e) ==> e is Io,
            r matches Ok(code) ==> match ifd.spec_get_entry(tags::GEO_KEY_DIRECTORY) {
                None => code is None,
                Some(entry) => old(reader).tag_reader().shorts(entry, old(reader).source()) is Some
                    && code == Self::epsg_of(
                    old(reader).tag_reader().shorts(entry, old(reader).source())->Some_0,
                ),
            },
            old(reader).reliable() ==> (r is Ok <==> Self::shorts_readable(
                *ifd,
                tags::GEO_KEY_DIRECTORY,
                old(reader).tag_reader(),
                old(reader).source(),
            )),
    {
        match ifd.get_entry(tags::GEO_KEY_DIRECTORY) {
            None => Ok(None),
            Some(entry) => {
                let ghost tag_reader = reader.tag_reader();
                let ghost source = reader.source();
                let keys = match reader.read_tag_u16s(entry) {
                    Ok(v) => v,
                    Err(e) => {
                        return Err(e);
                    },
                };
                proof {
                    let bytes = TagReader::positioned(*entry, source);
                    let values = tag_reader.values(*entry, 2, bytes);
                    assert(values is Some);
                    assert forall|k: int| 0 <= k < keys@.len() implies keys@[k]
                        == values->Some_0[k] by {
                        assert(keys@[k] == tag_reader.element(*entry, 2, bytes, k as nat));
                    }
                    let expected = tag_reader.shorts(*entry, source)->Some_0;
                    assert(keys@ =~= expected);
                }
                Ok(Self::epsg_from_geo_keys(keys.as_slice()))
            },
        }
    }

    /// The name that the ASCII parameters give: none where they are empty.
    pub open spec fn name_of(text: Seq<char>, name: Option<String>) -> bool {
        match name {
            None => text.len() == 0,
            Some(n) => n@.len() > 0 && n@ == text,
        }
    }

    /// Reads the name of the coordinate reference system from the ASCII
    /// parameters, where the directory has them and they are not empty.
    fn read_name<R: SeekableReader>(ifd: &IFD, reader: &mut TiffReader<R>) -> (r: Result<
        Option<String>,
        Error,
    >)
        requires
            old(reader).wf(),
            ifd.wf(),
        ensures
            final(reader).wf(),
            final(reader).same_file(old(reader)),
            final(reader).spec_tile_reader().spec_cache()
                == old(reader).spec_tile_reader().spec_cache(),
            r matches Err(e) ==> e is Io || e is InvalidFormat,
            r matches Ok(name) ==> match ifd.spec_get_entry(tags::GEO_ASCII_PARAMS) {
                None => name is None,
                Some(entry) => old(reader).tag_reader().ascii_bytes(entry, old(reader).source())
                    is Some && Self::name_of(
                    crate::formats::tiff::reader::tags::utf8_lossy(
                        TagReader::trimmed(
                            old(reader).tag_reader().ascii_bytes(
                                entry,
                                old(reader).source(),
                            )->Some_0,
                        ),
                    ),
                    name,
                ),
            },
            old(reader).reliable() ==> (r is Ok <==> Self::text_readable(
                *ifd,
                tags::GEO_ASCII_PARAMS,
                old(reader).tag_reader(),
                old(reader).source(),
            )),
    {
        match ifd.get_entry(tags::GEO_ASCII_PARAMS) {
            None => Ok(None),
            Some(entry) => {
                let ascii = match reader.read_tag_ascii(entry) {
                    Ok(v) => v,
                    Err(e) => {
                        return Err(e);
                    },
                };
                if !ascii.as_str().is_empty() {
                    Ok(Some(ascii))
                } else {
                    Ok(None)
                }
            },
        }
    }

    /// Extracts GeoTIFF information from an IFD: nothing for a directory
    /// without pixel scale, tiepoints and GeoKey directory. The pixel scale is
    /// taken where its tag holds three values or more, the tiepoints from each
    /// full group of six values, the transformation matrix where its tag holds
    /// sixteen values or more, the EPSG code from the GeoKey directory, the
    /// name from the ASCII parameters where they are not empty.
    pub fn from_ifd<R: SeekableReader>(ifd: &IFD, reader: &mut TiffReader<R>) -> (r: Result<
        Option<Self>,
        Error,
    >)
        requires
            old(reader).wf(),
            ifd.wf(),
        ensures
            final(reader).wf(),
            final(reader).same_file(old(reader)),
            final(reader).spec_tile_reader().spec_cache()
                == old(reader).spec_tile_reader().spec_cache(),
            r matches Err(e) ==> e is Io || e is InvalidFormat,
            r matches Ok(found) ==> (found is Some <==> Self::has_geo_tags(*ifd)),
            r matches Ok(Some(geo)) ==> Self::read_from(geo, *ifd, *old(reader)),
            old(reader).reliable() ==> (r is Ok <==> !Self::has_geo_tags(*ifd) || Self::readable(
                *ifd,
                old(reader).tag_reader(),
                old(reader).source(),
            )),
    {
        let has_geo_tags = ifd.get_entry(tags::MODEL_PIXEL_SCALE).is_some() || ifd.get_entry(
            tags::MODEL_TIEPOINT,
        ).is_some() || ifd.get_entry(tags::GEO_KEY_DIRECTORY).is_some();
        if !has_geo_tags {
            return Ok(None);
        }
        let scale_values = match Self::read_float_tag(ifd, reader, tags::MODEL_PIXEL_SCALE) {
            Ok(v) => v,
            Err(e) => {
                return Err(e);
            },
        };
        let pixel_scale = match &scale_values {
            Some(values) => if values.len() >= 3 {
                Some((values[0], values[1], values[2]))
            } else {
                None
            },
            None => None,
        };
        let tiepoint_values = match Self::read_float_tag(ifd, reader, tags::MODEL_TIEPOINT) {
            Ok(v) => v,
            Err(e) => {
                return Err(e);
            },
        };
        let tiepoints = match &tiepoint_values {
            Some(values) => Self::tiepoints_from(values.as_slice()),
            None => Vec::new(),
        };
        let matrix_values = match Self::read_float_tag(ifd, reader, tags::MODEL_TRANSFORMATION) {
            Ok(v) => v,
            Err(e) => {
                return Err(e);
            },
        };
        let transform = match &matrix_values {
            Some(values) => if values.len() >= 16 {
                Some(
                    vstd::slice::slice_to_vec(vstd::slice::slice_subrange(values.as_slice(), 0, 16)),
                )
            } else {
                None
            },
            None => None,
        };
        let epsg_code = match Self::read_epsg(ifd, reader) {
            Ok(v) => v,
            Err(e) => {
                return Err(e);
            },
        };
        let crs_name = match Self::read_name(ifd, reader) {
            Ok(v) => v,
            Err(e) => {
                return Err(e);
            },
        };
        Ok(Some(GeoFields { pixel_scale, tiepoints, transform, epsg_code, crs_name }))
    }

    /// Whether `geo` holds what the georeferencing tags of `ifd` say in the
    /// file of `reader`.
    pub open spec fn read_from<R: SeekableReader>(geo: Self, ifd: IFD, reader: TiffReader<R>)
        -> bool {
        let tag_reader = reader.tag_reader();
        let source = reader.source();
        &&& match ifd.spec_get_entry(tags::MODEL_PIXEL_SCALE) {
            None => geo.pixel_scale is None,
            Some(entry) => tag_reader.floats(entry, source) is Some && geo.pixel_scale
                == Self::scale_of(tag_reader.floats(entry, source)->Some_0),
        }
        &&& match ifd.spec_get_entry(tags::MODEL_TIEPOINT) {
            None => geo.tiepoints@ == Seq::<TiePointBits>::empty(),
            Some(entry) => tag_reader.floats(entry, source) is Some && geo.tiepoints@
                == Self::tiepoints_of(tag_reader.floats(entry, source)->Some_0),
        }
        &&& match ifd.spec_get_entry(tags::MODEL_TRANSFORMATION) {
            None => geo.transform is None,
            Some(entry) => tag_reader.floats(entry, source) is Some && match (geo.transform, Self::matrix_of(tag_reader.floats(entry, source)->Some_0)) {
                (Some(found), Some(expected)) => found@ == expected,
                (None, None) => true,
                _ => false,
            },
        }
        &&& match ifd.spec_get_entry(tags::GEO_KEY_DIRECTORY) {
            None => geo.epsg_code is None,
            Some(entry) => tag_reader.shorts(entry, source) is Some && geo.epsg_code
                == Self::epsg_of(tag_reader.shorts(entry, source)->Some_0),
        }
        &&& match ifd.spec_get_entry(tags::GEO_ASCII_PARAMS) {
            None => geo.crs_name is None,
            Some(entry) => tag_reader.ascii_bytes(entry, source) is Some && Self::name_of(
                crate::formats::tiff::reader::tags::utf8_lossy(
                    TagReader::trimmed(tag_reader.ascii_bytes(entry, source)->Some_0),
                ),
                geo.crs_name,
            ),
        }
    }
}

} // verus!

//! TIFF tag constants

pub mod field_types;

use vstd::prelude::*;

verus! {

/// Image width in pixels
pub const IMAGE_WIDTH: u16 = 256;

/// Image height in pixels
pub const IMAGE_LENGTH: u16 = 257;

/// Bits per sample
pub const BITS_PER_SAMPLE: u16 = 258;

/// Compression scheme
pub const COMPRESSION: u16 = 259;

/// Photometric interpretation
pub const PHOTOMETRIC_INTERPRETATION: u16 = 262;

/// Image description
pub const IMAGE_DESCRIPTION: u16 = 270;

/// Strip offsets
pub const STRIP_OFFSETS: u16 = 273;

/// Samples per pixel
pub const SAMPLES_PER_PIXEL: u16 = 277;

/// Rows per strip
pub const ROWS_PER_STRIP: u16 = 278;

/// Strip byte counts
pub const STRIP_BYTE_COUNTS: u16 = 279;

/// X resolution
pub const X_RESOLUTION: u16 = 282;

/// Y resolution
pub const Y_RESOLUTION: u16 = 283;

/// Planar configuration
pub const PLANAR_CONFIGURATION: u16 = 284;

/// Resolution unit
pub const RESOLUTION_UNIT: u16 = 296;

/// Software
pub const SOFTWARE: u16 = 305;

/// Predictor
pub const PREDICTOR: u16 = 317;

/// Date/time
pub const DATE_TIME: u16 = 306;

/// Tile width
pub const TILE_WIDTH: u16 = 322;

/// Tile length
pub const TILE_LENGTH: u16 = 323;

/// Tile offsets
pub const TILE_OFFSETS: u16 = 324;

/// Tile byte counts
pub const TILE_BYTE_COUNTS: u16 = 325;

/// Sample format
pub const SAMPLE_FORMAT: u16 = 339;

/// GeoTIFF ModelPixelScaleTag
pub const MODEL_PIXEL_SCALE: u16 = 33550;

/// GeoTIFF ModelTiepointTag
pub const MODEL_TIEPOINT: u16 = 33922;

/// GeoTIFF ModelTransformationTag
pub const MODEL_TRANSFORMATION: u16 = 34264;

/// GeoTIFF GeoKeyDirectoryTag
pub const GEO_KEY_DIRECTORY: u16 = 34735;

/// GeoTIFF GeoDoubleParamsTag
pub const GEO_DOUBLE_PARAMS: u16 = 34736;

/// GeoTIFF GeoAsciiParamsTag
pub const GEO_ASCII_PARAMS: u16 = 34737;

/// GDAL metadata
pub const GDAL_METADATA: u16 = 42112;

/// GDAL no data value
pub const GDAL_NODATA: u16 = 42113;

/// The name of each TIFF tag that this crate knows; "Unknown" for the rest.
pub open spec fn spec_tag_name(tag: u16) -> Seq<char> {
    if tag == IMAGE_WIDTH {
        "ImageWidth"@
    } else if tag == IMAGE_LENGTH {
        "ImageLength"@
    } else if tag == BITS_PER_SAMPLE {
        "BitsPerSample"@
    } else if tag == COMPRESSION {
        "Compression"@
    } else if tag == PHOTOMETRIC_INTERPRETATION {
        "PhotometricInterpretation"@
    } else if tag == IMAGE_DESCRIPTION {
        "ImageDescription"@
    } else if tag == STRIP_OFFSETS {
        "StripOffsets"@
    } else if tag == SAMPLES_PER_PIXEL {
        "SamplesPerPixel"@
    } else if tag == ROWS_PER_STRIP {
        "RowsPerStrip"@
    } else if tag == STRIP_BYTE_COUNTS {
        "StripByteCounts"@
    } else if tag == X_RESOLUTION {
        "XResolution"@
    } else if tag == Y_RESOLUTION {
        "YResolution"@
    } else if tag == PLANAR_CONFIGURATION {
        "PlanarConfiguration"@
    } else if tag == RESOLUTION_UNIT {
        "ResolutionUnit"@
    } else if tag == SOFTWARE {
        "Software"@
    } else if tag == DATE_TIME {
        "DateTime"@
    } else if tag == TILE_WIDTH {
        "TileWidth"@
    } else if tag == TILE_LENGTH {
        "TileLength"@
    } else if tag == TILE_OFFSETS {
        "TileOffsets"@
    } else if tag == TILE_BYTE_COUNTS {
        "TileByteCounts"@
    } else if tag == SAMPLE_FORMAT {
        "SampleFormat"@
    } else if tag == MODEL_PIXEL_SCALE {
        "ModelPixelScale"@
    } else if tag == MODEL_TIEPOINT {
        "ModelTiepoint"@
    } else if tag == MODEL_TRANSFORMATION {
        "ModelTransformation"@
    } else if tag == GEO_KEY_DIRECTORY {
        "GeoKeyDirectory"@
    } else if tag == GEO_DOUBLE_PARAMS {
        "GeoDoubleParams"@
    } else if tag == GEO_ASCII_PARAMS {
        "GeoAsciiParams"@
    } else if tag == GDAL_METADATA {
        "GDAL_METADATA"@
    } else if tag == GDAL_NODATA {
        "GDAL_NODATA"@
    } else {
        "Unknown"@
    }
}

/// Returns the name of a TIFF tag
pub fn tag_name(tag: u16) -> (s: &'static str)
    ensures
        s@ == spec_tag_name(tag),
{
    if tag == IMAGE_WIDTH {
        "ImageWidth"
    } else if tag == IMAGE_LENGTH {
        "ImageLength"
    } else if tag == BITS_PER_SAMPLE {
        "BitsPerSample"
    } else if tag == COMPRESSION {
        "Compression"
    } else if tag == PHOTOMETRIC_INTERPRETATION {
        "PhotometricInterpretation"
    } else if tag == IMAGE_DESCRIPTION {
        "ImageDescription"
    } else if tag == STRIP_OFFSETS {
        "StripOffsets"
    } else if tag == SAMPLES_PER_PIXEL {
        "SamplesPerPixel"
    } else if tag == ROWS_PER_STRIP {
        "RowsPerStrip"
    } else if tag == STRIP_BYTE_COUNTS {
        "StripByteCounts"
    } else if tag == X_RESOLUTION {
        "XResolution"
    } else if tag == Y_RESOLUTION {
        "YResolution"
    } else if tag == PLANAR_CONFIGURATION {
        "PlanarConfiguration"
    } else if tag == RESOLUTION_UNIT {
        "ResolutionUnit"
    } else if tag == SOFTWARE {
        "Software"
    } else if tag == DATE_TIME {
        "DateTime"
    } else if tag == TILE_WIDTH {
        "TileWidth"
    } else if tag == TILE_LENGTH {
        "TileLength"
    } else if tag == TILE_OFFSETS {
        "TileOffsets"
    } else if tag == TILE_BYTE_COUNTS {
        "TileByteCounts"
    } else if tag == SAMPLE_FORMAT {
        "SampleFormat"
    } else if tag == MODEL_PIXEL_SCALE {
        "ModelPixelScale"
    } else if tag == MODEL_TIEPOINT {
        "ModelTiepoint"
    } else if tag == MODEL_TRANSFORMATION {
        "ModelTransformation"
    } else if tag == GEO_KEY_DIRECTORY {
        "GeoKeyDirectory"
    } else if tag == GEO_DOUBLE_PARAMS {
        "GeoDoubleParams"
    } else if tag == GEO_ASCII_PARAMS {
        "GeoAsciiParams"
    } else if tag == GDAL_METADATA {
        "GDAL_METADATA"
    } else if tag == GDAL_NODATA {
        "GDAL_NODATA"
    } else {
        "Unknown"
    }
}

/// The name of each field type; "Unknown" for the rest.
pub open spec fn spec_field_type_name(field_type: u16) -> Seq<char> {
    if field_type == field_types::BYTE {
        "BYTE"@
    } else if field_type == field_types::ASCII {
        "ASCII"@
    } else if field_type == field_types::SHORT {
        "SHORT"@
    } else if field_type == field_types::LONG {
        "LONG"@
    } else if field_type == field_types::RATIONAL {
        "RATIONAL"@
    } else if field_type == field_types::SBYTE {
        "SBYTE"@
    } else if field_type == field_types::UNDEFINED {
        "UNDEFINED"@
    } else if field_type == field_types::SSHORT {
        "SSHORT"@
    } else if field_type == field_types::SLONG {
        "SLONG"@
    } else if field_type == field_types::SRATIONAL {
        "SRATIONAL"@
    } else if field_type == field_types::FLOAT {
        "FLOAT"@
    } else if field_type == field_types::DOUBLE {
        "DOUBLE"@
    } else if field_type == field_types::LONG8 {
        "LONG8"@
    } else if field_type == field_types::SLONG8 {
        "SLONG8"@
    } else if field_type == field_types::IFD8 {
        "IFD8"@
    } else {
        "Unknown"@
    }
}

/// Returns the name of a field type
pub fn field_type_name(field_type: u16) -> (s: &'static str)
    ensures
        s@ == spec_field_type_name(field_type),
{
    if field_type == field_types::BYTE {
        "BYTE"
    } else if field_type == field_types::ASCII {
        "ASCII"
    } else if field_type == field_types::SHORT {
        "SHORT"
    } else if field_type == field_types::LONG {
        "LONG"
    } else if field_type == field_types::RATIONAL {
        "RATIONAL"
    } else if field_type == field_types::SBYTE {
        "SBYTE"
    } else if field_type == field_types::UNDEFINED {
        "UNDEFINED"
    } else if field_type == field_types::SSHORT {
        "SSHORT"
    } else if field_type == field_types::SLONG {
        "SLONG"
    } else if field_type == field_types::SRATIONAL {
        "SRATIONAL"
    } else if field_type == field_types::FLOAT {
        "FLOAT"
    } else if field_type == field_types::DOUBLE {
        "DOUBLE"
    } else if field_type == field_types::LONG8 {
        "LONG8"
    } else if field_type == field_types::SLONG8 {
        "SLONG8"
    } else if field_type == field_types::IFD8 {
        "IFD8"
    } else {
        "Unknown"
    }
}

} // verus!

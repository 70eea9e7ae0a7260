use rasterkit::formats::tiff::tags;
use rasterkit::formats::tiff::tags::field_types;
use rasterkit::formats::tiff::tags::{field_type_name, tag_name};
use rasterkit::formats::tiff::{IFDEntry, Tiff, BIGTIFF_MAGIC, IFD, TIFF_MAGIC};
use rasterkit::DataType;

#[test]
fn test_ifd_entry_creation() {
    let entry = IFDEntry::new(256, 4, 1, 1024);
    assert_eq!(entry.tag, 256);
    assert_eq!(entry.field_type, 4);
    assert_eq!(entry.count, 1);
    assert_eq!(entry.value_offset, 1024);
}

#[test]
fn test_field_type_size() {
    let entry = IFDEntry::new(256, tags::field_types::BYTE, 1, 0);
    assert_eq!(entry.field_type_size(), 1);

    let entry = IFDEntry::new(256, tags::field_types::SHORT, 1, 0);
    assert_eq!(entry.field_type_size(), 2);

    let entry = IFDEntry::new(256, tags::field_types::LONG, 1, 0);
    assert_eq!(entry.field_type_size(), 4);

    let entry = IFDEntry::new(256, tags::field_types::DOUBLE, 1, 0);
    assert_eq!(entry.field_type_size(), 8);
}

#[test]
fn test_is_inline() {
    let entry = IFDEntry::new(256, tags::field_types::SHORT, 1, 0);
    assert!(entry.is_inline(false));

    let entry = IFDEntry::new(256, tags::field_types::LONG, 2, 0);
    assert!(!entry.is_inline(false));
    assert!(entry.is_inline(true));
}

#[test]
fn test_ifd_creation() {
    let ifd = IFD::new(0, 1000);
    assert_eq!(ifd.number, 0);
    assert_eq!(ifd.offset, 1000);
    assert_eq!(ifd.entry_count(), 0);
}

#[test]
fn test_add_and_get_entry() {
    let mut ifd = IFD::new(0, 1000);
    let entry = IFDEntry::new(tags::IMAGE_WIDTH, tags::field_types::LONG, 1, 1024);
    ifd.add_entry(entry);

    assert_eq!(ifd.entry_count(), 1);
    assert!(ifd.get_entry(tags::IMAGE_WIDTH).is_some());
    assert_eq!(ifd.get_tag_value(tags::IMAGE_WIDTH), Some(1024));
}

#[test]
fn ifd_test_dimensions() {
    let mut ifd = IFD::new(0, 1000);
    ifd.add_entry(IFDEntry::new(tags::IMAGE_WIDTH, tags::field_types::LONG, 1, 1024));
    ifd.add_entry(IFDEntry::new(tags::IMAGE_LENGTH, tags::field_types::LONG, 1, 768));

    let dims = ifd.dimensions().unwrap();
    assert_eq!(dims.width, 1024);
    assert_eq!(dims.height, 768);
}

#[test]
fn test_samples_per_pixel() {
    let mut ifd = IFD::new(0, 1000);
    assert_eq!(ifd.samples_per_pixel(), 1);

    ifd.add_entry(IFDEntry::new(tags::SAMPLES_PER_PIXEL, tags::field_types::SHORT, 1, 3));
    assert_eq!(ifd.samples_per_pixel(), 3);
}

#[test]
fn test_is_tiled() {
    let mut ifd = IFD::new(0, 1000);
    assert!(!ifd.is_tiled());

    ifd.add_entry(IFDEntry::new(tags::TILE_WIDTH, tags::field_types::LONG, 1, 256));
    assert!(ifd.is_tiled());
}

#[test]
fn test_tag_name() {
    assert_eq!(tag_name(tags::IMAGE_WIDTH), "ImageWidth");
    assert_eq!(tag_name(tags::COMPRESSION), "Compression");
    assert_eq!(tag_name(9999), "Unknown");
}

#[test]
fn test_field_type_name() {
    assert_eq!(field_type_name(field_types::BYTE), "BYTE");
    assert_eq!(field_type_name(field_types::SHORT), "SHORT");
    assert_eq!(field_type_name(field_types::LONG8), "LONG8");
    assert_eq!(field_type_name(9999), "Unknown");
}

#[test]
fn test_tiff_creation() {
    let tiff = Tiff::new(false);
    assert!(!tiff.is_big_tiff);
    assert_eq!(tiff.ifd_count(), 0);
}

#[test]
fn test_bigtiff_creation() {
    let tiff = Tiff::new(true);
    assert!(tiff.is_big_tiff);
}

#[test]
fn test_add_ifd() {
    let mut tiff = Tiff::new(false);
    let ifd = IFD::new(0, 1000);
    tiff.add_ifd(ifd);

    assert_eq!(tiff.ifd_count(), 1);
    assert!(tiff.main_ifd().is_some());
}

#[test]
fn test_main_ifd() {
    let mut tiff = Tiff::new(false);
    assert!(tiff.main_ifd().is_none());

    let mut ifd = IFD::new(0, 1000);
    ifd.add_entry(IFDEntry::new(tags::IMAGE_WIDTH, tags::field_types::LONG, 1, 1024));
    tiff.add_ifd(ifd);

    let main = tiff.main_ifd().unwrap();
    assert_eq!(main.number, 0);
    assert_eq!(main.get_tag_value(tags::IMAGE_WIDTH), Some(1024));
}

#[test]
fn test_display() {
    let mut tiff = Tiff::new(true);
    let mut ifd = IFD::new(0, 8);
    ifd.add_entry(IFDEntry::new(tags::IMAGE_WIDTH, tags::field_types::LONG, 1, 1024));
    ifd.add_entry(IFDEntry::new(tags::IMAGE_LENGTH, tags::field_types::LONG, 1, 768));
    ifd.add_entry(IFDEntry::new(tags::SAMPLES_PER_PIXEL, tags::field_types::SHORT, 1, 3));
    tiff.add_ifd(ifd);

    let output = tiff.to_string();
    assert!(output.contains("BigTIFF"));
    assert!(output.contains("1024 x 768"));
    assert!(output.contains("Samples per pixel: 3"));
}

#[test]
fn tiff_description_in_full() {
    let mut tiff = Tiff::new(false);
    assert_eq!(
        tiff.to_string(),
        "TIFF File Information:\n  Format: TIFF\n  Number of IFDs: 0\n"
    );
    let mut ifd = IFD::new(0, 8);
    ifd.add_entry(IFDEntry::new(tags::IMAGE_WIDTH, field_types::LONG, 1, 512));
    ifd.add_entry(IFDEntry::new(tags::IMAGE_LENGTH, field_types::LONG, 1, 256));
    ifd.add_entry(IFDEntry::new(tags::BITS_PER_SAMPLE, field_types::SHORT, 1, 8));
    ifd.add_entry(IFDEntry::new(tags::COMPRESSION, field_types::SHORT, 1, 5));
    ifd.add_entry(IFDEntry::new(tags::TILE_WIDTH, field_types::LONG, 1, 128));
    ifd.add_entry(IFDEntry::new(tags::TILE_LENGTH, field_types::LONG, 1, 64));
    ifd.add_entry(IFDEntry::new(tags::MODEL_PIXEL_SCALE, field_types::DOUBLE, 3, 100));
    ifd.add_entry(IFDEntry::new(tags::GEO_KEY_DIRECTORY, field_types::SHORT, 8, 200));
    tiff.add_ifd(ifd);
    let expected = [
        "TIFF File Information:",
        "  Format: TIFF",
        "  Number of IFDs: 1",
        "",
        "Main Image (IFD 0):",
        "  Dimensions: 512 x 256",
        "  Samples per pixel: 1",
        "  Bits per sample: 8",
        "  Compression: 5",
        "  Tiled: Yes",
        "  Tile size: 128 x 64",
        "  GeoTIFF: Yes",
        "",
        "GeoTIFF Tags Found:",
        "  Tag 33550: ModelPixelScale (3 values)",
        "  Tag 34735: GeoKeyDirectory (8 values)",
        "",
    ]
    .join("\n");
    assert_eq!(tiff.to_string(), expected);
    assert_eq!(tiff.all_ifds().len(), 1);
}

#[test]
fn magic_numbers() {
    assert_eq!(TIFF_MAGIC, 42);
    assert_eq!(BIGTIFF_MAGIC, 43);
}

#[test]
fn a_later_entry_hides_an_earlier_one_with_its_tag() {
    let mut ifd = IFD::new(2, 64);
    ifd.add_entry(IFDEntry::new(tags::IMAGE_WIDTH, field_types::LONG, 1, 10));
    ifd.add_entry(IFDEntry::new(tags::IMAGE_LENGTH, field_types::LONG, 1, 20));
    ifd.add_entry(IFDEntry::new(tags::IMAGE_WIDTH, field_types::LONG, 1, 30));
    assert_eq!(ifd.entry_count(), 3);
    assert_eq!(ifd.get_tag_value(tags::IMAGE_WIDTH), Some(30));
    assert_eq!(ifd.get_tag_value(tags::IMAGE_LENGTH), Some(20));
    assert_eq!(ifd.get_tag_value(tags::TILE_WIDTH), None);
    let copy = ifd.duplicate();
    assert_eq!(copy.number, 2);
    assert_eq!(copy.offset, 64);
    assert_eq!(copy.entries, ifd.entries);
    assert_eq!(copy.get_tag_value(tags::IMAGE_WIDTH), Some(30));
}

#[test]
fn inline_is_decided_by_the_size_of_all_values() {
    assert!(IFDEntry::new(1, field_types::BYTE, 4, 0).is_inline(false));
    assert!(!IFDEntry::new(1, field_types::BYTE, 5, 0).is_inline(false));
    assert!(IFDEntry::new(1, field_types::BYTE, 8, 0).is_inline(true));
    assert!(!IFDEntry::new(1, field_types::BYTE, 9, 0).is_inline(true));
    assert!(IFDEntry::new(1, field_types::SHORT, 2, 0).is_inline(false));
    assert!(!IFDEntry::new(1, field_types::SHORT, 3, 0).is_inline(false));
    assert!(!IFDEntry::new(1, field_types::DOUBLE, 1, 0).is_inline(false));
    assert!(IFDEntry::new(1, field_types::DOUBLE, 1, 0).is_inline(true));
    assert!(IFDEntry::new(1, field_types::DOUBLE, 0, 0).is_inline(false));
    assert!(!IFDEntry::new(1, field_types::LONG8, u64::MAX, 0).is_inline(true));
    assert!(!IFDEntry::new(1, 99, 5, 0).is_inline(false));
    assert_eq!(IFDEntry::new(1, 99, 5, 0).field_type_size(), 1);
    assert_eq!(IFDEntry::new(1, field_types::RATIONAL, 1, 0).field_type_size(), 8);
    assert_eq!(IFDEntry::new(1, field_types::FLOAT, 1, 0).field_type_size(), 4);
    assert_eq!(IFDEntry::new(1, field_types::SSHORT, 1, 0).field_type_size(), 2);
}

#[test]
fn data_type_of_a_directory() {
    let cases: [(u64, u64, Option<DataType>); 10] = [
        (1, 8, Some(DataType::U8)),
        (1, 16, Some(DataType::U16)),
        (1, 32, Some(DataType::U32)),
        (2, 8, Some(DataType::I8)),
        (2, 16, Some(DataType::I16)),
        (2, 32, Some(DataType::I32)),
        (3, 32, Some(DataType::F32)),
        (3, 64, Some(DataType::F64)),
        (3, 16, None),
        (4, 8, None),
    ];
    for (format, bits, expected) in cases {
        let mut ifd = IFD::new(0, 0);
        ifd.add_entry(IFDEntry::new(tags::BITS_PER_SAMPLE, field_types::SHORT, 1, bits));
        ifd.add_entry(IFDEntry::new(tags::SAMPLE_FORMAT, field_types::SHORT, 1, format));
        assert_eq!(ifd.data_type(), expected);
        assert_eq!(ifd.sample_format(), format);
        assert_eq!(ifd.bits_per_sample(), Some(bits));
    }
    let mut plain = IFD::new(0, 0);
    assert_eq!(plain.data_type(), None);
    assert_eq!(plain.sample_format(), 1);
    assert_eq!(plain.compression(), None);
    plain.add_entry(IFDEntry::new(tags::BITS_PER_SAMPLE, field_types::SHORT, 1, 16));
    assert_eq!(plain.data_type(), Some(DataType::U16));
}

#[test]
fn geotiff_tags_of_a_directory() {
    let mut ifd = IFD::new(0, 0);
    assert!(!ifd.is_geotiff());
    ifd.add_entry(IFDEntry::new(tags::IMAGE_WIDTH, field_types::LONG, 1, 10));
    ifd.add_entry(IFDEntry::new(tags::GEO_ASCII_PARAMS, field_types::ASCII, 4, 99));
    ifd.add_entry(IFDEntry::new(tags::MODEL_TIEPOINT, field_types::DOUBLE, 6, 40));
    assert!(ifd.is_geotiff());
    let found: Vec<u16> = ifd.geotiff_tags().iter().map(|e| e.tag).collect();
    assert_eq!(found, vec![tags::GEO_ASCII_PARAMS, tags::MODEL_TIEPOINT]);
    assert_eq!(ifd.tile_dimensions(), None);
    assert_eq!(ifd.dimensions(), None);
}

#[test]
fn names_of_all_field_types() {
    assert_eq!(field_type_name(field_types::ASCII), "ASCII");
    assert_eq!(field_type_name(field_types::RATIONAL), "RATIONAL");
    assert_eq!(field_type_name(field_types::SBYTE), "SBYTE");
    assert_eq!(field_type_name(field_types::UNDEFINED), "UNDEFINED");
    assert_eq!(field_type_name(field_types::SSHORT), "SSHORT");
    assert_eq!(field_type_name(field_types::SLONG), "SLONG");
    assert_eq!(field_type_name(field_types::SRATIONAL), "SRATIONAL");
    assert_eq!(field_type_name(field_types::FLOAT), "FLOAT");
    assert_eq!(field_type_name(field_types::DOUBLE), "DOUBLE");
    assert_eq!(field_type_name(field_types::SLONG8), "SLONG8");
    assert_eq!(field_type_name(field_types::IFD8), "IFD8");
    assert_eq!(tag_name(tags::TILE_OFFSETS), "TileOffsets");
    assert_eq!(tag_name(tags::GDAL_NODATA), "GDAL_NODATA");
    assert_eq!(tag_name(tags::PREDICTOR), "Unknown");
}

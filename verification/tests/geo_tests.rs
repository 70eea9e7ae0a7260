use rasterkit::api::batch::Batch;
use rasterkit::api::models::{default_epsg, CsvRow};
use rasterkit::api::ErrorResponse;
use rasterkit::formats::tiff::geotiff::{GeoFields, TiePointBits};
use rasterkit::formats::tiff::reader::tags::FloatBits;
use rasterkit::formats::tiff::reader::TiffReader;
use rasterkit::formats::tiff::tags;
use rasterkit::formats::tiff::tags::field_types;
use rasterkit::formats::tiff::{IFDEntry, IFD};
use rasterkit::projection::custom::ProjectionBuilder;
use rasterkit::projection::datum::Datum;
use rasterkit::projection::epsg;
use rasterkit::projection::grid::{GridShift, GridShiftBuilder};
use rasterkit::Error;

#[test]
fn test_datum_proj_string() {
    assert_eq!(Datum::WGS84.to_proj_string(), "+datum=WGS84");
    assert_eq!(Datum::NAD83.to_proj_string(), "+datum=NAD83");
    assert_eq!(Datum::NAD27.to_proj_string(), "+datum=NAD27");
}

#[test]
fn test_grid_shift_builder() {
    let builder = GridShiftBuilder::new();
    assert_eq!(builder.grid_files.len(), 0);
    assert!(!builder.use_vgrid);
}

#[test]
fn datum_definitions() {
    assert_eq!(Datum::ETRS89.to_proj_string(), "+datum=ETRS89");
    assert_eq!(Datum::GDA94.to_proj_string(), "+datum=GDA94");
    assert_eq!(Datum::GDA2020.to_proj_string(), "+datum=GDA2020");
    assert_eq!(Datum::Custom.to_proj_string(), "");
    assert_eq!(
        Datum::transform_definition(Datum::WGS84, Datum::NAD83),
        "+proj=longlat +datum=WGS84 +to +proj=longlat +datum=NAD83"
    );
    assert_eq!(
        Datum::transform_definition(Datum::Custom, Datum::NAD27),
        "+proj=longlat  +to +proj=longlat +datum=NAD27"
    );
}

#[test]
fn names_of_coordinate_reference_systems() {
    assert_eq!(epsg::crs_name(epsg::WGS84), "EPSG:4326");
    assert_eq!(epsg::crs_name(epsg::WEB_MERCATOR), "EPSG:3857");
    assert_eq!(epsg::crs_name(0), "EPSG:0");
    assert_eq!(epsg::crs_name(65535), "EPSG:65535");
    assert_eq!(default_epsg(), 4326);
}

#[test]
fn projection_definitions() {
    let builder = ProjectionBuilder::new().projection_type("utm").parameter("zone", "33").ellipsoid("WGS84");
    assert_eq!(builder.definition().unwrap(), "+proj=utm +ellps=WGS84 +zone=33");
    let full = ProjectionBuilder::new()
        .projection_type("tmerc")
        .parameter("lat_0", "0")
        .parameter("lon_0", "15")
        .datum("NAD83")
        .units("m")
        .ellipsoid("GRS80")
        .parameter("north", "");
    assert_eq!(
        full.definition().unwrap(),
        "+proj=tmerc +ellps=GRS80 +datum=NAD83 +lat_0=0 +lon_0=15 +units=m +north="
    );
    assert_eq!(ProjectionBuilder::new().projection_type("longlat").definition().unwrap(), "+proj=longlat");
    assert_eq!(
        ProjectionBuilder::new().projection_type("a").projection_type("b").datum("d").definition().unwrap(),
        "+proj=b +datum=d"
    );
    assert!(matches!(ProjectionBuilder::new().definition(), Err(Error::Projection(_))));
    assert!(matches!(
        ProjectionBuilder::default().ellipsoid("WGS84").parameter("k", "1").definition(),
        Err(Error::Projection(_))
    ));
}

#[test]
fn grid_shift_definitions() {
    assert!(matches!(GridShiftBuilder::new().pipeline(), Err(Error::Projection(_))));
    let one = GridShiftBuilder::new().add_horizontal_grid("a.gsb").unwrap();
    assert!(!one.use_vgrid);
    assert_eq!(one.pipeline().unwrap(), "+proj=pipeline +step +proj=hgridshift +grids=a.gsb");
    let two = one.add_vertical_grid("b.gtx").unwrap();
    assert!(two.use_vgrid);
    assert_eq!(two.grid_files.len(), 2);
    assert_eq!(
        two.pipeline().unwrap(),
        "+proj=pipeline +step +proj=hgridshift +grids=a.gsb +step +proj=vgridshift +grids=b.gtx"
    );
    let shift = GridShift::new("grids/ca.gsb", true).unwrap();
    assert_eq!(shift.grid_path(), "grids/ca.gsb");
    assert_eq!(shift.definition(), "+proj=pipeline +step +proj=hgridshift +grids=grids/ca.gsb");
    match GridShift::new("missing.gsb", false) {
        Err(Error::Projection(message)) => assert_eq!(message, "Grid file not found: missing.gsb"),
        _ => panic!("expected a projection error"),
    }
    assert!(GridShiftBuilder::default().grid_files.is_empty());
}

// ---------------------------------------------------------------------------
// georeferencing tags

#[test]
fn epsg_code_of_a_key_directory() {
    // header: version 1.1.0, three keys
    let keys = [1u16, 1, 0, 3, 1024, 0, 1, 1, 3072, 0, 1, 32617, 2048, 0, 1, 4326];
    assert_eq!(GeoFields::epsg_from_geo_keys(&keys), Some(32617));
    let geographic = [1u16, 1, 0, 2, 2048, 0, 1, 4326, 3072, 0, 1, 32617];
    assert_eq!(GeoFields::epsg_from_geo_keys(&geographic), Some(4326));
    let none = [1u16, 1, 0, 1, 1024, 0, 1, 1];
    assert_eq!(GeoFields::epsg_from_geo_keys(&none), None);
    // only as many keys as the header announces are looked at
    let announced = [1u16, 1, 0, 1, 1024, 0, 1, 1, 2048, 0, 1, 4326];
    assert_eq!(GeoFields::epsg_from_geo_keys(&announced), None);
    // a key that is cut short does not count
    let cut = [1u16, 1, 0, 2, 1024, 0, 1, 1, 2048, 0, 1];
    assert_eq!(GeoFields::epsg_from_geo_keys(&cut), None);
    assert_eq!(GeoFields::epsg_from_geo_keys(&[1, 1, 0]), None);
    assert_eq!(GeoFields::epsg_from_geo_keys(&[]), None);
    assert_eq!(GeoFields::epsg_from_geo_keys(&[1, 1, 0, 65535, 3072, 0, 1, 3857]), Some(3857));
}

#[test]
fn tiepoints_are_groups_of_six() {
    let values: Vec<FloatBits> = (0..14).map(|i| FloatBits::Double(i)).collect();
    let points = GeoFields::tiepoints_from(&values);
    assert_eq!(points.len(), 2);
    assert_eq!(
        points[1],
        TiePointBits {
            pixel_x: FloatBits::Double(6),
            pixel_y: FloatBits::Double(7),
            pixel_z: FloatBits::Double(8),
            geo_x: FloatBits::Double(9),
            geo_y: FloatBits::Double(10),
            geo_z: FloatBits::Double(11),
        }
    );
    assert!(GeoFields::tiepoints_from(&values[..5]).is_empty());
}

fn geo_file() -> Vec<u8> {
    let mut bytes = Vec::new();
    bytes.extend_from_slice(b"II");
    bytes.extend_from_slice(&42u16.to_le_bytes());
    bytes.extend_from_slice(&0u32.to_le_bytes());
    let scale_at = bytes.len() as u32;
    for v in [30.0f64, 30.0, 0.0] {
        bytes.extend_from_slice(&v.to_le_bytes());
    }
    let tie_at = bytes.len() as u32;
    for v in [0.0f64, 0.0, 0.0, 500000.0, 4649776.0, 0.0] {
        bytes.extend_from_slice(&v.to_le_bytes());
    }
    let keys_at = bytes.len() as u32;
    for v in [1u16, 1, 0, 2, 1024, 0, 1, 1, 3072, 0, 1, 32617] {
        bytes.extend_from_slice(&v.to_le_bytes());
    }
    let ascii_at = bytes.len() as u32;
    bytes.extend_from_slice(b"WGS 84 / UTM zone 17N|\0");
    let ifd_at = bytes.len() as u32;
    bytes[4..8].copy_from_slice(&ifd_at.to_le_bytes());
    let entries: [(u16, u16, u32, u32); 5] = [
        (tags::IMAGE_WIDTH, field_types::LONG, 1, 100),
        (tags::MODEL_PIXEL_SCALE, field_types::DOUBLE, 3, scale_at),
        (tags::MODEL_TIEPOINT, field_types::DOUBLE, 6, tie_at),
        (tags::GEO_KEY_DIRECTORY, field_types::SHORT, 12, keys_at),
        (tags::GEO_ASCII_PARAMS, field_types::ASCII, 23, ascii_at),
    ];
    bytes.extend_from_slice(&(entries.len() as u16).to_le_bytes());
    for (tag, field_type, count, value) in entries {
        bytes.extend_from_slice(&tag.to_le_bytes());
        bytes.extend_from_slice(&field_type.to_le_bytes());
        bytes.extend_from_slice(&count.to_le_bytes());
        bytes.extend_from_slice(&value.to_le_bytes());
    }
    bytes.extend_from_slice(&0u32.to_le_bytes());
    bytes
}

fn double(bits: FloatBits) -> f64 {
    match bits {
        FloatBits::Double(b) => f64::from_bits(b),
        FloatBits::Single(b) => f32::from_bits(b) as f64,
    }
}

#[test]
fn georeferencing_of_a_file() {
    let mut reader = TiffReader::from_bytes(geo_file()).unwrap();
    let tiff = reader.read().unwrap();
    let ifd = tiff.main_ifd().unwrap();
    assert!(ifd.is_geotiff());
    let geo = GeoFields::from_ifd(ifd, &mut reader).unwrap().unwrap();
    let (sx, sy, sz) = geo.pixel_scale.unwrap();
    assert_eq!((double(sx), double(sy), double(sz)), (30.0, 30.0, 0.0));
    assert_eq!(geo.tiepoints.len(), 1);
    assert_eq!(double(geo.tiepoints[0].geo_x), 500000.0);
    assert_eq!(double(geo.tiepoints[0].geo_y), 4649776.0);
    assert_eq!(double(geo.tiepoints[0].pixel_x), 0.0);
    assert_eq!(geo.epsg_code, Some(32617));
    assert_eq!(geo.crs_name.as_deref(), Some("WGS 84 / UTM zone 17N|"));
    assert_eq!(geo.transform, None);
    // a directory that gives the transformation as a matrix: the eighteen doubles
    // of scale and tiepoint, read as sixteen
    let mut matrix = IFD::new(0, 0);
    matrix.add_entry(IFDEntry::new(tags::MODEL_PIXEL_SCALE, field_types::DOUBLE, 0, 8));
    matrix.add_entry(IFDEntry::new(tags::MODEL_TRANSFORMATION, field_types::DOUBLE, 18, 8));
    let geo = GeoFields::from_ifd(&matrix, &mut reader).unwrap().unwrap();
    let found: Vec<f64> = geo.transform.unwrap().into_iter().map(double).collect();
    assert_eq!(found.len(), 16);
    assert_eq!(&found[..4], &[30.0, 30.0, 0.0, 0.0]);
    assert_eq!(found[6], 500000.0);
    assert_eq!(found[7], 4649776.0);
    assert_eq!(geo.pixel_scale, None);
}

#[test]
fn directories_without_georeferencing() {
    let mut reader = TiffReader::from_bytes(geo_file()).unwrap();
    let mut plain = IFD::new(0, 0);
    plain.add_entry(IFDEntry::new(tags::IMAGE_WIDTH, field_types::LONG, 1, 100));
    plain.add_entry(IFDEntry::new(tags::GEO_ASCII_PARAMS, field_types::ASCII, 2, 0x4142));
    assert!(GeoFields::from_ifd(&plain, &mut reader).unwrap().is_none());
    let mut keys_only = IFD::new(0, 0);
    // four shorts in the slot of a classic file are not inline: they are read at offset 8
    keys_only.add_entry(IFDEntry::new(tags::GEO_KEY_DIRECTORY, field_types::SHORT, 2, 0x0001_0001));
    keys_only.add_entry(IFDEntry::new(tags::GEO_ASCII_PARAMS, field_types::ASCII, 3, 0));
    let geo = GeoFields::from_ifd(&keys_only, &mut reader).unwrap().unwrap();
    assert_eq!(geo.pixel_scale, None);
    assert!(geo.tiepoints.is_empty());
    assert_eq!(geo.epsg_code, None);
    assert_eq!(geo.crs_name, None);
    let mut short_scale = IFD::new(0, 0);
    short_scale.add_entry(IFDEntry::new(tags::MODEL_PIXEL_SCALE, field_types::DOUBLE, 2, 8));
    let geo = GeoFields::from_ifd(&short_scale, &mut reader).unwrap().unwrap();
    assert_eq!(geo.pixel_scale, None);
    let mut beyond = IFD::new(0, 0);
    beyond.add_entry(IFDEntry::new(tags::MODEL_TIEPOINT, field_types::DOUBLE, 6, 100000));
    assert!(matches!(GeoFields::from_ifd(&beyond, &mut reader), Err(Error::Io(_))));
    let mut wrong_type = IFD::new(0, 0);
    wrong_type.add_entry(IFDEntry::new(tags::MODEL_PIXEL_SCALE, field_types::LONG, 3, 8));
    assert!(matches!(GeoFields::from_ifd(&wrong_type, &mut reader), Err(Error::InvalidFormat(_))));
}

// ---------------------------------------------------------------------------
// the answer to a batch

fn row(latitude: &str, longitude: &str, name: Option<&str>) -> CsvRow {
    CsvRow {
        latitude: latitude.to_string(),
        longitude: longitude.to_string(),
        name: name.map(|n| n.to_string()),
    }
}

#[test]
fn csv_answer_to_one_point() {
    let rows = vec![row("43.65", "-79.38", None)];
    let text = Batch::render_csv(&rows, &[Some(7)], "1.25", "800");
    let lines: Vec<&str> = text.lines().collect();
    assert_eq!(
        lines,
        vec![
            "# Total points: 1",
            "# Successful: 1",
            "# Failed: 0",
            "# Execution time: 1.25 ms",
            "# Pixels per second: 800",
            "latitude,longitude,exposure_value",
            "43.65,-79.38,7",
        ]
    );
    assert!(text.ends_with("43.65,-79.38,7\n"));
}

#[test]
fn csv_answer_with_names_and_points_outside() {
    let rows = vec![
        row("43.65", "-79.38", Some("Toronto")),
        row("0", "0", None),
        row("45.5", "-73.56", Some("")),
        row("49.28", "-123.12", Some("Vancouver")),
    ];
    let text = Batch::render_csv(&rows, &[Some(7), None, Some(255)], "10.00", "300");
    let expected = "# Total points: 4\n# Successful: 2\n# Failed: 2\n# Execution time: 10.00 ms\n\
# Pixels per second: 300\nlatitude,longitude,name,exposure_value\n43.65,-79.38,Toronto,7\n\
0,0,,OUT_OF_BOUNDS\n45.5,-73.56,,255\n49.28,-123.12,Vancouver,OUT_OF_BOUNDS\n";
    assert_eq!(text, expected);
    assert!(Batch::any_names(&rows));
    assert_eq!(Batch::count_successful(&rows, &[Some(7), None, Some(255)]), 2);
}

#[test]
fn csv_answer_without_names_that_count() {
    let rows = vec![row("1", "2", Some("")), row("3", "4", None)];
    assert!(!Batch::any_names(&rows));
    let text = Batch::render_csv(&rows, &[Some(0), Some(9), Some(1)], "0.10", "0");
    let expected = "# Total points: 2\n# Successful: 2\n# Failed: 0\n# Execution time: 0.10 ms\n\
# Pixels per second: 0\nlatitude,longitude,exposure_value\n1,2,0\n3,4,9\n";
    assert_eq!(text, expected);
    let empty = Batch::render_csv(&[], &[], "0.00", "0");
    assert_eq!(
        empty,
        "# Total points: 0\n# Successful: 0\n# Failed: 0\n# Execution time: 0.00 ms\n\
# Pixels per second: 0\nlatitude,longitude,exposure_value\n"
    );
}

#[test]
fn marked_coordinates_are_left_out_and_get_no_value() {
    let out = (u64::MAX, u64::MAX);
    let coords = [(1, 2), out, (3, 4), out, out, (5, 6)];
    assert_eq!(Batch::valid_coordinates(&coords), vec![(1, 2), (3, 4), (5, 6)]);
    assert_eq!(
        Batch::place_values(&coords, &[10, 20, 30]),
        vec![Some(10), None, Some(20), None, None, Some(30)]
    );
    assert_eq!(Batch::valid_coordinates(&[out]), vec![]);
    assert_eq!(Batch::place_values(&[out], &[]), vec![None]);
    assert_eq!(Batch::place_values(&[], &[]), vec![]);
    // only the first place marks a coordinate
    assert_eq!(Batch::valid_coordinates(&[(0, u64::MAX)]), vec![(0, u64::MAX)]);
}

#[test]
fn exposures_of_a_batch() {
    // one tile of 2 x 2 samples
    let mut bytes = Vec::new();
    bytes.extend_from_slice(b"II");
    bytes.extend_from_slice(&42u16.to_le_bytes());
    bytes.extend_from_slice(&0u32.to_le_bytes());
    let tile_at = bytes.len() as u32;
    bytes.extend_from_slice(&[7, 8, 9, 10]);
    let offsets_at = bytes.len() as u32;
    bytes.extend_from_slice(&tile_at.to_le_bytes());
    bytes.extend_from_slice(&0u32.to_le_bytes());
    let counts_at = bytes.len() as u32;
    bytes.extend_from_slice(&4u32.to_le_bytes());
    bytes.extend_from_slice(&0u32.to_le_bytes());
    let ifd_at = bytes.len() as u32;
    bytes[4..8].copy_from_slice(&ifd_at.to_le_bytes());
    let entries: [(u16, u16, u32, u32); 6] = [
        (tags::IMAGE_WIDTH, field_types::LONG, 1, 2),
        (tags::IMAGE_LENGTH, field_types::LONG, 1, 2),
        (tags::TILE_WIDTH, field_types::LONG, 1, 2),
        (tags::TILE_LENGTH, field_types::LONG, 1, 2),
        (tags::TILE_OFFSETS, field_types::LONG, 2, offsets_at),
        (tags::TILE_BYTE_COUNTS, field_types::LONG, 2, counts_at),
    ];
    bytes.extend_from_slice(&(entries.len() as u16).to_le_bytes());
    for (tag, field_type, count, value) in entries {
        bytes.extend_from_slice(&tag.to_le_bytes());
        bytes.extend_from_slice(&field_type.to_le_bytes());
        bytes.extend_from_slice(&count.to_le_bytes());
        bytes.extend_from_slice(&value.to_le_bytes());
    }
    bytes.extend_from_slice(&0u32.to_le_bytes());
    let mut reader = TiffReader::from_bytes(bytes).unwrap();
    let tiff = reader.read().unwrap();
    let ifd = tiff.main_ifd().unwrap();
    let out = (u64::MAX, u64::MAX);
    let values = Batch::read_exposures(&mut reader, ifd, &[(0, 0), out, (1, 1), (1, 0)]).unwrap();
    assert_eq!(values, vec![Some(7), None, Some(10), Some(8)]);
    let rows = vec![row("43.65", "-79.38", None)];
    let one = Batch::read_exposures(&mut reader, ifd, &[(0, 0)]).unwrap();
    let text = Batch::render_csv(&rows, &one, "0.50", "2000");
    assert!(text.lines().any(|line| line == "43.65,-79.38,7"));
    assert!(text.lines().any(|line| line == "# Successful: 1"));
    assert!(matches!(Batch::read_exposures(&mut reader, ifd, &[(2, 0)]), Err(Error::OutOfBounds(_))));
    let error = ErrorResponse { error: "Missing CSV file".to_string() };
    assert_eq!(error.error, "Missing CSV file");
}

#[test]
fn test_projection_builder_basic() {
    let builder = ProjectionBuilder::new().projection_type("utm").parameter("zone", "33").ellipsoid("WGS84");

    let result = builder.definition();
    assert!(result.is_ok());
}

#[test]
fn test_projection_builder_no_type() {
    let builder = ProjectionBuilder::new();
    let result = builder.definition();
    assert!(result.is_err());
}

#[test]
fn test_projection_builder_utm() {
    let projection = ProjectionBuilder::new()
        .projection_type("utm")
        .parameter("zone", "33")
        .parameter("north", "")
        .ellipsoid("WGS84")
        .definition()
        .unwrap();

    assert!(projection.contains("+proj=utm"));
    assert!(projection.contains("+zone=33"));
}

#[test]
fn test_grid_shift_builder_empty_build() {
    let builder = GridShiftBuilder::new();
    let result = builder.pipeline();
    assert!(result.is_err());
}

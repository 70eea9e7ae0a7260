use rasterkit::formats::tiff::reader::pixels::PixelReader;
use rasterkit::formats::tiff::reader::predictor::apply_horizontal_predictor;
use rasterkit::formats::tiff::tags;
use rasterkit::formats::tiff::tags::field_types;
use rasterkit::formats::tiff::{IFDEntry, IFD};
use rasterkit::Error;

fn create_test_ifd(width: u64, height: u64, tile_width: u64, tile_height: u64) -> IFD {
    let mut ifd = IFD::new(0, 0);
    ifd.add_entry(IFDEntry::new(tags::IMAGE_WIDTH, field_types::LONG, 1, width));
    ifd.add_entry(IFDEntry::new(tags::IMAGE_LENGTH, field_types::LONG, 1, height));
    ifd.add_entry(IFDEntry::new(tags::TILE_WIDTH, field_types::LONG, 1, tile_width));
    ifd.add_entry(IFDEntry::new(tags::TILE_LENGTH, field_types::LONG, 1, tile_height));
    ifd
}

#[test]
fn test_validate_tiled_access() {
    let ifd = create_test_ifd(512, 512, 256, 256);
    assert!(PixelReader::validate_tiled_access(&ifd).is_ok());
}

#[test]
fn test_validate_pixel_bounds_valid() {
    let ifd = create_test_ifd(512, 512, 256, 256);
    assert!(PixelReader::validate_pixel_bounds(&ifd, 0, 0).is_ok());
    assert!(PixelReader::validate_pixel_bounds(&ifd, 511, 511).is_ok());
    assert!(PixelReader::validate_pixel_bounds(&ifd, 256, 256).is_ok());
}

#[test]
fn test_validate_pixel_bounds_invalid() {
    let ifd = create_test_ifd(512, 512, 256, 256);
    assert!(PixelReader::validate_pixel_bounds(&ifd, 512, 0).is_err());
    assert!(PixelReader::validate_pixel_bounds(&ifd, 0, 512).is_err());
    assert!(PixelReader::validate_pixel_bounds(&ifd, 1000, 1000).is_err());
}

#[test]
fn test_calculate_tile_index() {
    let ifd = create_test_ifd(512, 512, 256, 256);

    assert_eq!(PixelReader::calculate_tile_index(&ifd, 0, 0).unwrap(), 0);
    assert_eq!(PixelReader::calculate_tile_index(&ifd, 255, 255).unwrap(), 0);
    assert_eq!(PixelReader::calculate_tile_index(&ifd, 256, 0).unwrap(), 1);
    assert_eq!(PixelReader::calculate_tile_index(&ifd, 0, 256).unwrap(), 2);
    assert_eq!(PixelReader::calculate_tile_index(&ifd, 256, 256).unwrap(), 3);
}

#[test]
fn test_calculate_pixel_index() {
    let ifd = create_test_ifd(512, 512, 256, 256);

    assert_eq!(PixelReader::calculate_pixel_index(&ifd, 0, 0).unwrap(), 0);
    assert_eq!(PixelReader::calculate_pixel_index(&ifd, 1, 0).unwrap(), 1);
    assert_eq!(PixelReader::calculate_pixel_index(&ifd, 0, 1).unwrap(), 256);
    assert_eq!(PixelReader::calculate_pixel_index(&ifd, 10, 5).unwrap(), 5 * 256 + 10);

    assert_eq!(PixelReader::calculate_pixel_index(&ifd, 256, 0).unwrap(), 0);
    assert_eq!(PixelReader::calculate_pixel_index(&ifd, 257, 0).unwrap(), 1);
}

#[test]
fn test_read_u8_from_tile() {
    let tile_data = vec![10, 20, 30, 40];
    assert_eq!(PixelReader::read_u8_from_tile(&tile_data, 0).unwrap(), 10);
    assert_eq!(PixelReader::read_u8_from_tile(&tile_data, 2).unwrap(), 30);
    assert!(PixelReader::read_u8_from_tile(&tile_data, 10).is_err());
}

#[test]
fn test_read_u16_from_tile() {
    let tile_data = vec![0x01, 0x00, 0xFF, 0x00, 0x34, 0x12];
    assert_eq!(PixelReader::read_u16_from_tile(&tile_data, 0).unwrap(), 1);
    assert_eq!(PixelReader::read_u16_from_tile(&tile_data, 1).unwrap(), 255);
    assert_eq!(PixelReader::read_u16_from_tile(&tile_data, 2).unwrap(), 0x1234);
}

#[test]
fn test_read_i16_from_tile() {
    let tile_data = vec![0xFF, 0xFF, 0x00, 0x00];
    assert_eq!(PixelReader::read_i16_from_tile(&tile_data, 0).unwrap(), -1);
    assert_eq!(PixelReader::read_i16_from_tile(&tile_data, 1).unwrap(), 0);
}

#[test]
fn test_read_bytes_out_of_bounds() {
    let tile_data = vec![1, 2, 3, 4];
    assert!(PixelReader::read_bytes_from_tile::<4>(&tile_data, 1).is_err());
    assert!(PixelReader::read_bytes_from_tile::<8>(&tile_data, 0).is_err());
}

#[test]
fn tiles_test_apply_horizontal_predictor() {
    let mut data = vec![1, 2, 3, 4, 5, 6];
    apply_horizontal_predictor(&mut data, 3, 2);

    assert_eq!(data[0], 1);
    assert_eq!(data[1], 3);
    assert_eq!(data[2], 6);
    assert_eq!(data[3], 4);
    assert_eq!(data[4], 9);
    assert_eq!(data[5], 15);
}

#[test]
fn parallel_test_apply_horizontal_predictor() {
    let mut data = vec![1, 2, 3, 4, 5, 6];
    apply_horizontal_predictor(&mut data, 3, 2);

    assert_eq!(data[0], 1);
    assert_eq!(data[1], 3);
    assert_eq!(data[2], 6);
    assert_eq!(data[3], 4);
    assert_eq!(data[4], 9);
    assert_eq!(data[5], 15);
}

#[test]
fn single_precision_samples_are_read_as_their_bits() {
    let mut tile_data = vec![];
    tile_data.extend_from_slice(&1.5f32.to_le_bytes());
    tile_data.extend_from_slice(&(-2.5f32).to_le_bytes());
    let first = PixelReader::read_u32_from_tile(&tile_data, 0).unwrap();
    let second = PixelReader::read_u32_from_tile(&tile_data, 1).unwrap();
    assert_eq!(f32::from_bits(first), 1.5);
    assert_eq!(f32::from_bits(second), -2.5);
}

#[test]
fn double_precision_samples_are_read_as_their_bits() {
    let mut tile_data = vec![];
    tile_data.extend_from_slice(&3.14159f64.to_le_bytes());
    let bits = PixelReader::read_u64_from_tile(&tile_data, 0).unwrap();
    assert_eq!(f64::from_bits(bits), 3.14159);
    assert!(matches!(PixelReader::read_u64_from_tile(&tile_data, 1), Err(Error::OutOfBounds(_))));
}

#[test]
fn samples_of_four_bytes() {
    let tile_data = vec![0x78, 0x56, 0x34, 0x12, 0xFE, 0xFF, 0xFF, 0xFF];
    assert_eq!(PixelReader::read_u32_from_tile(&tile_data, 0).unwrap(), 0x12345678);
    assert_eq!(PixelReader::read_u32_from_tile(&tile_data, 1).unwrap(), 0xFFFFFFFE);
    assert_eq!(PixelReader::read_i32_from_tile(&tile_data, 0).unwrap(), 0x12345678);
    assert_eq!(PixelReader::read_i32_from_tile(&tile_data, 1).unwrap(), -2);
    assert!(matches!(PixelReader::read_i32_from_tile(&tile_data, 2), Err(Error::OutOfBounds(_))));
    assert!(matches!(PixelReader::read_u16_from_tile(&tile_data, 4), Err(Error::OutOfBounds(_))));
    assert!(matches!(PixelReader::read_i16_from_tile(&tile_data, 4), Err(Error::OutOfBounds(_))));
    assert_eq!(PixelReader::read_i16_from_tile(&tile_data, 2).unwrap(), -2);
    assert_eq!(PixelReader::read_bytes_from_tile::<4>(&tile_data, 1).unwrap(), [0xFE, 0xFF, 0xFF, 0xFF]);
    assert_eq!(PixelReader::read_bytes_from_tile::<0>(&tile_data, usize::MAX).unwrap(), []);
    assert!(PixelReader::read_bytes_from_tile::<2>(&tile_data, usize::MAX).is_err());
}

#[test]
fn tile_index_of_the_corners_of_each_tile() {
    let ifd = create_test_ifd(512, 512, 256, 256);
    let cases = [((0u64, 0u64), 0usize), ((255, 255), 0), ((256, 0), 1), ((0, 256), 2), ((256, 256), 3)];
    for ((x, y), tile) in cases {
        assert_eq!(PixelReader::calculate_tile_index(&ifd, x, y).unwrap(), tile);
    }
}

#[test]
fn tile_and_place_give_the_pixel_back() {
    // 10 x 7 pixels in tiles of 4 x 3: three tiles in a row
    let ifd = create_test_ifd(10, 7, 4, 3);
    for y in 0..7u64 {
        for x in 0..10u64 {
            let t = PixelReader::calculate_tile_index(&ifd, x, y).unwrap() as u64;
            let p = PixelReader::calculate_pixel_index(&ifd, x, y).unwrap() as u64;
            assert_eq!(t, (y / 3) * 3 + x / 4);
            assert!(p < 12);
            assert_eq!((t % 3) * 4 + p % 4, x);
            assert_eq!((t / 3) * 3 + p / 4, y);
        }
    }
}

#[test]
fn pixel_checks_report_what_is_wrong() {
    let tiled = create_test_ifd(512, 512, 256, 256);
    assert!(matches!(PixelReader::validate_pixel_bounds(&tiled, 512, 0), Err(Error::OutOfBounds(_))));
    let mut bare = IFD::new(0, 0);
    assert!(matches!(PixelReader::validate_tiled_access(&bare), Err(Error::Unsupported(_))));
    assert!(matches!(PixelReader::validate_pixel_bounds(&bare, 0, 0), Err(Error::InvalidFormat(_))));
    assert!(matches!(PixelReader::calculate_tile_index(&bare, 0, 0), Err(Error::InvalidFormat(_))));
    assert!(matches!(PixelReader::calculate_pixel_index(&bare, 0, 0), Err(Error::InvalidFormat(_))));
    bare.add_entry(IFDEntry::new(tags::IMAGE_WIDTH, field_types::LONG, 1, 8));
    bare.add_entry(IFDEntry::new(tags::IMAGE_LENGTH, field_types::LONG, 1, 8));
    assert!(matches!(PixelReader::calculate_tile_index(&bare, 0, 0), Err(Error::InvalidFormat(_))));
    let zero = create_test_ifd(8, 8, 0, 4);
    assert!(matches!(PixelReader::calculate_tile_index(&zero, 1, 1), Err(Error::InvalidFormat(_))));
    assert!(matches!(PixelReader::calculate_pixel_index(&zero, 1, 1), Err(Error::InvalidFormat(_))));
    let flat = create_test_ifd(8, 8, 4, 0);
    assert!(matches!(PixelReader::calculate_tile_index(&flat, 1, 1), Err(Error::InvalidFormat(_))));
    let huge = create_test_ifd(u64::MAX, u64::MAX, 1, 1);
    assert!(matches!(
        PixelReader::calculate_tile_index(&huge, u64::MAX - 1, u64::MAX - 1),
        Err(Error::OutOfBounds(_))
    ));
    let wide = create_test_ifd(u64::MAX, u64::MAX, u64::MAX, u64::MAX);
    assert!(matches!(
        PixelReader::calculate_pixel_index(&wide, 5, u64::MAX - 1),
        Err(Error::OutOfBounds(_))
    ));
    assert_eq!(PixelReader::calculate_tile_index(&wide, 5, 5).unwrap(), 0);
}

fn differences(data: &[u8], width: usize, height: usize) -> Vec<u8> {
    let mut stored = data.to_vec();
    for i in 0..data.len() {
        if width != 0 && i % width != 0 && i < width * height {
            stored[i] = data[i].wrapping_sub(data[i - 1]);
        }
    }
    stored
}

#[test]
fn predictor_undoes_row_wise_differences() {
    let samples: Vec<u8> = (0..40).map(|i| (i * 37 % 256) as u8).collect();
    for (width, height) in [(8usize, 5usize), (5, 8), (40, 1), (1, 40), (7, 6), (3, 100), (64, 2)] {
        let mut data = differences(&samples, width, height);
        apply_horizontal_predictor(&mut data, width, height);
        assert_eq!(data, samples);
    }
}

#[test]
fn predictor_wraps_and_leaves_the_rest_alone() {
    let mut data = vec![200, 100, 100, 1, 1, 1, 9, 9];
    apply_horizontal_predictor(&mut data, 3, 2);
    assert_eq!(data, vec![200, 44, 144, 1, 2, 3, 9, 9]);
    let mut untouched = vec![1, 2, 3];
    apply_horizontal_predictor(&mut untouched, 0, 5);
    assert_eq!(untouched, vec![1, 2, 3]);
    apply_horizontal_predictor(&mut untouched, 3, 0);
    assert_eq!(untouched, vec![1, 2, 3]);
    let mut short = vec![1, 1, 1, 1];
    apply_horizontal_predictor(&mut short, 3, 5);
    assert_eq!(short, vec![1, 2, 3, 1]);
    let mut empty: Vec<u8> = vec![];
    apply_horizontal_predictor(&mut empty, 3, 5);
    assert!(empty.is_empty());
    let mut wide = vec![1, 1, 1];
    apply_horizontal_predictor(&mut wide, usize::MAX, usize::MAX);
    assert_eq!(wide, vec![1, 2, 3]);
}

use rasterkit::compression::lzw::{BitReader, LzwDecoder};
use rasterkit::compression::{deflate, jpeg, lzw, packbits, Compression};
use rasterkit::Error;
use std::io::Write;

#[test]
fn test_deflate_decompression() {
    let plain = b"Hello, world! This is test data for compression.";
    let mut encoder = flate2::write::ZlibEncoder::new(Vec::new(), flate2::Compression::default());
    encoder.write_all(plain).unwrap();
    let compressed = encoder.finish().unwrap();

    let decompressed = deflate::decompress(&compressed).unwrap();
    assert_eq!(decompressed, plain);
}

#[test]
fn test_invalid_jpeg() {
    let data = vec![0xFF, 0xD8, 0xFF, 0xE0];
    assert!(jpeg::decompress(&data).is_err());
}

#[test]
fn test_bit_reader() {
    let data = vec![0b11010010, 0b10110101];
    let mut reader = BitReader::new(&data);

    assert_eq!(reader.read_bits(3), Some(0b010));
    assert_eq!(reader.read_bits(5), Some(0b11010));
}

#[test]
fn test_lzw_basic_functionality() {
    let decoder = LzwDecoder::new();
    assert_eq!(decoder.dictionary_len(), 256);
    assert_eq!(decoder.next_code(), 258);

    let test_data = vec![0xFF, 0xFF];
    let mut reader = BitReader::new(&test_data);
    assert_eq!(reader.read_bits(8), Some(0xFF));
    assert_eq!(reader.read_bits(8), Some(0xFF));
}

#[test]
fn test_compression_from_tag() {
    assert_eq!(Compression::from_tag(1).unwrap(), Compression::Uncompressed);
    assert_eq!(Compression::from_tag(8).unwrap(), Compression::Deflate);
    assert_eq!(Compression::from_tag(5).unwrap(), Compression::Lzw);
}

#[test]
fn test_compression_name() {
    assert_eq!(Compression::Uncompressed.name(), "None");
    assert_eq!(Compression::Deflate.name(), "Deflate/ZIP");
}

#[test]
fn test_no_compression() {
    let data = vec![1u8, 2, 3, 4];
    let result = Compression::Uncompressed.decompress(&data).unwrap();
    assert_eq!(result, data);
}

#[test]
fn test_literal_bytes() {
    let data = vec![2, 0x41, 0x42, 0x43];
    let result = packbits::decompress(&data).unwrap();
    assert_eq!(result, vec![0x41, 0x42, 0x43]);
}

#[test]
fn test_run_bytes() {
    let data = vec![(-3i8) as u8, 0xAA];
    let result = packbits::decompress(&data).unwrap();
    assert_eq!(result, vec![0xAA, 0xAA, 0xAA, 0xAA]);
}

#[test]
fn test_mixed() {
    let data = vec![1, 0x41, 0x42, (-2i8) as u8, 0x55, 0, 0x43];
    let result = packbits::decompress(&data).unwrap();
    assert_eq!(result, vec![0x41, 0x42, 0x55, 0x55, 0x55, 0x43]);
}

#[test]
fn test_noop() {
    let data = vec![(-128i8) as u8, 1, 0x41, 0x42];
    let result = packbits::decompress(&data).unwrap();
    assert_eq!(result, vec![0x41, 0x42]);
}

#[test]
fn compression_tags_and_names() {
    assert_eq!(Compression::from_tag(32773).unwrap(), Compression::PackBits);
    assert_eq!(Compression::from_tag(7).unwrap(), Compression::Jpeg);
    assert!(matches!(Compression::from_tag(0), Err(Error::Unsupported(_))));
    assert!(matches!(Compression::from_tag(2), Err(Error::Unsupported(_))));
    match Compression::from_tag(34712) {
        Err(e) => assert_eq!(e.to_string(), "Unsupported: Compression type 34712"),
        Ok(_) => panic!("expected an error"),
    }
    assert_eq!(Compression::Lzw.name(), "LZW");
    assert_eq!(Compression::PackBits.name(), "PackBits");
    assert_eq!(Compression::Jpeg.name(), "JPEG");
}

#[test]
fn packbits_rejects_cut_packets() {
    assert!(matches!(packbits::decompress(&[2, 0x41, 0x42]), Err(Error::InvalidFormat(_))));
    assert!(matches!(packbits::decompress(&[0xFD]), Err(Error::InvalidFormat(_))));
    assert!(matches!(packbits::decompress(&[0, 1, 5]), Err(Error::InvalidFormat(_))));
    assert_eq!(packbits::decompress(&[]).unwrap(), Vec::<u8>::new());
    assert_eq!(packbits::decompress(&[0x80, 0x80]).unwrap(), Vec::<u8>::new());
}

#[test]
fn packbits_longest_packets() {
    let mut literal = vec![127u8];
    literal.extend((0..128).map(|i| i as u8));
    let expected: Vec<u8> = (0..128).map(|i| i as u8).collect();
    assert_eq!(packbits::decompress(&literal).unwrap(), expected);
    assert_eq!(packbits::decompress(&[0x81, 9]).unwrap(), vec![9u8; 128]);
    assert_eq!(packbits::decompress(&[0xFF, 9]).unwrap(), vec![9u8; 2]);
}

fn pack_literals(bytes: &[u8]) -> Vec<u8> {
    let mut packed = Vec::new();
    for chunk in bytes.chunks(128) {
        packed.push((chunk.len() - 1) as u8);
        packed.extend_from_slice(chunk);
    }
    packed
}

#[test]
fn packbits_round_trip_on_chosen_strings() {
    let long: Vec<u8> = (0..300).map(|i| (i * 7 % 251) as u8).collect();
    for bytes in [&b""[..], &b"a"[..], &b"hello world"[..], &long[..]] {
        assert_eq!(packbits::decompress(&pack_literals(bytes)).unwrap(), bytes.to_vec());
    }
}

fn pack_codes(codes: &[(u16, u8)]) -> Vec<u8> {
    let mut out = Vec::new();
    let mut acc: u32 = 0;
    let mut bits: u8 = 0;
    for &(code, width) in codes {
        acc |= (code as u32) << bits;
        bits += width;
        while bits >= 8 {
            out.push((acc & 0xFF) as u8);
            acc >>= 8;
            bits -= 8;
        }
    }
    if bits > 0 {
        out.push((acc & 0xFF) as u8);
    }
    out
}

#[test]
fn lzw_literals_and_end_code() {
    let data = pack_codes(&[(0x41, 9), (0x42, 9), (0x43, 9), (257, 9)]);
    assert_eq!(lzw::decompress(&data).unwrap(), vec![0x41, 0x42, 0x43]);
    let without_end = pack_codes(&[(0x41, 9), (0x42, 9)]);
    assert_eq!(lzw::decompress(&without_end).unwrap(), vec![0x41, 0x42]);
    assert_eq!(lzw::decompress(&[]).unwrap(), Vec::<u8>::new());
}

#[test]
fn lzw_uses_added_entries() {
    // "AB" is added as code 258, "BA" as 259 is the pending entry when 258 comes.
    let data = pack_codes(&[(0x41, 9), (0x42, 9), (258, 9), (257, 9)]);
    assert_eq!(lzw::decompress(&data).unwrap(), vec![0x41, 0x42, 0x41, 0x42]);
}

#[test]
fn lzw_code_not_yet_in_the_table() {
    // After "A", code 258 is the next entry: it stands for "AA".
    let data = pack_codes(&[(0x41, 9), (258, 9), (258, 9), (257, 9)]);
    assert_eq!(lzw::decompress(&data).unwrap(), vec![0x41, 0x41, 0x41, 0x41, 0x41]);
}

#[test]
fn lzw_rejects_codes_without_meaning() {
    let first = pack_codes(&[(258, 9)]);
    assert!(matches!(lzw::decompress(&first), Err(Error::InvalidFormat(_))));
    let ahead = pack_codes(&[(0x41, 9), (259, 9)]);
    assert!(matches!(lzw::decompress(&ahead), Err(Error::InvalidFormat(_))));
}

#[test]
fn lzw_clear_code_before_literals_changes_nothing() {
    let with_clear = pack_codes(&[(0x41, 9), (0x42, 9), (256, 9), (0x43, 9), (0x44, 9), (257, 9)]);
    let without = pack_codes(&[(0x41, 9), (0x42, 9), (0x43, 9), (0x44, 9), (257, 9)]);
    assert_eq!(lzw::decompress(&with_clear).unwrap(), vec![0x41, 0x42, 0x43, 0x44]);
    assert_eq!(lzw::decompress(&with_clear).unwrap(), lzw::decompress(&without).unwrap());
}

#[test]
fn lzw_clear_code_forgets_added_entries() {
    let data = pack_codes(&[(0x41, 9), (0x42, 9), (256, 9), (0x43, 9), (258, 9)]);
    // 258 is again the next entry after the clear: "C" then "CC".
    assert_eq!(lzw::decompress(&data).unwrap(), vec![0x41, 0x42, 0x43, 0x43, 0x43]);
}

#[test]
fn lzw_code_width_grows_at_512() {
    // 254 literal codes after the first add entries 258..=511; the next code has ten bits.
    let mut codes: Vec<(u16, u8)> = Vec::new();
    let mut expected = Vec::new();
    for i in 0..255u16 {
        codes.push((i % 200, 9));
        expected.push((i % 200) as u8);
    }
    codes.push((0x41, 10));
    expected.push(0x41);
    codes.push((257, 10));
    assert_eq!(lzw::decompress(&pack_codes(&codes)).unwrap(), expected);
}

#[test]
fn bit_reader_limits() {
    let data = vec![0xFFu8, 0x01];
    let mut reader = BitReader::new(&data);
    assert_eq!(reader.read_bits(0), None);
    assert_eq!(reader.read_bits(17), None);
    assert_eq!(reader.read_bits(9), Some(0x1FF));
    assert_eq!(reader.read_bits(8), None);
    assert_eq!(reader.read_bits(1), None);
    let mut whole = BitReader::new(&data);
    assert_eq!(whole.read_bits(16), Some(0x01FF));
    assert_eq!(whole.read_bits(1), None);
}

#[test]
fn decompress_reports_the_kind_of_each_failure() {
    assert!(matches!(Compression::Deflate.decompress(&[1, 2, 3]), Err(Error::Io(_))));
    assert!(matches!(Compression::Jpeg.decompress(&[1, 2, 3]), Err(Error::InvalidFormat(_))));
    assert!(matches!(Compression::PackBits.decompress(&[5]), Err(Error::InvalidFormat(_))));
    assert!(matches!(
        Compression::Lzw.decompress(&pack_codes(&[(300, 9)])),
        Err(Error::InvalidFormat(_))
    ));
    assert_eq!(Compression::PackBits.decompress(&[0xFE, 7]).unwrap(), vec![7, 7, 7]);
    assert_eq!(
        Compression::Lzw.decompress(&pack_codes(&[(0x41, 9), (257, 9)])).unwrap(),
        vec![0x41]
    );
}

/// A JPEG stream of one grey component with Huffman tables of one code each,
/// in which every symbol has the code `0`.
fn small_jpeg(frame_marker: u8, width: u8, height: u8, scan: [u8; 3], data: &[u8]) -> Vec<u8> {
    let mut bytes = vec![0xFF, 0xD8];
    // quantization table 0: all ones
    bytes.extend_from_slice(&[0xFF, 0xDB, 0x00, 0x43, 0x00]);
    bytes.extend_from_slice(&[1u8; 64]);
    // the frame: eight bits, one component, no subsampling
    bytes.extend_from_slice(&[0xFF, frame_marker, 0x00, 0x0B, 0x08, 0x00, height, 0x00, width, 0x01, 0x01, 0x11, 0x00]);
    // Huffman tables DC 0 and AC 0: one code of length one, for symbol 0
    for class in [0x00u8, 0x10] {
        bytes.extend_from_slice(&[0xFF, 0xC4, 0x00, 0x14, class, 1]);
        bytes.extend_from_slice(&[0u8; 15]);
        bytes.push(0x00);
    }
    bytes.extend_from_slice(&[0xFF, 0xDA, 0x00, 0x08, 0x01, 0x01, 0x00]);
    bytes.extend_from_slice(&scan);
    bytes.extend_from_slice(data);
    bytes.extend_from_slice(&[0xFF, 0xD9]);
    bytes
}

#[test]
fn jpeg_of_a_discrete_cosine_transform_is_decoded() {
    // one block whose coefficients are all zero: every sample is the middle grey
    let stream = small_jpeg(0xC0, 8, 8, [0x00, 0x3F, 0x00], &[0x3F]);
    assert_eq!(jpeg::decompress(&stream).unwrap(), vec![128u8; 64]);
    assert_eq!(Compression::Jpeg.decompress(&stream).unwrap(), vec![128u8; 64]);
}

#[test]
fn lossless_jpeg_is_refused() {
    // four samples, each equal to its prediction
    let stream = small_jpeg(0xC3, 2, 2, [0x01, 0x00, 0x00], &[0x0F]);
    match jpeg::decompress(&stream) {
        Err(Error::InvalidFormat(text)) => assert!(text.contains("discrete cosine"), "{}", text),
        other => panic!("{:?}", other.map(|v| v.len())),
    }
    assert_eq!(jpeg::portable_samples(vec![1, 2], Some(jpeg::JpegProcess::DctSequential)), Some(vec![1, 2]));
    assert_eq!(jpeg::portable_samples(vec![1, 2], Some(jpeg::JpegProcess::DctProgressive)), Some(vec![1, 2]));
    assert_eq!(jpeg::portable_samples(vec![1, 2], Some(jpeg::JpegProcess::Lossless)), None);
    assert_eq!(jpeg::portable_samples(vec![1, 2], None), None);
}

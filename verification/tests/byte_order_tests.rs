use rasterkit::io::byte_order::{BigEndian, ByteOrderHandler, LittleEndian};
use rasterkit::io::{ByteOrder, Cursor, SeekableReader};
use rasterkit::Error;

#[test]
fn test_from_tiff_magic_little_endian() {
    assert_eq!(ByteOrder::from_tiff_magic(*b"II"), Some(ByteOrder::LittleEndian));
}

#[test]
fn test_from_tiff_magic_big_endian() {
    assert_eq!(ByteOrder::from_tiff_magic(*b"MM"), Some(ByteOrder::BigEndian));
}

#[test]
fn test_from_tiff_magic_invalid() {
    assert_eq!(ByteOrder::from_tiff_magic(*b"XX"), None);
}

#[test]
fn test_detect_little_endian() {
    let data = b"II";
    let mut cursor = Cursor::new(data.to_vec());
    let order = ByteOrder::detect(&mut cursor).unwrap();
    assert_eq!(order, ByteOrder::LittleEndian);
}

#[test]
fn test_detect_big_endian() {
    let data = b"MM";
    let mut cursor = Cursor::new(data.to_vec());
    let order = ByteOrder::detect(&mut cursor).unwrap();
    assert_eq!(order, ByteOrder::BigEndian);
}

#[test]
fn test_detect_invalid() {
    let data = b"XX";
    let mut cursor = Cursor::new(data.to_vec());
    assert!(ByteOrder::detect(&mut cursor).is_err());
}

#[test]
fn test_little_endian_read_u16() {
    let data = vec![0x34u8, 0x12];
    let mut cursor: Box<dyn SeekableReader> = Box::new(Cursor::new(data));
    let handler = LittleEndian;
    let value = handler.read_u16(&mut *cursor).unwrap();
    assert_eq!(value, 0x1234);
}

#[test]
fn test_big_endian_read_u16() {
    let data = vec![0x12u8, 0x34];
    let mut cursor: Box<dyn SeekableReader> = Box::new(Cursor::new(data));
    let handler = BigEndian;
    let value = handler.read_u16(&mut *cursor).unwrap();
    assert_eq!(value, 0x1234);
}

#[test]
fn test_little_endian_read_u32() {
    let data = vec![0x78u8, 0x56, 0x34, 0x12];
    let mut cursor: Box<dyn SeekableReader> = Box::new(Cursor::new(data));
    let handler = LittleEndian;
    let value = handler.read_u32(&mut *cursor).unwrap();
    assert_eq!(value, 0x12345678);
}

#[test]
fn test_big_endian_read_u32() {
    let data = vec![0x12u8, 0x34, 0x56, 0x78];
    let mut cursor: Box<dyn SeekableReader> = Box::new(Cursor::new(data));
    let handler = BigEndian;
    let value = handler.read_u32(&mut *cursor).unwrap();
    assert_eq!(value, 0x12345678);
}

#[test]
fn test_little_endian_read_u64() {
    let data = vec![0x88u8, 0x77, 0x66, 0x55, 0x44, 0x33, 0x22, 0x11];
    let mut cursor: Box<dyn SeekableReader> = Box::new(Cursor::new(data));
    let handler = LittleEndian;
    let value = handler.read_u64(&mut *cursor).unwrap();
    assert_eq!(value, 0x1122334455667788);
}

#[test]
fn test_little_endian_read_i16() {
    let data = vec![0xFFu8, 0xFF];
    let mut cursor: Box<dyn SeekableReader> = Box::new(Cursor::new(data));
    let handler = LittleEndian;
    let value = handler.read_i16(&mut *cursor).unwrap();
    assert_eq!(value, -1);
}

#[test]
fn test_little_endian_read_i32() {
    let data = vec![0xFFu8, 0xFF, 0xFF, 0xFF];
    let mut cursor: Box<dyn SeekableReader> = Box::new(Cursor::new(data));
    let handler = LittleEndian;
    let value = handler.read_i32(&mut *cursor).unwrap();
    assert_eq!(value, -1);
}

#[test]
fn test_handler_from_byte_order() {
    let le_handler = ByteOrder::LittleEndian.handler();
    let be_handler = ByteOrder::BigEndian.handler();

    let le_data = vec![0x34u8, 0x12];
    let mut le_cursor: Box<dyn SeekableReader> = Box::new(Cursor::new(le_data));
    assert_eq!(le_handler.read_u16(&mut *le_cursor).unwrap(), 0x1234);

    let be_data = vec![0x12u8, 0x34];
    let mut be_cursor: Box<dyn SeekableReader> = Box::new(Cursor::new(be_data));
    assert_eq!(be_handler.read_u16(&mut *be_cursor).unwrap(), 0x1234);
}

#[test]
fn endian_round_trip_on_chosen_values() {
    for &x in &[0u16, 1, 0x1234, 0x8000, 0xFFFF] {
        let mut le = Cursor::new(x.to_le_bytes().to_vec());
        assert_eq!(LittleEndian.read_u16(&mut le).unwrap(), x);
        let mut be = Cursor::new(x.to_be_bytes().to_vec());
        assert_eq!(BigEndian.read_u16(&mut be).unwrap(), x);
    }
    for &x in &[0u32, 1, 0x12345678, 0x80000000, 0xFFFFFFFF] {
        let mut le = Cursor::new(x.to_le_bytes().to_vec());
        assert_eq!(LittleEndian.read_u32(&mut le).unwrap(), x);
        let mut be = Cursor::new(x.to_be_bytes().to_vec());
        assert_eq!(BigEndian.read_u32(&mut be).unwrap(), x);
    }
    for &x in &[0u64, 1, 0x1122334455667788, 0x8000000000000000, u64::MAX] {
        let mut le = Cursor::new(x.to_le_bytes().to_vec());
        assert_eq!(LittleEndian.read_u64(&mut le).unwrap(), x);
        let mut be = Cursor::new(x.to_be_bytes().to_vec());
        assert_eq!(BigEndian.read_u64(&mut be).unwrap(), x);
    }
}

#[test]
fn signed_reads_in_both_orders() {
    for &x in &[0i16, 1, -1, -2, i16::MIN, i16::MAX] {
        let mut le = Cursor::new(x.to_le_bytes().to_vec());
        assert_eq!(LittleEndian.read_i16(&mut le).unwrap(), x);
        let mut be = Cursor::new(x.to_be_bytes().to_vec());
        assert_eq!(BigEndian.read_i16(&mut be).unwrap(), x);
    }
    for &x in &[0i32, 1, -1, i32::MIN, i32::MAX] {
        let mut le = Cursor::new(x.to_le_bytes().to_vec());
        assert_eq!(LittleEndian.read_i32(&mut le).unwrap(), x);
        let mut be = Cursor::new(x.to_be_bytes().to_vec());
        assert_eq!(BigEndian.read_i32(&mut be).unwrap(), x);
    }
    for &x in &[0i64, 1, -1, i64::MIN, i64::MAX] {
        let mut le = Cursor::new(x.to_le_bytes().to_vec());
        assert_eq!(LittleEndian.read_i64(&mut le).unwrap(), x);
        let mut be = Cursor::new(x.to_be_bytes().to_vec());
        assert_eq!(BigEndian.read_i64(&mut be).unwrap(), x);
    }
}

#[test]
fn detect_reports_the_word_it_found() {
    let mut cursor = Cursor::new(vec![0x58u8, 0x59, 0x00]);
    match ByteOrder::detect(&mut cursor) {
        Err(Error::InvalidByteOrder(word)) => assert_eq!(word, 0x5859),
        _ => panic!("expected InvalidByteOrder"),
    }
    let mut short = Cursor::new(vec![0x49u8]);
    assert!(matches!(ByteOrder::detect(&mut short), Err(Error::Io(_))));
    let mut mixed = Cursor::new(vec![0x49u8, 0x4D]);
    assert!(matches!(ByteOrder::detect(&mut mixed), Err(Error::InvalidByteOrder(0x494D))));
}

#[test]
fn decode_short_values() {
    assert_eq!(ByteOrder::LittleEndian.decode(&[]), 0);
    assert_eq!(ByteOrder::LittleEndian.decode(&[0x01, 0x02, 0x03]), 0x030201);
    assert_eq!(ByteOrder::BigEndian.decode(&[0x01, 0x02, 0x03]), 0x010203);
    assert_eq!(rasterkit::io::byte_order::read_value(ByteOrder::BigEndian, &mut Cursor::new(vec![1, 2, 3]), 3).unwrap(), 0x010203);
    assert!(rasterkit::io::byte_order::read_value(ByteOrder::BigEndian, &mut Cursor::new(vec![1, 2]), 3).is_err());
}

use rasterkit::Error;
use std::io;

#[test]
fn test_error_display() {
    let err = Error::InvalidFormat("test".to_string());
    assert_eq!(err.to_string(), "Invalid format: test");
}

#[test]
fn test_io_error_conversion() {
    let io_err = io::Error::new(io::ErrorKind::NotFound, "file not found");
    let err: Error = io_err.into();
    assert!(matches!(err, Error::Io(_)));
}

#[test]
fn test_invalid_byte_order() {
    let err = Error::InvalidByteOrder(0x1234);
    assert!(err.to_string().contains("0x1234"));
}

#[test]
fn test_missing_tag() {
    let err = Error::MissingTag(256);
    assert!(err.to_string().contains("256"));
}

#[test]
fn error_messages_of_every_kind() {
    assert_eq!(Error::InvalidByteOrder(0x00AB).to_string(), "Invalid byte order: 0x00AB");
    assert_eq!(Error::InvalidByteOrder(0xFFFF).to_string(), "Invalid byte order: 0xFFFF");
    assert_eq!(Error::InvalidMagic(44).to_string(), "Invalid TIFF magic number: 44");
    assert_eq!(Error::InvalidTag(0).to_string(), "Invalid tag: 0");
    assert_eq!(Error::MissingTag(65535).to_string(), "Missing required tag: 65535");
    assert_eq!(Error::Unsupported("x".to_string()).to_string(), "Unsupported: x");
    assert_eq!(
        Error::InvalidOffset(18446744073709551615).to_string(),
        "Invalid offset: 18446744073709551615"
    );
    assert_eq!(Error::OutOfBounds("p".to_string()).to_string(), "Out of bounds: p");
    assert_eq!(Error::Projection("q".to_string()).to_string(), "Projection error: q");
    let io_err = io::Error::new(io::ErrorKind::NotFound, "file not found");
    let text = Error::Io(io_err).to_string();
    assert!(text.starts_with("I/O error: "));
    assert!(text.contains("file not found"));
}

#[test]
fn decimal_and_hex_rendering() {
    assert_eq!(rasterkit::text::format_u64(0), "0");
    assert_eq!(rasterkit::text::format_u64(7), "7");
    assert_eq!(rasterkit::text::format_u64(10), "10");
    assert_eq!(rasterkit::text::format_u64(1234567890), "1234567890");
    assert_eq!(rasterkit::text::format_hex4(0), "0000");
    assert_eq!(rasterkit::text::format_hex4(0x4949), "4949");
    assert_eq!(rasterkit::text::format_hex4(0xBEEF), "BEEF");
    assert_eq!(rasterkit::text::concat("ab", "cd"), "abcd");
}

use rasterkit::io::{Cursor, SeekFrom, SeekableReader};

fn accepts_seekable<R: SeekableReader>(_r: R) {}

#[test]
fn test_cursor_implements_seekable_reader() {
    let data = vec![1u8, 2, 3, 4];
    let cursor = Cursor::new(data);
    accepts_seekable(cursor);
}

#[test]
fn test_read_operations() {
    let data = vec![0x10u8, 0x20, 0x30, 0x40];
    let mut reader: Box<dyn SeekableReader> = Box::new(Cursor::new(data));

    let mut buf = [0u8; 2];
    reader.read_exact(&mut buf).unwrap();
    assert_eq!(buf, [0x10, 0x20]);

    reader.read_exact(&mut buf).unwrap();
    assert_eq!(buf, [0x30, 0x40]);
}

#[test]
fn test_seek_operations() {
    let data = vec![0x10u8, 0x20, 0x30, 0x40];
    let mut reader: Box<dyn SeekableReader> = Box::new(Cursor::new(data));

    reader.seek(SeekFrom::Start(2)).unwrap();

    let mut buf = [0u8; 1];
    reader.read_exact(&mut buf).unwrap();
    assert_eq!(buf[0], 0x30);
}

#[test]
fn traits_test_seek_from_end() {
    let data = vec![0x10u8, 0x20, 0x30, 0x40];
    let mut reader: Box<dyn SeekableReader> = Box::new(Cursor::new(data));

    reader.seek(SeekFrom::End(-1)).unwrap();

    let mut buf = [0u8; 1];
    reader.read_exact(&mut buf).unwrap();
    assert_eq!(buf[0], 0x40);
}

#[test]
fn test_seek_from_current() {
    let data = vec![0x10u8, 0x20, 0x30, 0x40];
    let mut reader: Box<dyn SeekableReader> = Box::new(Cursor::new(data));

    let mut buf = [0u8; 1];
    reader.read_exact(&mut buf).unwrap();
    assert_eq!(buf[0], 0x10);

    reader.seek(SeekFrom::Current(1)).unwrap();
    reader.read_exact(&mut buf).unwrap();
    assert_eq!(buf[0], 0x30);
}

#[test]
fn cursor_read_is_short_at_the_end() {
    let mut cursor = Cursor::new(vec![1u8, 2, 3]);
    let mut buf = [9u8; 5];
    assert_eq!(cursor.read(&mut buf).unwrap(), 3);
    assert_eq!(buf, [1, 2, 3, 9, 9]);
    assert_eq!(cursor.position(), 3);
    assert_eq!(cursor.read(&mut buf).unwrap(), 0);
}

#[test]
fn cursor_seek_rejects_positions_before_the_start() {
    let mut cursor = Cursor::new(vec![1u8, 2, 3]);
    assert!(matches!(cursor.seek(SeekFrom::End(-4)), Err(rasterkit::Error::Io(_))));
    assert!(matches!(cursor.seek(SeekFrom::Current(-1)), Err(rasterkit::Error::Io(_))));
    assert_eq!(cursor.seek(SeekFrom::End(-3)).unwrap(), 0);
    assert_eq!(cursor.seek(SeekFrom::End(2)).unwrap(), 5);
    let mut buf = [0u8; 1];
    assert_eq!(cursor.read(&mut buf).unwrap(), 0);
    assert_eq!(cursor.seek(SeekFrom::Current(i64::MAX)).unwrap(), 5 + i64::MAX as u64);
    assert!(matches!(cursor.seek(SeekFrom::Current(i64::MAX)), Err(rasterkit::Error::Io(_))));
    assert_eq!(cursor.position(), 5 + i64::MAX as u64);
}

#[test]
fn read_exact_fails_when_the_source_ends_first() {
    let mut cursor = Cursor::new(vec![1u8, 2, 3]);
    let mut buf = [0u8; 4];
    assert!(matches!(cursor.read_exact(&mut buf), Err(rasterkit::Error::Io(_))));
    let mut cursor = Cursor::new(vec![1u8, 2, 3]);
    let mut empty: [u8; 0] = [];
    assert!(cursor.read_exact(&mut empty).is_ok());
    assert_eq!(cursor.position(), 0);
}

#[test]
fn cursor_gives_its_bytes_back() {
    let mut cursor = Cursor::new(vec![5u8, 6]);
    cursor.set_position(1);
    assert_eq!(cursor.position(), 1);
    assert_eq!(cursor.get_ref(), &vec![5u8, 6]);
    assert_eq!(cursor.into_inner(), vec![5u8, 6]);
}

use rasterkit::io::{BufferedReader, Cursor, SeekFrom, SeekableReader};

#[test]
fn test_buffered_reader_new() {
    let data = vec![1u8, 2, 3, 4];
    let cursor = Cursor::new(data);
    let reader = BufferedReader::new(cursor);
    assert_eq!(reader.buffer_len(), 0);
}

#[test]
fn test_buffered_reader_with_capacity() {
    let data = vec![1u8, 2, 3, 4];
    let cursor = Cursor::new(data);
    let reader = BufferedReader::with_capacity(16, cursor);
    assert_eq!(reader.buffer_size(), 16);
}

#[test]
fn test_read_single_byte() {
    let data = vec![0x42u8];
    let cursor = Cursor::new(data);
    let mut reader = BufferedReader::new(cursor);

    let mut buf = [0u8; 1];
    let n = reader.read(&mut buf).unwrap();
    assert_eq!(n, 1);
    assert_eq!(buf[0], 0x42);
}

#[test]
fn test_read_multiple_bytes() {
    let data = vec![0x10u8, 0x20, 0x30, 0x40];
    let cursor = Cursor::new(data);
    let mut reader = BufferedReader::new(cursor);

    let mut buf = [0u8; 4];
    reader.read_exact(&mut buf).unwrap();
    assert_eq!(buf, [0x10, 0x20, 0x30, 0x40]);
}

#[test]
fn test_read_in_chunks() {
    let data = vec![0x10u8, 0x20, 0x30, 0x40];
    let cursor = Cursor::new(data);
    let mut reader = BufferedReader::new(cursor);

    let mut buf = [0u8; 2];
    reader.read_exact(&mut buf).unwrap();
    assert_eq!(buf, [0x10, 0x20]);

    reader.read_exact(&mut buf).unwrap();
    assert_eq!(buf, [0x30, 0x40]);
}

#[test]
fn test_seek_and_read() {
    let data = vec![0x10u8, 0x20, 0x30, 0x40];
    let cursor = Cursor::new(data);
    let mut reader = BufferedReader::new(cursor);

    reader.seek(SeekFrom::Start(2)).unwrap();

    let mut buf = [0u8; 2];
    reader.read_exact(&mut buf).unwrap();
    assert_eq!(buf, [0x30, 0x40]);
}

#[test]
fn buffer_test_seek_from_end() {
    let data = vec![0x10u8, 0x20, 0x30, 0x40];
    let cursor = Cursor::new(data);
    let mut reader = BufferedReader::new(cursor);

    reader.seek(SeekFrom::End(-2)).unwrap();

    let mut buf = [0u8; 2];
    reader.read_exact(&mut buf).unwrap();
    assert_eq!(buf, [0x30, 0x40]);
}

#[test]
fn test_read_chunk() {
    let data = vec![0x10u8, 0x20, 0x30, 0x40, 0x50];
    let cursor = Cursor::new(data);
    let mut reader = BufferedReader::new(cursor);

    let chunk = reader.read_chunk(3).unwrap();
    assert_eq!(chunk, vec![0x10, 0x20, 0x30]);

    let chunk = reader.read_chunk(2).unwrap();
    assert_eq!(chunk, vec![0x40, 0x50]);
}

#[test]
fn test_read_chunk_insufficient_data() {
    let data = vec![0x10u8, 0x20];
    let cursor = Cursor::new(data);
    let mut reader = BufferedReader::new(cursor);

    assert!(reader.read_chunk(3).is_err());
}

#[test]
fn test_get_ref() {
    let data = vec![0x10u8, 0x20];
    let cursor = Cursor::new(data.clone());
    let reader = BufferedReader::new(cursor);

    assert_eq!(reader.get_ref().get_ref(), &data);
}

#[test]
fn test_get_mut() {
    let data = vec![0x10u8, 0x20];
    let cursor = Cursor::new(data);
    let mut reader = BufferedReader::new(cursor);

    reader.get_mut().set_position(1);

    let mut buf = [0u8; 1];
    reader.read_exact(&mut buf).unwrap();
    assert_eq!(buf[0], 0x20);
}

#[test]
fn test_into_inner() {
    let data = vec![0x10u8, 0x20];
    let cursor = Cursor::new(data.clone());
    let reader = BufferedReader::new(cursor);

    let inner = reader.into_inner();
    assert_eq!(inner.get_ref(), &data);
}

#[test]
fn test_large_read_bypasses_buffer() {
    let data = vec![0u8; 16384];
    let cursor = Cursor::new(data);
    let mut reader = BufferedReader::with_capacity(1024, cursor);

    let mut buf = vec![0u8; 8192];
    let n = reader.read(&mut buf).unwrap();
    assert_eq!(n, 8192);
}

#[test]
fn test_sequential_small_reads() {
    let data: Vec<u8> = (0..100).collect();
    let cursor = Cursor::new(data);
    let mut reader = BufferedReader::with_capacity(32, cursor);

    for i in 0u8..100 {
        let mut buf = [0u8; 1];
        reader.read_exact(&mut buf).unwrap();
        assert_eq!(buf[0], i);
    }
}

#[test]
fn buffered_bytes_survive_a_change_of_the_inner_position() {
    let data: Vec<u8> = (0..10).collect();
    let mut reader = BufferedReader::with_capacity(4, Cursor::new(data));
    let mut buf = [0u8; 1];
    reader.read_exact(&mut buf).unwrap();
    assert_eq!(buf[0], 0);
    assert_eq!(reader.buffer_len(), 3);
    reader.get_mut().set_position(8);
    let mut rest = [0u8; 5];
    reader.read_exact(&mut rest).unwrap();
    assert_eq!(rest, [1, 2, 3, 8, 9]);
}

#[test]
fn seek_drops_what_is_buffered() {
    let data: Vec<u8> = (0..10).collect();
    let mut reader = BufferedReader::with_capacity(4, Cursor::new(data));
    let mut buf = [0u8; 1];
    reader.read_exact(&mut buf).unwrap();
    assert_eq!(reader.buffer_len(), 3);
    assert_eq!(reader.seek(SeekFrom::Current(0)).unwrap(), 4);
    assert_eq!(reader.buffer_len(), 0);
    reader.read_exact(&mut buf).unwrap();
    assert_eq!(buf[0], 4);
}

#[test]
fn a_reader_without_buffer_reads_through() {
    let mut reader = BufferedReader::with_capacity(0, Cursor::new(vec![7u8, 8]));
    let mut buf = [0u8; 2];
    assert_eq!(reader.read(&mut buf).unwrap(), 2);
    assert_eq!(buf, [7, 8]);
    assert_eq!(reader.read(&mut buf).unwrap(), 0);
}

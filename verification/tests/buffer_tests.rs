use asset_redirect::buffer::{Buffer, ByteSource, SeekError, SeekFrom};

fn owned(content: &[u8]) -> Buffer<'static> {
    Buffer::new(b"renderer/file.bin".to_vec(), ByteSource::Owned(content.to_vec()))
}

#[test]
fn new_buffer_starts_at_zero() {
    let buffer = owned(b"hello world");
    assert_eq!(buffer.position(), 0);
    assert_eq!(buffer.length(), 11);
    assert_eq!(buffer.remaining(), 11);
    assert_eq!(buffer.name(), b"renderer/file.bin");
    assert_eq!(buffer.get_ref(), b"hello world");
    assert!(buffer.is_owned());
}

#[test]
fn borrowed_and_owned_sources_read_alike() {
    let storage = b"0123456789".to_vec();
    let mut borrowed = Buffer::new(b"a".to_vec(), ByteSource::Borrowed(&storage));
    let mut own = Buffer::new(b"a".to_vec(), ByteSource::Owned(storage.clone()));
    assert!(!borrowed.is_owned());
    assert!(own.is_owned());
    let mut first = [0u8; 4];
    let mut second = [0u8; 4];
    assert_eq!(borrowed.read(&mut first), 4);
    assert_eq!(own.read(&mut second), 4);
    assert_eq!(first, second);
    assert_eq!(&first, b"0123");
    assert_eq!(borrowed.seek(SeekFrom::End(-2)), own.seek(SeekFrom::End(-2)));
    assert_eq!(borrowed.get_ref(), own.get_ref());
    assert_eq!(borrowed.remaining(), 2);
}

#[test]
fn byte_source_views() {
    let storage = [1u8, 2, 3];
    let borrowed = ByteSource::Borrowed(&storage);
    assert_eq!(borrowed.as_slice(), &[1, 2, 3]);
    assert_eq!(borrowed.len(), 3);
    assert!(!borrowed.is_empty());
    let empty: ByteSource<'static> = ByteSource::Owned(Vec::new());
    assert!(empty.is_empty());
    assert_eq!(empty.len(), 0);
}

#[test]
fn read_copies_and_advances() {
    let mut buffer = owned(b"hello world");
    let mut dst = [0u8; 5];
    assert_eq!(buffer.read(&mut dst), 5);
    assert_eq!(&dst, b"hello");
    assert_eq!(buffer.position(), 5);
    assert_eq!(buffer.remaining(), 6);
    assert_eq!(buffer.read(&mut dst), 5);
    assert_eq!(&dst, b" worl");
    assert_eq!(buffer.position(), 10);
}

#[test]
fn short_read_leaves_the_rest_of_dst() {
    let mut buffer = owned(b"abc");
    buffer.seek(SeekFrom::Start(1)).unwrap();
    let mut dst = [b'.'; 6];
    assert_eq!(buffer.read(&mut dst), 2);
    assert_eq!(&dst, b"bc....");
    assert_eq!(buffer.position(), 3);
    assert_eq!(buffer.remaining(), 0);
}

#[test]
fn read_at_end_returns_zero() {
    let mut buffer = owned(b"abc");
    buffer.seek(SeekFrom::End(0)).unwrap();
    let mut dst = [7u8; 4];
    assert_eq!(buffer.read(&mut dst), 0);
    assert_eq!(dst, [7u8; 4]);
    assert_eq!(buffer.position(), 3);
    let mut empty = owned(b"");
    assert_eq!(empty.read(&mut dst), 0);
}

#[test]
fn read_into_empty_dst_reads_nothing() {
    let mut buffer = owned(b"abc");
    let mut dst: [u8; 0] = [];
    assert_eq!(buffer.read(&mut dst), 0);
    assert_eq!(buffer.position(), 0);
}

#[test]
fn seek_from_each_origin() {
    let mut buffer = owned(b"0123456789");
    assert_eq!(buffer.seek(SeekFrom::Start(4)), Ok(4));
    assert_eq!(buffer.seek(SeekFrom::Current(3)), Ok(7));
    assert_eq!(buffer.seek(SeekFrom::Current(-7)), Ok(0));
    assert_eq!(buffer.seek(SeekFrom::End(-1)), Ok(9));
    assert_eq!(buffer.seek(SeekFrom::End(0)), Ok(10));
    assert_eq!(buffer.seek(SeekFrom::Current(0)), Ok(10));
    assert_eq!(buffer.position(), 10);
}

#[test]
fn seek_then_read_starts_at_the_sought_position() {
    let content = b"0123456789";
    for at in 0..=10u64 {
        let mut buffer = owned(content);
        assert_eq!(buffer.seek(SeekFrom::Start(at)), Ok(at));
        let mut dst = [0u8; 3];
        let n = buffer.read(&mut dst);
        let expected = &content[at as usize..(at as usize + 3).min(10)];
        assert_eq!(&dst[..n], expected);
        assert_eq!(n, expected.len());
    }
}

#[test]
fn negative_seek_is_refused_and_keeps_the_position() {
    let mut buffer = owned(b"0123456789");
    buffer.seek(SeekFrom::Start(4)).unwrap();
    assert_eq!(buffer.seek(SeekFrom::Current(-5)), Err(SeekError::OutOfRange));
    assert_eq!(buffer.position(), 4);
    assert_eq!(buffer.seek(SeekFrom::End(-11)), Err(SeekError::OutOfRange));
    assert_eq!(buffer.position(), 4);
    assert_eq!(buffer.seek(SeekFrom::End(i64::MIN)), Err(SeekError::OutOfRange));
    assert_eq!(buffer.seek(SeekFrom::Current(i64::MIN)), Err(SeekError::OutOfRange));
    assert_eq!(buffer.position(), 4);
    let mut dst = [0u8; 2];
    assert_eq!(buffer.read(&mut dst), 2);
    assert_eq!(&dst, b"45");
}

#[test]
fn seek_that_no_offset_can_report_is_refused() {
    let mut buffer = owned(b"0123456789");
    buffer.seek(SeekFrom::Start(4)).unwrap();
    assert_eq!(buffer.seek(SeekFrom::Start(u64::MAX)), Err(SeekError::OutOfRange));
    assert_eq!(buffer.seek(SeekFrom::Start(i64::MAX as u64 + 1)), Err(SeekError::OutOfRange));
    assert_eq!(buffer.seek(SeekFrom::Current(i64::MAX)), Err(SeekError::OutOfRange));
    assert_eq!(buffer.seek(SeekFrom::End(i64::MAX)), Err(SeekError::OutOfRange));
    assert_eq!(buffer.position(), 4);
}

#[test]
fn seek_beyond_the_end_stops_at_the_end() {
    let mut buffer = owned(b"0123456789");
    assert_eq!(buffer.seek(SeekFrom::Start(11)), Ok(10));
    assert_eq!(buffer.seek(SeekFrom::Start(i64::MAX as u64)), Ok(10));
    assert_eq!(buffer.seek(SeekFrom::End(5)), Ok(10));
    buffer.rewind();
    assert_eq!(buffer.seek(SeekFrom::Current(1000)), Ok(10));
    assert_eq!(buffer.remaining(), 0);
    let mut dst = [0u8; 2];
    assert_eq!(buffer.read(&mut dst), 0);
}

#[test]
fn seek_within_applies_its_limit_to_the_target() {
    let mut buffer = owned(b"0123456789");
    assert_eq!(buffer.seek_within(SeekFrom::Start(6), 5), Err(SeekError::OutOfRange));
    assert_eq!(buffer.position(), 0);
    assert_eq!(buffer.seek_within(SeekFrom::Start(5), 5), Ok(5));
    assert_eq!(buffer.seek_within(SeekFrom::Current(1), 5), Err(SeekError::OutOfRange));
    assert_eq!(buffer.position(), 5);
    assert_eq!(buffer.seek_within(SeekFrom::End(20), 30), Ok(10));
    assert_eq!(buffer.seek_within(SeekFrom::Start(0), 0), Ok(0));
}

#[test]
fn rewind_goes_back_to_the_start() {
    let mut buffer = owned(b"0123456789");
    buffer.seek(SeekFrom::Start(7)).unwrap();
    buffer.rewind();
    assert_eq!(buffer.position(), 0);
    assert_eq!(buffer.remaining(), 10);
    let mut dst = [0u8; 3];
    assert_eq!(buffer.read(&mut dst), 3);
    assert_eq!(&dst, b"012");
    buffer.seek(SeekFrom::End(0)).unwrap();
    buffer.rewind();
    buffer.rewind();
    assert_eq!(buffer.position(), 0);
    assert_eq!(buffer.get_ref(), b"0123456789");
    assert_eq!(buffer.name(), b"renderer/file.bin");
}

use flate2::read::GzDecoder;
use flate2::write::GzEncoder;
use flate2::Compression;
use std::io::{Cursor, Write};
use tex_io::errors::Error;
use tex_io::io::{InputFeatures, InputHandle, InputOrigin, OutputFeatures, SeekFrom};

fn gzipped(data: &[u8]) -> Vec<u8> {
    let mut encoder = GzEncoder::new(Vec::new(), Compression::default());
    encoder.write_all(data).unwrap();
    encoder.finish().unwrap()
}

#[test]
fn buffer_in_memory_reads_from_where_it_stands() {
    let mut source = Cursor::new(b"abcdef".to_vec());
    let mut buf = [0u8; 4];
    assert_eq!(InputFeatures::read(&mut source, &mut buf), Ok(4));
    assert_eq!(&buf, b"abcd");
    assert_eq!(InputFeatures::read(&mut source, &mut buf), Ok(2));
    assert_eq!(&buf[..2], b"ef");
    assert_eq!(InputFeatures::read(&mut source, &mut buf), Ok(0));
}

#[test]
fn buffer_in_memory_tells_its_size() {
    let mut source = Cursor::new(b"abcdef".to_vec());
    assert_eq!(source.get_size(), Ok(6));
    let mut buf = [0u8; 4];
    assert_eq!(InputFeatures::read(&mut source, &mut buf), Ok(4));
    assert_eq!(source.get_size(), Ok(6));
    assert_eq!(Cursor::new(Vec::new()).get_size(), Ok(0));
}

#[test]
fn buffer_in_memory_seeks() {
    let mut source = Cursor::new(b"abcdef".to_vec());
    assert_eq!(source.try_seek(SeekFrom::Start(4)), Ok(4));
    assert_eq!(source.try_seek(SeekFrom::Current(-1)), Ok(3));
    assert_eq!(source.try_seek(SeekFrom::Current(0)), Ok(3));
    assert_eq!(source.try_seek(SeekFrom::End(-1)), Ok(5));
    assert_eq!(source.try_seek(SeekFrom::End(2)), Ok(8));
    let mut buf = [0u8; 4];
    assert_eq!(InputFeatures::read(&mut source, &mut buf), Ok(0));
    assert_eq!(source.try_seek(SeekFrom::Start(0)), Ok(0));
    assert_eq!(InputFeatures::read(&mut source, &mut buf), Ok(4));
    assert_eq!(&buf, b"abcd");
}

#[test]
fn buffer_in_memory_refuses_to_seek_before_its_start() {
    let mut source = Cursor::new(b"abcdef".to_vec());
    assert!(matches!(
        source.try_seek(SeekFrom::Current(-1)),
        Err(Error::Io(_))
    ));
    assert!(matches!(source.try_seek(SeekFrom::End(-7)), Err(Error::Io(_))));
    assert_eq!(source.try_seek(SeekFrom::Current(0)), Ok(0));
}

#[test]
fn gzip_stream_is_expanded_while_it_is_read() {
    let data = b"format file contents, format file contents, format file contents";
    let mut stream = GzDecoder::new(Cursor::new(gzipped(data)));
    let mut all = Vec::new();
    let mut buf = [0u8; 16];
    loop {
        let n = InputFeatures::read(&mut stream, &mut buf).unwrap();
        if n == 0 {
            break;
        }
        all.extend_from_slice(&buf[..n]);
    }
    assert_eq!(all, data.to_vec());
}

#[test]
fn gzip_stream_has_no_size_and_cannot_seek() {
    let mut stream = GzDecoder::new(Cursor::new(gzipped(b"abc")));
    assert_eq!(stream.get_size(), Err(Error::NotSizeable));
    assert_eq!(stream.try_seek(SeekFrom::Start(0)), Err(Error::NotSeekable));
    assert_eq!(stream.try_seek(SeekFrom::Current(0)), Err(Error::NotSeekable));
    let mut buf = [0u8; 4];
    assert_eq!(InputFeatures::read(&mut stream, &mut buf), Ok(3));
    assert_eq!(&buf[..3], b"abc");
}

#[test]
fn broken_gzip_stream_fails_to_read() {
    let mut stream = GzDecoder::new(Cursor::new(b"this is no gzip stream at all".to_vec()));
    let mut buf = [0u8; 4];
    assert!(matches!(
        InputFeatures::read(&mut stream, &mut buf),
        Err(Error::Io(_))
    ));
}

#[test]
fn handle_on_a_gzip_stream_digests_the_expanded_bytes() {
    let data = b"expanded bytes";
    let stream = GzDecoder::new(Cursor::new(gzipped(data)));
    let mut h = InputHandle::new("fmt.gz", stream, InputOrigin::Other);
    assert_eq!(h.get_size(), Err(Error::NotSizeable));
    let mut all = Vec::new();
    let mut buf = [0u8; 5];
    loop {
        let n = h.read(&mut buf).unwrap();
        if n == 0 {
            break;
        }
        all.extend_from_slice(&buf[..n]);
    }
    assert_eq!(all, data.to_vec());
    let plain = {
        let mut p = InputHandle::new("fmt", Cursor::new(data.to_vec()), InputOrigin::Other);
        let mut big = [0u8; 64];
        assert_eq!(p.read(&mut big), Ok(data.len()));
        p.into_name_digest().1
    };
    assert!(plain.is_some());
    assert_eq!(h.into_name_digest().1, plain);
}

#[test]
fn seek_on_a_handle_on_a_gzip_stream_fails_and_gives_up_the_digest() {
    let stream = GzDecoder::new(Cursor::new(gzipped(b"abc")));
    let mut h = InputHandle::new("fmt.gz", stream, InputOrigin::Other);
    assert_eq!(h.getc(), Ok(b'a'));
    assert_eq!(h.try_seek(SeekFrom::Start(2)), Err(Error::NotSeekable));
    assert_eq!(h.getc(), Ok(b'b'));
    assert_eq!(h.into_name_digest().1, None);
}

#[test]
fn vector_takes_in_all_that_is_written() {
    let mut sink: Vec<u8> = vec![1, 2];
    assert_eq!(OutputFeatures::write(&mut sink, &[3, 4, 5]), Ok(3));
    assert_eq!(OutputFeatures::write(&mut sink, &[]), Ok(0));
    assert_eq!(OutputFeatures::flush(&mut sink), Ok(()));
    assert_eq!(sink, vec![1, 2, 3, 4, 5]);
}

#[test]
fn buffer_in_memory_moves_its_position_by_what_it_reads() {
    let mut source = Cursor::new(b"abcdef".to_vec());
    let mut buf = [0u8; 4];
    assert_eq!(InputFeatures::read(&mut source, &mut buf), Ok(4));
    assert_eq!(source.position(), 4);
    assert_eq!(source.get_ref(), &b"abcdef".to_vec());
    assert_eq!(InputFeatures::read(&mut source, &mut buf), Ok(2));
    assert_eq!(&buf[..2], b"ef");
    assert_eq!(source.position(), 6);
    assert_eq!(InputFeatures::read(&mut source, &mut buf), Ok(0));
    assert_eq!(source.position(), 6);
    let mut none = [0u8; 0];
    assert_eq!(source.try_seek(SeekFrom::Start(1)), Ok(1));
    assert_eq!(InputFeatures::read(&mut source, &mut none), Ok(0));
    assert_eq!(source.position(), 1);
}

#[test]
fn buffer_in_memory_is_where_its_seek_says() {
    let mut source = Cursor::new(b"abcdef".to_vec());
    assert_eq!(source.try_seek(SeekFrom::End(-2)), Ok(4));
    assert_eq!(source.position(), 4);
    assert_eq!(source.try_seek(SeekFrom::Current(3)), Ok(7));
    assert_eq!(source.position(), 7);
    assert_eq!(source.get_size(), Ok(6));
    assert_eq!(source.position(), 7);
    assert_eq!(source.get_ref(), &b"abcdef".to_vec());
    assert!(source.try_seek(SeekFrom::Current(-8)).is_err());
}

use media_io::source::{file_is_seekable, memory_byte_len};
use media_io::{
    EmbeddedIoSource, IoSliceMut, MediaError, MediaErrorKind, MediaResult, MediaSource,
    ReadOnlySource, SeekFrom,
};

/// A source in memory that hands out at most `limit` bytes at a time, and fails once it has
/// answered `calls` reads.
struct MemorySource {
    data: Vec<u8>,
    pos: usize,
    limit: usize,
    calls: usize,
}

impl MemorySource {
    fn new(data: &[u8], limit: usize, calls: usize) -> Self {
        MemorySource { data: data.to_vec(), pos: 0, limit, calls }
    }
}

impl MediaSource for MemorySource {
    fn is_seekable(&self) -> bool {
        true
    }

    fn byte_len(&self) -> Option<u64> {
        memory_byte_len(&self.data)
    }

    fn read(&mut self, buf: &mut [u8]) -> MediaResult<usize> {
        if self.calls == 0 {
            return Err(MediaError::interrupted());
        }
        self.calls -= 1;
        let n = buf.len().min(self.limit).min(self.data.len() - self.pos);
        buf[..n].copy_from_slice(&self.data[self.pos..self.pos + n]);
        self.pos += n;
        Ok(n)
    }

    fn seek(&mut self, pos: SeekFrom) -> MediaResult<u64> {
        let target = match pos {
            SeekFrom::Start(p) => p as i64,
            SeekFrom::End(d) => self.data.len() as i64 + d,
            SeekFrom::Current(d) => self.pos as i64 + d,
        };
        self.pos = target as usize;
        Ok(target as u64)
    }
}

#[test]
fn vectored_read_fills_buffers_in_order() {
    let mut source = MemorySource::new(&[1, 2, 3, 4, 5, 6], 100, 100);
    assert!(!source.is_read_vectored());
    let (mut a, mut b, mut c) = ([0u8; 2], [0u8; 3], [0u8; 1]);
    {
        let mut bufs =
            [IoSliceMut::new(&mut a), IoSliceMut::new(&mut b), IoSliceMut::new(&mut c)];
        assert_eq!(source.read_vectored(&mut bufs).unwrap(), 6);
    }
    assert_eq!((a, b, c), ([1, 2], [3, 4, 5], [6]));
}

#[test]
fn vectored_read_stops_at_a_short_read() {
    let mut source = MemorySource::new(&[1, 2, 3, 4, 5, 6], 2, 100);
    let (mut a, mut b, mut c) = ([0u8; 2], [0u8; 3], [0u8; 1]);
    {
        let mut bufs =
            [IoSliceMut::new(&mut a), IoSliceMut::new(&mut b), IoSliceMut::new(&mut c)];
        assert_eq!(source.read_vectored(&mut bufs).unwrap(), 4);
    }
    assert_eq!((a, b, c), ([1, 2], [3, 4, 0], [0]));
    assert_eq!(source.pos, 4);
}

#[test]
fn vectored_read_is_one_contiguous_read() {
    for len in 0..8u8 {
        let data: Vec<u8> = (1..=len).collect();
        let (mut a, mut b, mut c) = ([90u8; 2], [91u8; 3], [92u8; 1]);
        let mut whole = [90u8, 90, 91, 91, 91, 92];
        let read = {
            let mut bufs =
                [IoSliceMut::new(&mut a), IoSliceMut::new(&mut b), IoSliceMut::new(&mut c)];
            MemorySource::new(&data, 100, 100).read_vectored(&mut bufs).unwrap()
        };
        assert_eq!(read, MemorySource::new(&data, 100, 100).read(&mut whole).unwrap());
        assert_eq!([&a[..], &b[..], &c[..]].concat(), whole);
    }
}

#[test]
fn vectored_read_fails_as_a_read_does() {
    let mut source = MemorySource::new(&[1, 2, 3, 4, 5, 6], 100, 1);
    let (mut a, mut b) = ([0u8; 2], [0u8; 3]);
    {
        let mut bufs = [IoSliceMut::new(&mut a), IoSliceMut::new(&mut b)];
        let err = source.read_vectored(&mut bufs).unwrap_err();
        assert_eq!(err.kind(), MediaErrorKind::Interrupted);
    }
    assert_eq!((a, b), ([1, 2], [0, 0, 0]));
}

#[test]
fn vectored_read_without_buffers_reads_nothing() {
    let mut source = MemorySource::new(&[1, 2, 3], 100, 0);
    assert_eq!(source.read_vectored(&mut []).unwrap(), 0);
    assert_eq!(source.pos, 0);
    assert_eq!(source.seek(SeekFrom::End(-1)).unwrap(), 2);
    assert_eq!(source.byte_len(), Some(3));
}

#[test]
fn read_only_source_wraps_a_reader() {
    let mut source = ReadOnlySource::new(vec![1u8, 2]);
    assert_eq!(source.get_ref(), &vec![1u8, 2]);
    source.get_mut().push(3);
    assert!(!source.is_seekable());
    assert_eq!(source.byte_len(), None);
    assert_eq!(source.into_inner(), vec![1u8, 2, 3]);
}

#[test]
fn read_only_source_does_not_seek() {
    let mut source = ReadOnlySource::new(5u32);
    let err = source.seek(std::io::SeekFrom::Start(0)).unwrap_err();
    assert_eq!(err.kind(), std::io::ErrorKind::Other);
    assert_eq!(err.to_string(), "source does not support seeking");
    assert_eq!(source.into_inner(), 5);
}

#[test]
fn embedded_source_wraps_a_source() {
    let mut source = EmbeddedIoSource::new(String::from("a"));
    assert_eq!(source.get_ref(), "a");
    source.get_mut().push('b');
    assert!(source.is_seekable());
    assert_eq!(source.byte_len(), None);
    assert_eq!(source.into_inner(), "ab");
}

#[test]
fn only_regular_files_are_seekable() {
    assert!(file_is_seekable(Some(true)));
    assert!(!file_is_seekable(Some(false)));
    assert!(!file_is_seekable(None));
}

#[test]
fn memory_has_a_length() {
    assert_eq!(memory_byte_len(&[]), Some(0));
    assert_eq!(memory_byte_len(&[1, 2, 3]), Some(3));
}

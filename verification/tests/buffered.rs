use media_io::{FiniteStream, SeekBuffered};

/// A window over the bytes `start..end` of a stream.
struct Window {
    start: u64,
    pos: u64,
    end: u64,
    seekback: usize,
}

impl SeekBuffered for Window {
    fn ensure_seekback_buffer(&mut self, len: usize) {
        self.seekback = self.seekback.max(len);
    }

    fn unread_buffer_len(&self) -> usize {
        (self.end - self.pos) as usize
    }

    fn read_buffer_len(&self) -> usize {
        (self.pos - self.start) as usize
    }

    fn seek_buffered(&mut self, pos: u64) -> u64 {
        self.pos = pos.clamp(self.start, self.end);
        self.pos
    }

    fn seek_buffered_rel(&mut self, delta: isize) -> u64 {
        let pos = self.pos as i64 + delta as i64;
        self.pos = pos.clamp(self.start as i64, self.end as i64) as u64;
        self.pos
    }
}

impl FiniteStream for Window {
    fn byte_len(&self) -> u64 {
        self.end - self.start
    }

    fn bytes_read(&self) -> u64 {
        self.pos - self.start
    }

    fn bytes_available(&self) -> u64 {
        self.end - self.pos
    }
}

fn by_reference<S: SeekBuffered + FiniteStream>(mut stream: S) -> (u64, usize, usize, u64) {
    stream.ensure_seekback_buffer(4);
    stream.seek_buffered_rev(3);
    let pos = stream.seek_buffered_rel(1);
    (pos, stream.unread_buffer_len(), stream.read_buffer_len(), stream.byte_len())
}

#[test]
fn seek_backwards_is_a_negative_relative_seek() {
    let mut a = Window { start: 10, pos: 15, end: 20, seekback: 0 };
    let mut b = Window { start: 10, pos: 15, end: 20, seekback: 0 };
    a.seek_buffered_rev(3);
    assert_eq!(b.seek_buffered_rel(-3), 12);
    assert_eq!(a.pos, b.pos);
}

#[test]
fn seek_backwards_stops_at_the_start_of_the_buffer() {
    let mut a = Window { start: 10, pos: 15, end: 20, seekback: 0 };
    a.seek_buffered_rev(100);
    assert_eq!(a.pos, 10);
    a.seek_buffered_rev(0);
    assert_eq!(a.pos, 10);
}

#[test]
fn a_seek_is_undone_by_the_opposite_seek() {
    let mut a = Window { start: 10, pos: 15, end: 20, seekback: 0 };
    assert_eq!(a.seek_buffered_rel(4), 19);
    assert_eq!(a.unread_buffer_len() + a.read_buffer_len(), 10);
    a.seek_buffered_rev(4);
    assert_eq!(a.pos, 15);
    assert_eq!(a.seek_buffered(11), 11);
}

#[test]
fn a_mutable_reference_is_a_buffered_stream() {
    let mut a = Window { start: 10, pos: 15, end: 20, seekback: 0 };
    assert_eq!(by_reference(&mut a), (13, 7, 3, 10));
    assert_eq!(a.seekback, 4);
    assert_eq!(a.pos, 13);
    let r = &mut a;
    assert_eq!(FiniteStream::bytes_read(&r), 3);
    assert_eq!(FiniteStream::bytes_available(&r), 7);
    let mut r = r;
    assert_eq!(SeekBuffered::seek_buffered(&mut r, 20), 20);
}

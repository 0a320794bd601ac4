use media_io::{MediaError, MediaErrorKind, MediaResult, ReadBytes};

/// A reader over bytes in memory that keeps the lengths of the buffers it was asked to fill, and
/// whether they were all zero.
struct Reader {
    data: Vec<u8>,
    pos: usize,
    asked: Vec<usize>,
    zeroed: bool,
    scanned: Vec<(Vec<u8>, usize)>,
}

impl Reader {
    fn new(data: &[u8]) -> Self {
        Reader { data: data.to_vec(), pos: 0, asked: Vec::new(), zeroed: true, scanned: Vec::new() }
    }

    fn take(&mut self, n: usize) -> MediaResult<Vec<u8>> {
        if self.data.len() - self.pos < n {
            return Err(MediaError::eof());
        }
        self.pos += n;
        Ok(self.data[self.pos - n..self.pos].to_vec())
    }
}

impl ReadBytes for Reader {
    fn read_byte(&mut self) -> MediaResult<u8> {
        Ok(self.take(1)?[0])
    }

    fn read_double_bytes(&mut self) -> MediaResult<[u8; 2]> {
        let b = self.take(2)?;
        Ok([b[0], b[1]])
    }

    fn read_triple_bytes(&mut self) -> MediaResult<[u8; 3]> {
        let b = self.take(3)?;
        Ok([b[0], b[1], b[2]])
    }

    fn read_quad_bytes(&mut self) -> MediaResult<[u8; 4]> {
        let b = self.take(4)?;
        Ok([b[0], b[1], b[2], b[3]])
    }

    fn read_buf(&mut self, buf: &mut [u8]) -> MediaResult<usize> {
        self.asked.push(buf.len());
        self.zeroed &= buf.iter().all(|b| *b == 0);
        let n = buf.len().min(self.data.len() - self.pos);
        if n == 0 && !buf.is_empty() {
            return Err(MediaError::eof());
        }
        let b = self.take(n)?;
        buf[..n].copy_from_slice(&b);
        Ok(n)
    }

    fn read_buf_exact(&mut self, buf: &mut [u8]) -> MediaResult<()> {
        self.asked.push(buf.len());
        self.zeroed &= buf.iter().all(|b| *b == 0);
        let b = self.take(buf.len())?;
        buf.copy_from_slice(&b);
        Ok(())
    }

    fn scan_bytes_aligned<'a>(
        &mut self,
        pattern: &[u8],
        align: usize,
        buf: &'a mut [u8],
    ) -> MediaResult<&'a mut [u8]> {
        self.scanned.push((pattern.to_vec(), align));
        let mut n = pattern.len();
        while n < buf.len() && &self.data[self.pos + n - pattern.len()..self.pos + n] != pattern {
            n += align;
        }
        let b = self.take(n)?;
        buf[..n].copy_from_slice(&b);
        Ok(&mut buf[..n])
    }

    fn ignore_bytes(&mut self, count: u64) -> MediaResult<()> {
        self.take(count as usize)?;
        Ok(())
    }

    fn pos(&self) -> u64 {
        self.pos as u64
    }
}

fn kind<T>(res: MediaResult<T>) -> MediaErrorKind {
    match res {
        Ok(_) => panic!("the read succeeded"),
        Err(err) => err.kind(),
    }
}

const BYTES: [u8; 8] = [0x81, 0x02, 0x83, 0x04, 0x85, 0x06, 0x87, 0xf8];

#[test]
fn read_8_bits() {
    let mut r = Reader::new(&[0x80, 0x80, 0x7f]);
    assert_eq!(r.read_u8().unwrap(), 0x80);
    assert_eq!(r.read_i8().unwrap(), -128);
    assert_eq!(r.read_i8().unwrap(), 127);
    assert_eq!(kind(r.read_u8()), MediaErrorKind::Eof);
    assert_eq!(kind(r.read_i8()), MediaErrorKind::Eof);
    assert_eq!(r.pos(), 3);
}

#[test]
fn read_16_bits() {
    assert_eq!(Reader::new(&BYTES).read_u16().unwrap(), 0x0281);
    assert_eq!(Reader::new(&BYTES).read_be_u16().unwrap(), 0x8102);
    assert_eq!(Reader::new(&BYTES).read_i16().unwrap(), 0x0281);
    assert_eq!(Reader::new(&BYTES).read_be_i16().unwrap(), 0x8102u16 as i16);
    assert_eq!(Reader::new(&[0x00, 0x80]).read_i16().unwrap(), i16::MIN);
    assert_eq!(Reader::new(&[0xff, 0xff]).read_be_i16().unwrap(), -1);
    assert_eq!(kind(Reader::new(&[1]).read_u16()), MediaErrorKind::Eof);
    assert_eq!(kind(Reader::new(&[1]).read_be_i16()), MediaErrorKind::Eof);
}

#[test]
fn read_24_bits() {
    assert_eq!(Reader::new(&BYTES).read_u24().unwrap(), 0x83_0281);
    assert_eq!(Reader::new(&BYTES).read_be_u24().unwrap(), 0x81_0283);
    assert_eq!(Reader::new(&BYTES).read_i24().unwrap(), 0x83_0281 - 0x100_0000);
    assert_eq!(Reader::new(&BYTES).read_be_i24().unwrap(), 0x81_0283 - 0x100_0000);
    assert_eq!(Reader::new(&[0xff, 0xff, 0x7f]).read_i24().unwrap(), 0x7f_ffff);
    assert_eq!(Reader::new(&[0x80, 0x00, 0x00]).read_be_i24().unwrap(), -0x80_0000);
    assert_eq!(kind(Reader::new(&[1, 2]).read_u24()), MediaErrorKind::Eof);
    assert_eq!(kind(Reader::new(&[1, 2]).read_be_i24()), MediaErrorKind::Eof);
}

#[test]
fn read_32_bits() {
    assert_eq!(Reader::new(&BYTES).read_u32().unwrap(), 0x0483_0281);
    assert_eq!(Reader::new(&BYTES).read_be_u32().unwrap(), 0x8102_8304);
    assert_eq!(Reader::new(&BYTES).read_i32().unwrap(), 0x0483_0281);
    assert_eq!(Reader::new(&BYTES).read_be_i32().unwrap(), 0x8102_8304u32 as i32);
    assert_eq!(Reader::new(&[0xff; 4]).read_i32().unwrap(), -1);
    assert_eq!(kind(Reader::new(&[1, 2, 3]).read_u32()), MediaErrorKind::Eof);
}

#[test]
fn read_64_bits() {
    let le = 0xf887_0685_0483_0281u64;
    let be = 0x8102_8304_8506_87f8u64;
    assert_eq!(Reader::new(&BYTES).read_u64().unwrap(), le);
    assert_eq!(Reader::new(&BYTES).read_be_u64().unwrap(), be);
    assert_eq!(Reader::new(&BYTES).read_i64().unwrap(), le as i64);
    assert_eq!(Reader::new(&BYTES).read_be_i64().unwrap(), be as i64);
    assert_eq!(Reader::new(&[0xff; 8]).read_u64().unwrap(), u64::MAX);
    assert_eq!(kind(Reader::new(&BYTES[..7]).read_u64()), MediaErrorKind::Eof);
    assert_eq!(kind(Reader::new(&BYTES[..7]).read_be_i64()), MediaErrorKind::Eof);
}

#[test]
fn byte_orders_mirror_each_other_on_bytes() {
    let mut reversed = BYTES;
    reversed.reverse();
    assert_eq!(
        Reader::new(&BYTES).read_u64().unwrap(),
        Reader::new(&reversed).read_be_u64().unwrap()
    );
    assert_eq!(
        Reader::new(&BYTES[..3]).read_be_u24().unwrap(),
        Reader::new(&reversed[5..]).read_u24().unwrap()
    );
}

#[test]
fn reads_follow_each_other() {
    let mut r = Reader::new(&BYTES);
    assert_eq!(r.read_u8().unwrap(), 0x81);
    assert_eq!(r.read_be_u16().unwrap(), 0x0283);
    r.ignore_bytes(2).unwrap();
    assert_eq!(r.read_be_u24().unwrap(), 0x06_87f8);
    assert_eq!(r.pos(), 8);
}

#[test]
fn boxed_slice_of_what_is_there() {
    let mut r = Reader::new(&BYTES);
    assert_eq!(&*r.read_boxed_slice(3).unwrap(), &BYTES[..3]);
    assert_eq!(&*r.read_boxed_slice(100).unwrap(), &BYTES[3..]);
    assert_eq!(r.asked, vec![3, 100]);
    assert_eq!(kind(r.read_boxed_slice(1)), MediaErrorKind::Eof);
    assert_eq!(&*r.read_boxed_slice(0).unwrap(), &[] as &[u8]);
    assert_eq!(r.asked, vec![3, 100, 1]);
}

#[test]
fn boxed_slice_of_exact_length() {
    let mut r = Reader::new(&BYTES);
    assert_eq!(&*r.read_boxed_slice_exact(8).unwrap(), &BYTES[..]);
    assert_eq!(kind(r.read_boxed_slice_exact(1)), MediaErrorKind::Eof);
    assert_eq!(&*r.read_boxed_slice_exact(0).unwrap(), &[] as &[u8]);
    assert_eq!(kind(Reader::new(&BYTES).read_boxed_slice_exact(9)), MediaErrorKind::Eof);
}

#[test]
fn large_reads_grow_by_doubling_chunks() {
    const MB: usize = 1024 * 1024;
    let data: Vec<u8> = (0..13 * MB).map(|i| (i / 7) as u8).collect();

    let mut r = Reader::new(&data);
    assert_eq!(&*r.read_boxed_slice_exact(13 * MB).unwrap(), &data[..]);
    assert_eq!(r.asked, vec![4 * MB, 8 * MB, MB]);
    assert!(r.zeroed);

    let mut r = Reader::new(&data);
    assert_eq!(&*r.read_boxed_slice(4 * MB).unwrap(), &data[..4 * MB]);
    assert_eq!(r.asked, vec![4 * MB]);

    // However much is requested, the buffer grows no further than what is there.
    let mut r = Reader::new(&data);
    assert_eq!(&*r.read_boxed_slice(usize::MAX).unwrap(), &data[..]);
    assert_eq!(r.asked, vec![4 * MB, 8 * MB, 16 * MB]);
    assert!(r.zeroed);

    let mut r = Reader::new(&data[..5 * MB]);
    assert_eq!(kind(r.read_boxed_slice_exact(usize::MAX)), MediaErrorKind::Eof);
    assert_eq!(r.asked, vec![4 * MB, 8 * MB]);
}

#[test]
fn scan_is_an_aligned_scan_by_one() {
    let mut r = Reader::new(&BYTES);
    let mut buf = [0u8; 8];
    let found = r.scan_bytes(&[0x04, 0x85], &mut buf).unwrap();
    assert_eq!(found, &BYTES[..5]);
    found[0] = 0;
    assert_eq!(buf, [0, 0x02, 0x83, 0x04, 0x85, 0, 0, 0]);
    assert_eq!(r.pos(), 5);
    assert_eq!(r.scanned, vec![(vec![0x04, 0x85], 1)]);
}

fn by_value<R: ReadBytes>(mut reader: R) -> (u16, u32, i64, u64) {
    let mut buf = [0u8; 1];
    let a = reader.read_u16().unwrap();
    let b = reader.read_be_u24().unwrap();
    assert_eq!(reader.read_buf(&mut buf).unwrap(), 1);
    reader.ignore_bytes(1).unwrap();
    let c = reader.read_i8().unwrap() as i64;
    (a, b, c, reader.pos())
}

#[test]
fn a_mutable_reference_is_a_reader() {
    let mut r = Reader::new(&BYTES);
    assert_eq!(by_value(&mut r), (0x0281, 0x83_0485, -8, 8));
    assert_eq!(r.pos(), 8);

    let mut r = Reader::new(&BYTES);
    let mut by_ref = &mut r;
    let mut buf = [0u8; 2];
    ReadBytes::read_buf_exact(&mut by_ref, &mut buf).unwrap();
    assert_eq!(buf, [0x81, 0x02]);
    assert_eq!(ReadBytes::read_quad_bytes(&mut by_ref).unwrap(), [0x83, 0x04, 0x85, 0x06]);
    let mut buf = [0u8; 2];
    assert_eq!(ReadBytes::scan_bytes_aligned(&mut by_ref, &[0x87], 1, &mut buf).unwrap(), &[0x87]);
    assert_eq!(ReadBytes::pos(&by_ref), 7);
}

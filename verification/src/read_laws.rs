//! What reading integers, scanning, and reading through a reference do, stated of the calls themselves.
//!
//! A number that is read is told by its digits to the base 256: they are the bytes that follow the
//! position of the stream. The division rounds down and the remainder is never negative, so that this
//! holds of negative numbers in two's complement, too.

use crate::endian;
use crate::error::{MediaError, MediaResult};
use crate::read_bytes::{ReadBytes, ReadCall};
use crate::stream;
use crate::stream::Reply;
use vstd::prelude::*;

verus! {

/// Reading an unsigned byte takes the byte that follows, and fails only as the reader does.
pub proof fn unsigned_8_bit_reads_take_one_byte<R: ReadBytes>(res: MediaResult<u8>)
    ensures
        forall|r: &mut R| #[trigger]
            call_ensures(R::read_u8, (r,), res) ==> {
                &&& (*final(r)).stream().bytes == (*r).stream().bytes
                &&& match res {
                    Ok(v) => {
                        &&& (*r).stream().position + 1 <= (*r).stream().bytes.len()
                        &&& (*final(r)).stream().position == (*r).stream().position + 1
                        &&& forall|i: nat|
                            i < 1 ==> v as int / #[trigger] vstd::arithmetic::power::pow(256, i)
                                % 256 == (*r).stream().bytes[(*r).stream().position + i as int]
                    },
                    Err(err) => (*r).answers(ReadCall::Byte, Err(err), &*final(r)),
                }
            },
{
    endian::radixes();
    vstd::arithmetic::power::lemma_pow0(256);
}

/// Reading a signed byte takes the byte that follows, and fails only as the reader does.
pub proof fn signed_8_bit_reads_take_one_byte<R: ReadBytes>(res: MediaResult<i8>)
    ensures
        forall|r: &mut R| #[trigger]
            call_ensures(R::read_i8, (r,), res) ==> {
                &&& (*final(r)).stream().bytes == (*r).stream().bytes
                &&& match res {
                    Ok(v) => {
                        &&& (*r).stream().position + 1 <= (*r).stream().bytes.len()
                        &&& (*final(r)).stream().position == (*r).stream().position + 1
                        &&& forall|i: nat|
                            i < 1 ==> v as int / #[trigger] vstd::arithmetic::power::pow(256, i)
                                % 256 == (*r).stream().bytes[(*r).stream().position + i as int]
                    },
                    Err(err) => (*r).answers(ReadCall::Byte, Err(err), &*final(r)),
                }
            },
{
    endian::radixes();
    vstd::arithmetic::power::lemma_pow0(256);
}

/// Reading an unsigned 16-bit integer takes the two bytes that follow as its digits, from the least
/// significant one on in little-endian order, from the most significant one on in big-endian order. It
/// fails only as the reader does.
pub proof fn unsigned_16_bit_reads_take_two_bytes<R: ReadBytes>(res: MediaResult<u16>)
    ensures
        forall|r: &mut R| #[trigger]
            call_ensures(R::read_u16, (r,), res) ==> {
                &&& (*final(r)).stream().bytes == (*r).stream().bytes
                &&& match res {
                    Ok(v) => {
                        &&& (*r).stream().position + 2 <= (*r).stream().bytes.len()
                        &&& (*final(r)).stream().position == (*r).stream().position + 2
                        &&& forall|i: nat|
                            i < 2 ==> v as int / #[trigger] vstd::arithmetic::power::pow(256, i)
                                % 256 == (*r).stream().bytes[(*r).stream().position + i as int]
                    },
                    Err(err) => (*r).answers(ReadCall::DoubleBytes, Err(err), &*final(r)),
                }
            },
        forall|r: &mut R| #[trigger]
            call_ensures(R::read_be_u16, (r,), res) ==> {
                &&& (*final(r)).stream().bytes == (*r).stream().bytes
                &&& match res {
                    Ok(v) => {
                        &&& (*r).stream().position + 2 <= (*r).stream().bytes.len()
                        &&& (*final(r)).stream().position == (*r).stream().position + 2
                        &&& forall|i: nat|
                            i < 2 ==> v as int / #[trigger] vstd::arithmetic::power::pow(256, i)
                                % 256 == (*r).stream().bytes[(*r).stream().position + 1 - i]
                    },
                    Err(err) => (*r).answers(ReadCall::DoubleBytes, Err(err), &*final(r)),
                }
            },
{
    endian::radixes();
    endian::all_bytes_are_digits();
}

/// Reading a signed 16-bit integer takes the two bytes that follow as its digits, from the least
/// significant one on in little-endian order, from the most significant one on in big-endian order. It
/// fails only as the reader does.
pub proof fn signed_16_bit_reads_take_two_bytes<R: ReadBytes>(res: MediaResult<i16>)
    ensures
        forall|r: &mut R| #[trigger]
            call_ensures(R::read_i16, (r,), res) ==> {
                &&& (*final(r)).stream().bytes == (*r).stream().bytes
                &&& match res {
                    Ok(v) => {
                        &&& (*r).stream().position + 2 <= (*r).stream().bytes.len()
                        &&& (*final(r)).stream().position == (*r).stream().position + 2
                        &&& forall|i: nat|
                            i < 2 ==> v as int / #[trigger] vstd::arithmetic::power::pow(256, i)
                                % 256 == (*r).stream().bytes[(*r).stream().position + i as int]
                    },
                    Err(err) => (*r).answers(ReadCall::DoubleBytes, Err(err), &*final(r)),
                }
            },
        forall|r: &mut R| #[trigger]
            call_ensures(R::read_be_i16, (r,), res) ==> {
                &&& (*final(r)).stream().bytes == (*r).stream().bytes
                &&& match res {
                    Ok(v) => {
                        &&& (*r).stream().position + 2 <= (*r).stream().bytes.len()
                        &&& (*final(r)).stream().position == (*r).stream().position + 2
                        &&& forall|i: nat|
                            i < 2 ==> v as int / #[trigger] vstd::arithmetic::power::pow(256, i)
                                % 256 == (*r).stream().bytes[(*r).stream().position + 1 - i]
                    },
                    Err(err) => (*r).answers(ReadCall::DoubleBytes, Err(err), &*final(r)),
                }
            },
{
    endian::radixes();
    endian::all_bytes_are_digits();
}

/// Reading an unsigned 24-bit integer takes the three bytes that follow as its digits, from the least
/// significant one on in little-endian order, from the most significant one on in big-endian order. It
/// fails only as the reader does.
pub proof fn unsigned_24_bit_reads_take_three_bytes<R: ReadBytes>(res: MediaResult<u32>)
    ensures
        forall|r: &mut R| #[trigger]
            call_ensures(R::read_u24, (r,), res) ==> {
                &&& (*final(r)).stream().bytes == (*r).stream().bytes
                &&& match res {
                    Ok(v) => {
                        &&& (*r).stream().position + 3 <= (*r).stream().bytes.len()
                        &&& (*final(r)).stream().position == (*r).stream().position + 3
                        &&& v < 0x100_0000
                        &&& forall|i: nat|
                            i < 3 ==> v as int / #[trigger] vstd::arithmetic::power::pow(256, i)
                                % 256 == (*r).stream().bytes[(*r).stream().position + i as int]
                    },
                    Err(err) => (*r).answers(ReadCall::TripleBytes, Err(err), &*final(r)),
                }
            },
        forall|r: &mut R| #[trigger]
            call_ensures(R::read_be_u24, (r,), res) ==> {
                &&& (*final(r)).stream().bytes == (*r).stream().bytes
                &&& match res {
                    Ok(v) => {
                        &&& (*r).stream().position + 3 <= (*r).stream().bytes.len()
                        &&& (*final(r)).stream().position == (*r).stream().position + 3
                        &&& v < 0x100_0000
                        &&& forall|i: nat|
                            i < 3 ==> v as int / #[trigger] vstd::arithmetic::power::pow(256, i)
                                % 256 == (*r).stream().bytes[(*r).stream().position + 2 - i]
                    },
                    Err(err) => (*r).answers(ReadCall::TripleBytes, Err(err), &*final(r)),
                }
            },
{
    endian::radixes();
    endian::all_bytes_are_digits();
}

/// Reading a signed 24-bit integer takes the three bytes that follow as its digits, from the least
/// significant one on in little-endian order, from the most significant one on in big-endian order. It
/// fails only as the reader does.
pub proof fn signed_24_bit_reads_take_three_bytes<R: ReadBytes>(res: MediaResult<i32>)
    ensures
        forall|r: &mut R| #[trigger]
            call_ensures(R::read_i24, (r,), res) ==> {
                &&& (*final(r)).stream().bytes == (*r).stream().bytes
                &&& match res {
                    Ok(v) => {
                        &&& (*r).stream().position + 3 <= (*r).stream().bytes.len()
                        &&& (*final(r)).stream().position == (*r).stream().position + 3
                        &&& -0x80_0000 <= v < 0x80_0000
                        &&& forall|i: nat|
                            i < 3 ==> v as int / #[trigger] vstd::arithmetic::power::pow(256, i)
                                % 256 == (*r).stream().bytes[(*r).stream().position + i as int]
                    },
                    Err(err) => (*r).answers(ReadCall::TripleBytes, Err(err), &*final(r)),
                }
            },
        forall|r: &mut R| #[trigger]
            call_ensures(R::read_be_i24, (r,), res) ==> {
                &&& (*final(r)).stream().bytes == (*r).stream().bytes
                &&& match res {
                    Ok(v) => {
                        &&& (*r).stream().position + 3 <= (*r).stream().bytes.len()
                        &&& (*final(r)).stream().position == (*r).stream().position + 3
                        &&& -0x80_0000 <= v < 0x80_0000
                        &&& forall|i: nat|
                            i < 3 ==> v as int / #[trigger] vstd::arithmetic::power::pow(256, i)
                                % 256 == (*r).stream().bytes[(*r).stream().position + 2 - i]
                    },
                    Err(err) => (*r).answers(ReadCall::TripleBytes, Err(err), &*final(r)),
                }
            },
{
    endian::radixes();
    endian::all_bytes_are_digits();
}

/// Reading an unsigned 32-bit integer takes the four bytes that follow as its digits, from the least
/// significant one on in little-endian order, from the most significant one on in big-endian order. It
/// fails only as the reader does.
pub proof fn unsigned_32_bit_reads_take_four_bytes<R: ReadBytes>(res: MediaResult<u32>)
    ensures
        forall|r: &mut R| #[trigger]
            call_ensures(R::read_u32, (r,), res) ==> {
                &&& (*final(r)).stream().bytes == (*r).stream().bytes
                &&& match res {
                    Ok(v) => {
                        &&& (*r).stream().position + 4 <= (*r).stream().bytes.len()
                        &&& (*final(r)).stream().position == (*r).stream().position + 4
                        &&& forall|i: nat|
                            i < 4 ==> v as int / #[trigger] vstd::arithmetic::power::pow(256, i)
                                % 256 == (*r).stream().bytes[(*r).stream().position + i as int]
                    },
                    Err(err) => (*r).answers(ReadCall::QuadBytes, Err(err), &*final(r)),
                }
            },
        forall|r: &mut R| #[trigger]
            call_ensures(R::read_be_u32, (r,), res) ==> {
                &&& (*final(r)).stream().bytes == (*r).stream().bytes
                &&& match res {
                    Ok(v) => {
                        &&& (*r).stream().position + 4 <= (*r).stream().bytes.len()
                        &&& (*final(r)).stream().position == (*r).stream().position + 4
                        &&& forall|i: nat|
                            i < 4 ==> v as int / #[trigger] vstd::arithmetic::power::pow(256, i)
                                % 256 == (*r).stream().bytes[(*r).stream().position + 3 - i]
                    },
                    Err(err) => (*r).answers(ReadCall::QuadBytes, Err(err), &*final(r)),
                }
            },
{
    endian::radixes();
    endian::all_bytes_are_digits();
}

/// Reading a signed 32-bit integer takes the four bytes that follow as its digits, from the least
/// significant one on in little-endian order, from the most significant one on in big-endian order. It
/// fails only as the reader does.
pub proof fn signed_32_bit_reads_take_four_bytes<R: ReadBytes>(res: MediaResult<i32>)
    ensures
        forall|r: &mut R| #[trigger]
            call_ensures(R::read_i32, (r,), res) ==> {
                &&& (*final(r)).stream().bytes == (*r).stream().bytes
                &&& match res {
                    Ok(v) => {
                        &&& (*r).stream().position + 4 <= (*r).stream().bytes.len()
                        &&& (*final(r)).stream().position == (*r).stream().position + 4
                        &&& forall|i: nat|
                            i < 4 ==> v as int / #[trigger] vstd::arithmetic::power::pow(256, i)
                                % 256 == (*r).stream().bytes[(*r).stream().position + i as int]
                    },
                    Err(err) => (*r).answers(ReadCall::QuadBytes, Err(err), &*final(r)),
                }
            },
        forall|r: &mut R| #[trigger]
            call_ensures(R::read_be_i32, (r,), res) ==> {
                &&& (*final(r)).stream().bytes == (*r).stream().bytes
                &&& match res {
                    Ok(v) => {
                        &&& (*r).stream().position + 4 <= (*r).stream().bytes.len()
                        &&& (*final(r)).stream().position == (*r).stream().position + 4
                        &&& forall|i: nat|
                            i < 4 ==> v as int / #[trigger] vstd::arithmetic::power::pow(256, i)
                                % 256 == (*r).stream().bytes[(*r).stream().position + 3 - i]
                    },
                    Err(err) => (*r).answers(ReadCall::QuadBytes, Err(err), &*final(r)),
                }
            },
{
    endian::radixes();
    endian::all_bytes_are_digits();
}

/// Reading an unsigned 64-bit integer takes the eight bytes that follow as its digits, from the least
/// significant one on in little-endian order, from the most significant one on in big-endian order. It
/// fails only as the reader does.
pub proof fn unsigned_64_bit_reads_take_eight_bytes<R: ReadBytes>(res: MediaResult<u64>)
    ensures
        forall|r: &mut R| #[trigger]
            call_ensures(R::read_u64, (r,), res) ==> {
                &&& (*final(r)).stream().bytes == (*r).stream().bytes
                &&& match res {
                    Ok(v) => {
                        &&& (*r).stream().position + 8 <= (*r).stream().bytes.len()
                        &&& (*final(r)).stream().position == (*r).stream().position + 8
                        &&& forall|i: nat|
                            i < 8 ==> v as int / #[trigger] vstd::arithmetic::power::pow(256, i)
                                % 256 == (*r).stream().bytes[(*r).stream().position + i as int]
                    },
                    Err(err) => exists|before: Seq<u8>|
                        before.len() == 8 && #[trigger] (*r).answers(
                            ReadCall::BufExact(before),
                            Err(err),
                            &*final(r),
                        ),
                }
            },
        forall|r: &mut R| #[trigger]
            call_ensures(R::read_be_u64, (r,), res) ==> {
                &&& (*final(r)).stream().bytes == (*r).stream().bytes
                &&& match res {
                    Ok(v) => {
                        &&& (*r).stream().position + 8 <= (*r).stream().bytes.len()
                        &&& (*final(r)).stream().position == (*r).stream().position + 8
                        &&& forall|i: nat|
                            i < 8 ==> v as int / #[trigger] vstd::arithmetic::power::pow(256, i)
                                % 256 == (*r).stream().bytes[(*r).stream().position + 7 - i]
                    },
                    Err(err) => exists|before: Seq<u8>|
                        before.len() == 8 && #[trigger] (*r).answers(
                            ReadCall::BufExact(before),
                            Err(err),
                            &*final(r),
                        ),
                }
            },
{
    endian::radixes();
    endian::all_bytes_are_digits();
}

/// Reading a signed 64-bit integer takes the eight bytes that follow as its digits, from the least
/// significant one on in little-endian order, from the most significant one on in big-endian order. It
/// fails only as the reader does.
pub proof fn signed_64_bit_reads_take_eight_bytes<R: ReadBytes>(res: MediaResult<i64>)
    ensures
        forall|r: &mut R| #[trigger]
            call_ensures(R::read_i64, (r,), res) ==> {
                &&& (*final(r)).stream().bytes == (*r).stream().bytes
                &&& match res {
                    Ok(v) => {
                        &&& (*r).stream().position + 8 <= (*r).stream().bytes.len()
                        &&& (*final(r)).stream().position == (*r).stream().position + 8
                        &&& forall|i: nat|
                            i < 8 ==> v as int / #[trigger] vstd::arithmetic::power::pow(256, i)
                                % 256 == (*r).stream().bytes[(*r).stream().position + i as int]
                    },
                    Err(err) => exists|before: Seq<u8>|
                        before.len() == 8 && #[trigger] (*r).answers(
                            ReadCall::BufExact(before),
                            Err(err),
                            &*final(r),
                        ),
                }
            },
        forall|r: &mut R| #[trigger]
            call_ensures(R::read_be_i64, (r,), res) ==> {
                &&& (*final(r)).stream().bytes == (*r).stream().bytes
                &&& match res {
                    Ok(v) => {
                        &&& (*r).stream().position + 8 <= (*r).stream().bytes.len()
                        &&& (*final(r)).stream().position == (*r).stream().position + 8
                        &&& forall|i: nat|
                            i < 8 ==> v as int / #[trigger] vstd::arithmetic::power::pow(256, i)
                                % 256 == (*r).stream().bytes[(*r).stream().position + 7 - i]
                    },
                    Err(err) => exists|before: Seq<u8>|
                        before.len() == 8 && #[trigger] (*r).answers(
                            ReadCall::BufExact(before),
                            Err(err),
                            &*final(r),
                        ),
                }
            },
{
    endian::radixes();
    endian::all_bytes_are_digits();
}

/// A mutable reference to a reader reads as the reader does: it has the same stream, and each call is
/// answered with the same, and leaves the reader in the same state.
pub proof fn a_reference_reads_as_its_reader<R: ReadBytes>(call: ReadCall, reply: Reply)
    ensures
        forall|r: &mut R| (#[trigger] <&mut R as ReadBytes>::stream(&r)) == (*r).stream(),
        forall|r: &mut R, post: &mut R| #[trigger]
            <&mut R as ReadBytes>::answers(&r, call, reply, &post) <==> (*r).answers(
                call,
                reply,
                &*post,
            ),
{
}

/// Each call of a mutable reference to a reader is that call of the reader, and no other.
pub proof fn a_reference_passes_its_calls_on<R: ReadBytes>(
    byte: MediaResult<u8>,
    double: MediaResult<[u8; 2]>,
    triple: MediaResult<[u8; 3]>,
    quad: MediaResult<[u8; 4]>,
    read: MediaResult<usize>,
    done: MediaResult<()>,
    count: u64,
    pos: u64,
    err: MediaError,
)
    ensures
        forall|r: &mut &mut R| #[trigger]
            call_ensures(<&mut R as ReadBytes>::read_byte, (r,), byte) ==> (**r).answers(
                ReadCall::Byte,
                stream::reply(byte, (**r).stream().next(1)),
                &**final(r),
            ) && (byte matches Ok(b) ==> b == (**r).stream().bytes[(**r).stream().position as int]),
        forall|r: &mut &mut R| #[trigger]
            call_ensures(<&mut R as ReadBytes>::read_double_bytes, (r,), double) ==> (**r).answers(
                ReadCall::DoubleBytes,
                stream::reply(double, (**r).stream().next(2)),
                &**final(r),
            ) && (double matches Ok(b) ==> b@ == (**r).stream().next(2)),
        forall|r: &mut &mut R| #[trigger]
            call_ensures(<&mut R as ReadBytes>::read_triple_bytes, (r,), triple) ==> (**r).answers(
                ReadCall::TripleBytes,
                stream::reply(triple, (**r).stream().next(3)),
                &**final(r),
            ) && (triple matches Ok(b) ==> b@ == (**r).stream().next(3)),
        forall|r: &mut &mut R| #[trigger]
            call_ensures(<&mut R as ReadBytes>::read_quad_bytes, (r,), quad) ==> (**r).answers(
                ReadCall::QuadBytes,
                stream::reply(quad, (**r).stream().next(4)),
                &**final(r),
            ) && (quad matches Ok(b) ==> b@ == (**r).stream().next(4)),
        forall|r: &mut &mut R, buf: &mut [u8]| #[trigger]
            call_ensures(<&mut R as ReadBytes>::read_buf, (r, buf), read) ==> (**r).answers(
                ReadCall::Buf(buf@),
                stream::reply(read, (**r).stream().next(read->Ok_0 as nat)),
                &**final(r),
            ) && (read matches Ok(n) ==> n <= buf@.len() && final(buf)@.take(n as int) == (
            **r).stream().next(n as nat)),
        forall|r: &mut &mut R, buf: &mut [u8]| #[trigger]
            call_ensures(<&mut R as ReadBytes>::read_buf_exact, (r, buf), done) ==> (**r).answers(
                ReadCall::BufExact(buf@),
                stream::reply(done, (**r).stream().next(buf@.len())),
                &**final(r),
            ) && (done is Ok ==> final(buf)@ == (**r).stream().next(buf@.len())),
        forall|r: &mut &mut R| #[trigger]
            call_ensures(<&mut R as ReadBytes>::ignore_bytes, (r, count), done) ==> (**r).answers(
                ReadCall::Ignore(count),
                stream::reply(done, (**r).stream().next(count as nat)),
                &**final(r),
            ) && (done is Ok ==> (**final(r)).stream().position == (**r).stream().position + count),
        forall|r: &&mut R| #[trigger]
            call_ensures(<&mut R as ReadBytes>::pos, (r,), pos) ==> pos == (**r).stream().position,
        forall|r: &mut &mut R, pattern: &[u8], align: usize, buf: &mut [u8]| #[trigger]
            call_ensures(
                <&mut R as ReadBytes>::scan_bytes_aligned,
                (r, pattern, align, buf),
                Err(err),
            ) ==> (**r).answers(ReadCall::Scan(pattern@, align, buf@), Err(err), &**final(r)),
{
}

/// A scan is a scan that is aligned to single bytes: what it finds is what follows, it passes no match
/// at any offset, and it ends with the pattern unless the buffer is full or the stream ends.
pub proof fn scans_look_at_every_offset<R: ReadBytes>(err: MediaError, i: int)
    ensures
        forall|r: &mut R, pattern: &[u8], buf: &mut [u8]| #[trigger]
            call_ensures(R::scan_bytes, (r, pattern, buf), Err(err)) ==> (*r).answers(
                ReadCall::Scan(pattern@, 1, buf@),
                Err(err),
                &*final(r),
            ),
        forall|r: &mut R, pattern: &[u8], buf: &mut [u8], found: &mut [u8]| #[trigger]
            call_ensures(R::scan_bytes, (r, pattern, buf), Ok(found)) ==> {
                &&& found@.len() <= buf@.len()
                &&& found@ == (*r).stream().next(found@.len())
                &&& (*final(r)).stream().position == (*r).stream().position + found@.len()
                &&& (*r).answers(
                    ReadCall::Scan(pattern@, 1, buf@),
                    Ok((*r).stream().next(found@.len())),
                    &*final(r),
                )
                &&& 0 <= i && i + pattern@.len() < found@.len() ==> found@.subrange(
                    i,
                    i + pattern@.len(),
                ) != pattern@
                &&& {
                    ||| found@.len() == buf@.len()
                    ||| found@.len() == (*r).stream().remaining()
                    ||| found@.len() >= pattern@.len() && found@.subrange(
                        found@.len() - pattern@.len(),
                        found@.len() as int,
                    ) == pattern@
                }
            },
{
    assert forall|r: &mut R, pattern: &[u8], buf: &mut [u8], found: &mut [u8]| #[trigger]
        call_ensures(R::scan_bytes, (r, pattern, buf), Ok(found)) implies (0 <= i && i
        + pattern@.len() < found@.len() ==> found@.subrange(i, i + pattern@.len()) != pattern@) && (
    found@.len() == buf@.len() || found@.len() == (*r).stream().remaining() || found@.len()
        >= pattern@.len() && found@.subrange(
        found@.len() - pattern@.len(),
        found@.len() as int,
    ) == pattern@) by {
        assert(stream::is_aligned(i, 1));
        assert(0 <= i && i + pattern@.len() < found@.len() ==> !stream::occurs_at(
            found@,
            pattern@,
            i,
        ));
        let last = found@.len() - pattern@.len();
        assert(last + pattern@.len() == found@.len());
    }
}

} // verus!

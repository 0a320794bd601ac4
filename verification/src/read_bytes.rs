//! Readers and streams of bytes.

use crate::chunk;
use crate::chunk::{
    into_boxed_bytes, try_reserve_bytes, ABS_MAX_READ_LEN, INIT_MAX_READ_LEN,
};
use crate::endian;
use crate::error::{MediaErrorKind, MediaResult};
use crate::stream;
use crate::stream::{Reply, StreamView};
use vstd::prelude::*;

verus! {

/// A call of one of the methods of [`ReadBytes`] that reach the stream itself.
pub enum ReadCall {
    /// `read_byte`.
    Byte,
    /// `read_double_bytes`.
    DoubleBytes,
    /// `read_triple_bytes`.
    TripleBytes,
    /// `read_quad_bytes`.
    QuadBytes,
    /// `read_buf` with a buffer that holds the given bytes.
    Buf(Seq<u8>),
    /// `read_buf_exact` with a buffer that holds the given bytes.
    BufExact(Seq<u8>),
    /// `scan_bytes_aligned` for a pattern, with an alignment and a buffer that holds the given bytes.
    Scan(Seq<u8>, usize, Seq<u8>),
    /// `ignore_bytes` with the given count.
    Ignore(u64),
}

impl ReadCall {
    /// The call that reads chunk `i` of `len` bytes, into a buffer that is as long as the chunk and
    /// all zero.
    pub open spec fn of_chunk(len: nat, i: nat, exact: bool) -> ReadCall {
        if exact {
            ReadCall::BufExact(stream::zeros(chunk::size(len, i)))
        } else {
            ReadCall::Buf(stream::zeros(chunk::size(len, i)))
        }
    }
}

/// Whether a reader that started in the state `states[0]` read whole chunks of `len` bytes, where
/// `states[k]` is the state before chunk `k`, and `posts[k]` the one after it. `stream` and `answers`
/// are those of the reader.
///
/// For each chunk, room for exactly that chunk is reserved, and the chunk is then read into that room,
/// initialized to 0.
pub open spec fn whole_chunks<'a, S: ?Sized>(
    states: Seq<&'a S>,
    posts: Seq<&'a S>,
    stream: spec_fn(&'a S) -> StreamView,
    answers: spec_fn(&'a S, ReadCall, Reply, &'a S) -> bool,
    len: nat,
    exact: bool,
) -> bool {
    &&& states.len() == posts.len() + 1
    &&& forall|k: int| 0 < k < states.len() ==> #[trigger] states[k] == posts[k - 1]
    &&& forall|k: int|
        0 <= k < states.len() ==> stream(#[trigger] states[k]) == stream(states[0]).advance(
            chunk::start(len, k as nat),
        )
    &&& forall|k: int|
        0 <= k < posts.len() ==> answers(
            #[trigger] states[k],
            ReadCall::of_chunk(len, k as nat, exact),
            Ok(stream(states[k]).next(chunk::size(len, k as nat))),
            posts[k],
        )
    &&& forall|k: nat|
        k < posts.len() ==> #[trigger] chunk::start(len, k) < len && chunk::reserve_answers(
            chunk::start(len, k),
            chunk::size(len, k),
            true,
        )
}

/// Whether a read of `len` bytes that answered `res` and took a reader from the state `pre` to the
/// state `post` went chunk by chunk, through the states that [`whole_chunks`] speaks of. `stream` and
/// `answers` are those of the reader.
///
/// Each chunk but the last one is read whole. The last one ends the read where it comes up short or
/// fails, or where room for it cannot be reserved.
pub open spec fn in_chunks_through<'a, S: ?Sized>(
    states: Seq<&'a S>,
    posts: Seq<&'a S>,
    pre: &'a S,
    post: &'a S,
    stream: spec_fn(&'a S) -> StreamView,
    answers: spec_fn(&'a S, ReadCall, Reply, &'a S) -> bool,
    len: nat,
    exact: bool,
    res: MediaResult<Box<[u8]>>,
) -> bool {
    // The number of bytes in whole chunks, and the length of the chunk after them.
    let got = chunk::start(len, posts.len());
    let size = chunk::size(len, posts.len());
    &&& whole_chunks(states, posts, stream, answers, len, exact)
    &&& states[0] == pre
    &&& {
        ||| {
            &&& got == len
            &&& res is Ok
            &&& res->Ok_0@.len() == len
            &&& states.last() == post
        }
        ||| {
            &&& got < len
            &&& chunk::reserve_answers(got, size, false)
            &&& res is Err
            &&& res->Err_0.is_plain(
                MediaErrorKind::Message("failed to allocate read buffer"),
            )
            &&& states.last() == post
        }
        ||| {
            &&& got < len
            &&& chunk::reserve_answers(got, size, true)
            &&& exists|last: Reply|
                {
                    &&& #[trigger] answers(
                        states.last(),
                        ReadCall::of_chunk(len, posts.len(), exact),
                        last,
                        post,
                    )
                    &&& match last {
                        Ok(data) => {
                            &&& data.len() < size
                            &&& data == stream(states.last()).next(data.len())
                            &&& res is Ok
                            &&& res->Ok_0@.len() == got + data.len()
                        },
                        Err(err) => res is Err && res->Err_0 == err,
                    }
                }
        }
    }
}

/// Whether a read went chunk by chunk, as [`in_chunks_through`] says, through whatever states.
pub open spec fn in_chunks<'a, S: ?Sized>(
    pre: &'a S,
    post: &'a S,
    stream: spec_fn(&'a S) -> StreamView,
    answers: spec_fn(&'a S, ReadCall, Reply, &'a S) -> bool,
    len: nat,
    exact: bool,
    res: MediaResult<Box<[u8]>>,
) -> bool {
    exists|states: Seq<&'a S>, posts: Seq<&'a S>| #[trigger]
        in_chunks_through(states, posts, pre, post, stream, answers, len, exact, res)
}

/// [`whole_chunks`], kept folded while the chunks are read.
#[verifier::opaque]
spec fn chunks_so_far<'a, S: ?Sized>(
    states: Seq<&'a S>,
    posts: Seq<&'a S>,
    stream: spec_fn(&'a S) -> StreamView,
    answers: spec_fn(&'a S, ReadCall, Reply, &'a S) -> bool,
    len: nat,
    exact: bool,
) -> bool {
    whole_chunks(states, posts, stream, answers, len, exact)
}

/// Before the first chunk, no chunks were read.
proof fn no_chunks<'a, S: ?Sized>(
    pre: &'a S,
    stream: spec_fn(&'a S) -> StreamView,
    answers: spec_fn(&'a S, ReadCall, Reply, &'a S) -> bool,
    len: nat,
    exact: bool,
)
    ensures
        chunks_so_far(seq![pre], Seq::empty(), stream, answers, len, exact),
{
    reveal(chunks_so_far);
}

/// A chunk that is read whole adds to the whole chunks.
proof fn one_more_chunk<'a, S: ?Sized>(
    states: Seq<&'a S>,
    posts: Seq<&'a S>,
    post: &'a S,
    stream: spec_fn(&'a S) -> StreamView,
    answers: spec_fn(&'a S, ReadCall, Reply, &'a S) -> bool,
    len: nat,
    exact: bool,
)
    requires
        chunks_so_far(states, posts, stream, answers, len, exact),
        states.len() == posts.len() + 1,
        chunk::start(len, posts.len()) < len,
        chunk::reserve_answers(
            chunk::start(len, posts.len()),
            chunk::size(len, posts.len()),
            true,
        ),
        answers(
            states.last(),
            ReadCall::of_chunk(len, posts.len(), exact),
            Ok(stream(states.last()).next(chunk::size(len, posts.len()))),
            post,
        ),
        stream(post) == stream(states[0]).advance(chunk::start(len, posts.len() + 1)),
    ensures
        chunks_so_far(states.push(post), posts.push(post), stream, answers, len, exact),
{
    reveal(chunks_so_far);
    let (all_states, all_posts) = (states.push(post), posts.push(post));
    assert forall|k: int| 0 < k < all_states.len() implies #[trigger] all_states[k] == all_posts[k
        - 1] by {
        if k < states.len() {
            assert(states[k] == posts[k - 1]);
        }
    }
    assert forall|k: int| 0 <= k < all_states.len() implies stream(#[trigger] all_states[k])
        == stream(all_states[0]).advance(chunk::start(len, k as nat)) by {
        if k < states.len() {
            assert(all_states[k] == states[k]);
        }
    }
    assert forall|k: int| 0 <= k < all_posts.len() implies answers(
        #[trigger] all_states[k],
        ReadCall::of_chunk(len, k as nat, exact),
        Ok(stream(all_states[k]).next(chunk::size(len, k as nat))),
        all_posts[k],
    ) by {
        assert(all_states[k] == states[k]);
        if k < posts.len() {
            assert(all_posts[k] == posts[k]);
        }
    }
}

/// `ReadBytes` provides methods to read bytes and interpret them as little- or big-endian
/// integers of standard widths.
///
/// An implementation says what it reads in `stream` and `answers`. One that leaves them out can be
/// compiled, but does not meet the contracts, and nothing that is proved through this trait holds of
/// it.
pub trait ReadBytes {
    /// The bytes of the stream, and the position up to which they were read.
    open spec fn stream(&self) -> StreamView {
        arbitrary()
    }

    /// Whether `call`, made in this state, may be answered with `reply` and leave the state `post`.
    open spec fn answers(&self, call: ReadCall, reply: Reply, post: &Self) -> bool {
        true
    }

    /// Reads a single byte from the stream and returns it or an error.
    fn read_byte(&mut self) -> (res: MediaResult<u8>)
        ensures
            old(self).stream().took(1, res, final(self).stream()),
            res matches Ok(b) ==> b == old(self).stream().next(1)[0],
            old(self).answers(
                ReadCall::Byte,
                stream::reply(res, old(self).stream().next(1)),
                &*final(self),
            ),
    ;

    /// Reads two bytes from the stream and returns them in read-order or an error.
    fn read_double_bytes(&mut self) -> (res: MediaResult<[u8; 2]>)
        ensures
            old(self).stream().took(2, res, final(self).stream()),
            res matches Ok(b) ==> b@ == old(self).stream().next(2),
            old(self).answers(
                ReadCall::DoubleBytes,
                stream::reply(res, old(self).stream().next(2)),
                &*final(self),
            ),
    ;

    /// Reads three bytes from the stream and returns them in read-order or an error.
    fn read_triple_bytes(&mut self) -> (res: MediaResult<[u8; 3]>)
        ensures
            old(self).stream().took(3, res, final(self).stream()),
            res matches Ok(b) ==> b@ == old(self).stream().next(3),
            old(self).answers(
                ReadCall::TripleBytes,
                stream::reply(res, old(self).stream().next(3)),
                &*final(self),
            ),
    ;

    /// Reads four bytes from the stream and returns them in read-order or an error.
    fn read_quad_bytes(&mut self) -> (res: MediaResult<[u8; 4]>)
        ensures
            old(self).stream().took(4, res, final(self).stream()),
            res matches Ok(b) ==> b@ == old(self).stream().next(4),
            old(self).answers(
                ReadCall::QuadBytes,
                stream::reply(res, old(self).stream().next(4)),
                &*final(self),
            ),
    ;

    /// Reads up-to the number of bytes required to fill buf or returns an error.
    fn read_buf(&mut self, buf: &mut [u8]) -> (res: MediaResult<usize>)
        ensures
            final(buf)@.len() == old(buf)@.len(),
            final(self).stream().bytes == old(self).stream().bytes,
            res matches Ok(n) ==> {
                &&& n <= old(buf)@.len()
                &&& old(self).stream().took(n as nat, res, final(self).stream())
                &&& final(buf)@.take(n as int) == old(self).stream().next(n as nat)
            },
            old(self).answers(
                ReadCall::Buf(old(buf)@),
                stream::reply(res, old(self).stream().next(res->Ok_0 as nat)),
                &*final(self),
            ),
    ;

    /// Reads exactly the number of bytes required to fill the provided buffer or returns an error.
    fn read_buf_exact(&mut self, buf: &mut [u8]) -> (res: MediaResult<()>)
        ensures
            final(buf)@.len() == old(buf)@.len(),
            old(self).stream().took(old(buf)@.len(), res, final(self).stream()),
            res is Ok ==> final(buf)@ == old(self).stream().next(old(buf)@.len()),
            old(self).answers(
                ReadCall::BufExact(old(buf)@),
                stream::reply(res, old(self).stream().next(old(buf)@.len())),
                &*final(self),
            ),
    ;

    /// Reads a single unsigned byte from the stream and returns it or an error.
    fn read_u8(&mut self) -> (res: MediaResult<u8>)
        ensures
            old(self).stream().took(1, res, final(self).stream()),
            res matches Ok(v) ==> v == old(self).stream().next(1)[0],
            old(self).answers(
                ReadCall::Byte,
                stream::reply(res, old(self).stream().next(1)),
                &*final(self),
            ),
    {
        self.read_byte()
    }

    /// Reads a single signed byte from the stream and returns it or an error.
    fn read_i8(&mut self) -> (res: MediaResult<i8>)
        ensures
            old(self).stream().took(1, res, final(self).stream()),
            res matches Ok(v) ==> v == endian::signed(old(self).stream().next(1)[0] as nat, 1),
            old(self).answers(
                ReadCall::Byte,
                stream::reply(res, old(self).stream().next(1)),
                &*final(self),
            ),
    {
        match self.read_byte() {
            Ok(b) => Ok(endian::to_i8(b)),
            Err(err) => Err(err),
        }
    }

    /// Reads two bytes from the stream and interprets them as an unsigned 16-bit little-endian
    /// integer or returns an error.
    fn read_u16(&mut self) -> (res: MediaResult<u16>)
        ensures
            old(self).stream().took(2, res, final(self).stream()),
            res matches Ok(v) ==> v == endian::le_value(old(self).stream().next(2)),
            old(self).answers(
                ReadCall::DoubleBytes,
                stream::reply(res, old(self).stream().next(2)),
                &*final(self),
            ),
    {
        match self.read_double_bytes() {
            Ok(b) => Ok(endian::u16_from_le(b)),
            Err(err) => Err(err),
        }
    }

    /// Reads two bytes from the stream and interprets them as a signed 16-bit little-endian
    /// integer or returns an error.
    fn read_i16(&mut self) -> (res: MediaResult<i16>)
        ensures
            old(self).stream().took(2, res, final(self).stream()),
            res matches Ok(v) ==> v == endian::signed(
                endian::le_value(old(self).stream().next(2)),
                2,
            ),
            old(self).answers(
                ReadCall::DoubleBytes,
                stream::reply(res, old(self).stream().next(2)),
                &*final(self),
            ),
    {
        match self.read_double_bytes() {
            Ok(b) => Ok(endian::to_i16(endian::u16_from_le(b))),
            Err(err) => Err(err),
        }
    }

    /// Reads two bytes from the stream and interprets them as an unsigned 16-bit big-endian
    /// integer or returns an error.
    fn read_be_u16(&mut self) -> (res: MediaResult<u16>)
        ensures
            old(self).stream().took(2, res, final(self).stream()),
            res matches Ok(v) ==> v == endian::be_value(old(self).stream().next(2)),
            old(self).answers(
                ReadCall::DoubleBytes,
                stream::reply(res, old(self).stream().next(2)),
                &*final(self),
            ),
    {
        match self.read_double_bytes() {
            Ok(b) => Ok(endian::u16_from_be(b)),
            Err(err) => Err(err),
        }
    }

    /// Reads two bytes from the stream and interprets them as a signed 16-bit big-endian
    /// integer or returns an error.
    fn read_be_i16(&mut self) -> (res: MediaResult<i16>)
        ensures
            old(self).stream().took(2, res, final(self).stream()),
            res matches Ok(v) ==> v == endian::signed(
                endian::be_value(old(self).stream().next(2)),
                2,
            ),
            old(self).answers(
                ReadCall::DoubleBytes,
                stream::reply(res, old(self).stream().next(2)),
                &*final(self),
            ),
    {
        match self.read_double_bytes() {
            Ok(b) => Ok(endian::to_i16(endian::u16_from_be(b))),
            Err(err) => Err(err),
        }
    }

    /// Reads three bytes from the stream and interprets them as an unsigned 24-bit little-endian
    /// integer or returns an error.
    fn read_u24(&mut self) -> (res: MediaResult<u32>)
        ensures
            old(self).stream().took(3, res, final(self).stream()),
            res matches Ok(v) ==> v == endian::le_value(old(self).stream().next(3)),
            old(self).answers(
                ReadCall::TripleBytes,
                stream::reply(res, old(self).stream().next(3)),
                &*final(self),
            ),
    {
        match self.read_triple_bytes() {
            Ok(b) => Ok(endian::u24_from_le(b)),
            Err(err) => Err(err),
        }
    }

    /// Reads three bytes from the stream and interprets them as a signed 24-bit little-endian
    /// integer or returns an error.
    fn read_i24(&mut self) -> (res: MediaResult<i32>)
        ensures
            old(self).stream().took(3, res, final(self).stream()),
            res matches Ok(v) ==> v == endian::signed(
                endian::le_value(old(self).stream().next(3)),
                3,
            ),
            old(self).answers(
                ReadCall::TripleBytes,
                stream::reply(res, old(self).stream().next(3)),
                &*final(self),
            ),
    {
        let raw = self.read_u24();
        proof {
            endian::value_is_below_radix(old(self).stream().next(3));
            endian::radixes();
        }
        match raw {
            Ok(v) => Ok(endian::to_i24(v)),
            Err(err) => Err(err),
        }
    }

    /// Reads three bytes from the stream and interprets them as an unsigned 24-bit big-endian
    /// integer or returns an error.
    fn read_be_u24(&mut self) -> (res: MediaResult<u32>)
        ensures
            old(self).stream().took(3, res, final(self).stream()),
            res matches Ok(v) ==> v == endian::be_value(old(self).stream().next(3)),
            old(self).answers(
                ReadCall::TripleBytes,
                stream::reply(res, old(self).stream().next(3)),
                &*final(self),
            ),
    {
        match self.read_triple_bytes() {
            Ok(b) => Ok(endian::u24_from_be(b)),
            Err(err) => Err(err),
        }
    }

    /// Reads three bytes from the stream and interprets them as a signed 24-bit big-endian
    /// integer or returns an error.
    fn read_be_i24(&mut self) -> (res: MediaResult<i32>)
        ensures
            old(self).stream().took(3, res, final(self).stream()),
            res matches Ok(v) ==> v == endian::signed(
                endian::be_value(old(self).stream().next(3)),
                3,
            ),
            old(self).answers(
                ReadCall::TripleBytes,
                stream::reply(res, old(self).stream().next(3)),
                &*final(self),
            ),
    {
        let raw = self.read_be_u24();
        proof {
            endian::value_is_below_radix(old(self).stream().next(3));
            endian::radixes();
        }
        match raw {
            Ok(v) => Ok(endian::to_i24(v)),
            Err(err) => Err(err),
        }
    }

    /// Reads four bytes from the stream and interprets them as an unsigned 32-bit little-endian
    /// integer or returns an error.
    fn read_u32(&mut self) -> (res: MediaResult<u32>)
        ensures
            old(self).stream().took(4, res, final(self).stream()),
            res matches Ok(v) ==> v == endian::le_value(old(self).stream().next(4)),
            old(self).answers(
                ReadCall::QuadBytes,
                stream::reply(res, old(self).stream().next(4)),
                &*final(self),
            ),
    {
        match self.read_quad_bytes() {
            Ok(b) => Ok(endian::u32_from_le(b)),
            Err(err) => Err(err),
        }
    }

    /// Reads four bytes from the stream and interprets them as a signed 32-bit little-endian
    /// integer or returns an error.
    fn read_i32(&mut self) -> (res: MediaResult<i32>)
        ensures
            old(self).stream().took(4, res, final(self).stream()),
            res matches Ok(v) ==> v == endian::signed(
                endian::le_value(old(self).stream().next(4)),
                4,
            ),
            old(self).answers(
                ReadCall::QuadBytes,
                stream::reply(res, old(self).stream().next(4)),
                &*final(self),
            ),
    {
        match self.read_quad_bytes() {
            Ok(b) => Ok(endian::to_i32(endian::u32_from_le(b))),
            Err(err) => Err(err),
        }
    }

    /// Reads four bytes from the stream and interprets them as an unsigned 32-bit big-endian
    /// integer or returns an error.
    fn read_be_u32(&mut self) -> (res: MediaResult<u32>)
        ensures
            old(self).stream().took(4, res, final(self).stream()),
            res matches Ok(v) ==> v == endian::be_value(old(self).stream().next(4)),
            old(self).answers(
                ReadCall::QuadBytes,
                stream::reply(res, old(self).stream().next(4)),
                &*final(self),
            ),
    {
        match self.read_quad_bytes() {
            Ok(b) => Ok(endian::u32_from_be(b)),
            Err(err) => Err(err),
        }
    }

    /// Reads four bytes from the stream and interprets them as a signed 32-bit big-endian
    /// integer or returns an error.
    fn read_be_i32(&mut self) -> (res: MediaResult<i32>)
        ensures
            old(self).stream().took(4, res, final(self).stream()),
            res matches Ok(v) ==> v == endian::signed(
                endian::be_value(old(self).stream().next(4)),
                4,
            ),
            old(self).answers(
                ReadCall::QuadBytes,
                stream::reply(res, old(self).stream().next(4)),
                &*final(self),
            ),
    {
        match self.read_quad_bytes() {
            Ok(b) => Ok(endian::to_i32(endian::u32_from_be(b))),
            Err(err) => Err(err),
        }
    }

    /// Reads eight bytes from the stream and interprets them as an unsigned 64-bit little-endian
    /// integer or returns an error.
    fn read_u64(&mut self) -> (res: MediaResult<u64>)
        ensures
            old(self).stream().took(8, res, final(self).stream()),
            res matches Ok(v) ==> v == endian::le_value(old(self).stream().next(8)),
            old(self).answers(
                ReadCall::BufExact(stream::zeros(8)),
                stream::reply(res, old(self).stream().next(8)),
                &*final(self),
            ),
    {
        let mut buf: [u8; 8] = [0, 0, 0, 0, 0, 0, 0, 0];
        assert(buf@ =~= stream::zeros(8));
        match self.read_buf_exact(&mut buf) {
            Ok(()) => Ok(endian::u64_from_le(buf)),
            Err(err) => Err(err),
        }
    }

    /// Reads eight bytes from the stream and interprets them as a signed 64-bit little-endian
    /// integer or returns an error.
    fn read_i64(&mut self) -> (res: MediaResult<i64>)
        ensures
            old(self).stream().took(8, res, final(self).stream()),
            res matches Ok(v) ==> v == endian::signed(
                endian::le_value(old(self).stream().next(8)),
                8,
            ),
            old(self).answers(
                ReadCall::BufExact(stream::zeros(8)),
                stream::reply(res, old(self).stream().next(8)),
                &*final(self),
            ),
    {
        let mut buf: [u8; 8] = [0, 0, 0, 0, 0, 0, 0, 0];
        assert(buf@ =~= stream::zeros(8));
        match self.read_buf_exact(&mut buf) {
            Ok(()) => Ok(endian::to_i64(endian::u64_from_le(buf))),
            Err(err) => Err(err),
        }
    }

    /// Reads eight bytes from the stream and interprets them as an unsigned 64-bit big-endian
    /// integer or returns an error.
    fn read_be_u64(&mut self) -> (res: MediaResult<u64>)
        ensures
            old(self).stream().took(8, res, final(self).stream()),
            res matches Ok(v) ==> v == endian::be_value(old(self).stream().next(8)),
            old(self).answers(
                ReadCall::BufExact(stream::zeros(8)),
                stream::reply(res, old(self).stream().next(8)),
                &*final(self),
            ),
    {
        let mut buf: [u8; 8] = [0, 0, 0, 0, 0, 0, 0, 0];
        assert(buf@ =~= stream::zeros(8));
        match self.read_buf_exact(&mut buf) {
            Ok(()) => Ok(endian::u64_from_be(buf)),
            Err(err) => Err(err),
        }
    }

    /// Reads eight bytes from the stream and interprets them as a signed 64-bit big-endian
    /// integer or returns an error.
    fn read_be_i64(&mut self) -> (res: MediaResult<i64>)
        ensures
            old(self).stream().took(8, res, final(self).stream()),
            res matches Ok(v) ==> v == endian::signed(
                endian::be_value(old(self).stream().next(8)),
                8,
            ),
            old(self).answers(
                ReadCall::BufExact(stream::zeros(8)),
                stream::reply(res, old(self).stream().next(8)),
                &*final(self),
            ),
    {
        let mut buf: [u8; 8] = [0, 0, 0, 0, 0, 0, 0, 0];
        assert(buf@ =~= stream::zeros(8));
        match self.read_buf_exact(&mut buf) {
            Ok(()) => Ok(endian::to_i64(endian::u64_from_be(buf))),
            Err(err) => Err(err),
        }
    }

    /// Safely reads an untrusted amount of bytes into a boxed slice: exactly `len` bytes where
    /// `exact` is set, up-to `len` bytes otherwise.
    ///
    /// Avoids pre-allocating the entire requested read length to avoid out-of-memory panics by
    /// reading progressively larger chunks.
    #[verifier::rlimit(60)]
    fn safe_read_into_boxed_slice(&mut self, len: usize, exact: bool) -> (res: MediaResult<
        Box<[u8]>,
    >)
        ensures
            final(self).stream().bytes == old(self).stream().bytes,
            res matches Ok(boxed) ==> {
                &&& boxed@.len() <= len
                &&& exact ==> boxed@.len() == len
                &&& old(self).stream().took(boxed@.len(), res, final(self).stream())
                &&& boxed@ == old(self).stream().next(boxed@.len())
            },
            in_chunks(
                &*old(self),
                &*final(self),
                |s: &Self| s.stream(),
                |s: &Self, call: ReadCall, reply: Reply, post: &Self| s.answers(call, reply, post),
                len as nat,
                exact,
                res,
            ),
    {
        let mut next_max_read_len: usize = INIT_MAX_READ_LEN;
        let mut buf: Vec<u8> = Vec::new();
        let ghost start = self.stream();
        let ghost mut i: nat = 0;
        let ghost mut states: Seq<&Self> = seq![&*self];
        let ghost mut posts: Seq<&Self> = Seq::empty();
        let ghost stream = |s: &Self| s.stream();
        let ghost answers = |s: &Self, call: ReadCall, reply: Reply, post: &Self|
            s.answers(call, reply, post);
        proof {
            no_chunks(&*self, stream, answers, len as nat, exact);
        }

        while buf.len() < len
            invariant
                next_max_read_len == chunk::cap(i),
                0 < next_max_read_len <= ABS_MAX_READ_LEN,
                buf@.len() == chunk::start(len as nat, i),
                buf@.len() <= len,
                start.has(buf@.len()),
                start == old(self).stream(),
                self.stream() == start.advance(buf@.len()),
                buf@ == start.next(buf@.len()),
                states.len() == i + 1,
                posts.len() == i,
                states[0] == &*old(self),
                states.last() == &*self,
                stream == (|s: &Self| s.stream()),
                answers == (|s: &Self, call: ReadCall, reply: Reply, post: &Self|
                    s.answers(call, reply, post)),
                chunks_so_far(states, posts, stream, answers, len as nat, exact),
            decreases len - buf.len(),
        {
            // The amount of bytes already read.
            let have_len = buf.len();
            // The capped amount of bytes to read this iteration.
            let rest_len: usize = len - have_len;
            let will_read_len: usize = if next_max_read_len <= rest_len {
                next_max_read_len
            } else {
                rest_len
            };

            // Read double the amount of bytes next iteration. Clamp to the absolute maximum read
            // length.
            next_max_read_len = if 2 * next_max_read_len <= ABS_MAX_READ_LEN {
                2 * next_max_read_len
            } else {
                ABS_MAX_READ_LEN
            };

            // Try to reserve memory for the amount being read, and extend the buffer into it. Return
            // an error instead of panicing.
            let reserved = try_reserve_bytes(&mut buf, will_read_len);
            if let Err(err) = chunk::grow(&mut buf, will_read_len, reserved) {
                proof {
                    reveal(chunks_so_far);
                    let res: MediaResult<Box<[u8]>> = Err(err);
                    assert(in_chunks_through(
                        states,
                        posts,
                        &*old(self),
                        &*self,
                        stream,
                        answers,
                        len as nat,
                        exact,
                        res,
                    ));
                }
                return Err(err);
            }

            let ghost have = buf@.take(have_len as int);
            let ghost pre: &Self = &*self;
            let (_head, chunk) = buf.as_mut_slice().split_at_mut(have_len);
            assert(chunk@ =~= stream::zeros(will_read_len as nat));
            // Try to read the number of bytes into the buffer. For exact reads, the read fails if it
            // is not exactly the amount requested.
            let did_read: MediaResult<usize> = if exact {
                match self.read_buf_exact(chunk) {
                    Ok(()) => Ok(will_read_len),
                    Err(err) => Err(err),
                }
            } else {
                self.read_buf(chunk)
            };
            proof {
                let call = ReadCall::of_chunk(len as nat, i, exact);
                let answer = stream::reply(did_read, pre.stream().next(did_read->Ok_0 as nat));
                assert(answers(states.last(), call, answer, &*self));
            }
            let did_read_len: usize = match did_read {
                Ok(did_read_len) => did_read_len,
                Err(err) => {
                    proof {
                        reveal(chunks_so_far);
                        let res: MediaResult<Box<[u8]>> = Err(err);
                        assert(in_chunks_through(
                            states,
                            posts,
                            &*old(self),
                            &*self,
                            stream,
                            answers,
                            len as nat,
                            exact,
                            res,
                        ));
                    }
                    return Err(err);
                },
            };
            proof {
                stream::reads_join_up(start, have_len as nat, did_read_len as nat);
                assert(buf@.take(have_len as int) =~= have);
                assert(buf@.take(have_len + did_read_len) =~= have + buf@.skip(
                    have_len as int,
                ).take(did_read_len as int));
            }

            // If less bytes are read than requested, truncate the buffer to the total read and do
            // not attempt to read anymore.
            if did_read_len < will_read_len {
                buf.truncate(have_len + did_read_len);
                let boxed = into_boxed_bytes(buf);
                proof {
                    reveal(chunks_so_far);
                    let res: MediaResult<Box<[u8]>> = Ok(boxed);
                    assert(in_chunks_through(
                        states,
                        posts,
                        &*old(self),
                        &*self,
                        stream,
                        answers,
                        len as nat,
                        exact,
                        res,
                    ));
                }
                return Ok(boxed);
            }
            proof {
                one_more_chunk(states, posts, &*self, stream, answers, len as nat, exact);
                states = states.push(&*self);
                posts = posts.push(&*self);
                i = i + 1;
            }
        }

        let boxed = into_boxed_bytes(buf);
        proof {
            reveal(chunks_so_far);
            let res: MediaResult<Box<[u8]>> = Ok(boxed);
            assert(in_chunks_through(
                states,
                posts,
                &*old(self),
                &*self,
                stream,
                answers,
                len as nat,
                exact,
                res,
            ));
        }
        Ok(boxed)
    }

    /// Reads up-to the number of bytes requested, and returns a boxed slice of the data or an
    /// error.
    ///
    /// # For Implementations
    ///
    /// The provided implementation is hardened against untrusted length inputs. Rather than
    /// preallocating a buffer of length `len` at the start and potentially causing a panic or
    /// system memory exhaustion for obscenely large lengths, the hardened implementation will
    /// progressively grow the buffer. This comes with the usual cost of growing a large vector,
    /// potentially many times. Reads <= 4 MB are preallocated immediately and avoid this overhead.
    /// Implementers of this trait that are passive observers of an inner reader, or are able to
    /// bound the allocation to a reasonable size through other means, should consider providing
    /// their own implementation.
    fn read_boxed_slice(&mut self, len: usize) -> (res: MediaResult<Box<[u8]>>)
        ensures
            final(self).stream().bytes == old(self).stream().bytes,
            res matches Ok(boxed) ==> {
                &&& boxed@.len() <= len
                &&& old(self).stream().took(boxed@.len(), res, final(self).stream())
                &&& boxed@ == old(self).stream().next(boxed@.len())
            },
        default_ensures
            in_chunks(
                &*old(self),
                &*final(self),
                |s: &Self| s.stream(),
                |s: &Self, call: ReadCall, reply: Reply, post: &Self| s.answers(call, reply, post),
                len as nat,
                false,
                res,
            ),
    {
        self.safe_read_into_boxed_slice(len, false)
    }

    /// Reads exactly the number of bytes requested, and returns a boxed slice of the data or an
    /// error.
    ///
    /// # For Implementations
    ///
    /// The provided implementation is hardened against untrusted length inputs. Rather than
    /// preallocating a buffer of length `len` at the start and potentially causing a panic or
    /// system memory exhaustion for obscenely large lengths, the hardened implementation will
    /// progressively grow the buffer. This comes with the usual cost of growing a large vector,
    /// potentially many times. Reads <= 4 MB are preallocated immediately and avoid this overhead.
    /// Implementers of this trait that are passive observers of an inner reader, or are able to
    /// bound the allocation to a reasonable size through other means, should consider providing
    /// their own implementation.
    fn read_boxed_slice_exact(&mut self, len: usize) -> (res: MediaResult<Box<[u8]>>)
        ensures
            old(self).stream().took(len as nat, res, final(self).stream()),
            res matches Ok(boxed) ==> boxed@ == old(self).stream().next(len as nat),
        default_ensures
            in_chunks(
                &*old(self),
                &*final(self),
                |s: &Self| s.stream(),
                |s: &Self, call: ReadCall, reply: Reply, post: &Self| s.answers(call, reply, post),
                len as nat,
                true,
                res,
            ),
    {
        self.safe_read_into_boxed_slice(len, true)
    }

    /// Reads bytes from the stream into a supplied buffer until a byte pattern is matched. Returns
    /// a mutable slice to the valid region of the provided buffer.
    fn scan_bytes<'a>(&mut self, pattern: &[u8], buf: &'a mut [u8]) -> (res: MediaResult<
        &'a mut [u8],
    >)
        ensures
            final(self).stream().bytes == old(self).stream().bytes,
            res is Err ==> final(buf)@.len() == old(buf)@.len(),
            res matches Ok(found) ==> {
                &&& found@.len() <= old(buf)@.len()
                &&& old(self).stream().took(found@.len(), res, final(self).stream())
                &&& found@ == old(self).stream().next(found@.len())
                &&& old(self).stream().scanned(pattern@, 1, old(buf)@.len(), found@)
                &&& exists|rest: Seq<u8>|
                    rest.len() == old(buf)@.len() - found@.len() && final(buf)@ == #[trigger] (
                    final(found)@ + rest)
            },
            old(self).answers(
                ReadCall::Scan(pattern@, 1, old(buf)@),
                stream::reply(res, old(self).stream().next(res->Ok_0@.len())),
                &*final(self),
            ),
    {
        self.scan_bytes_aligned(pattern, 1, buf)
    }

    /// Reads bytes from a stream into a supplied buffer until a byte pattern is matched on an
    /// aligned byte boundary. Returns a mutable slice to the valid region of the provided buffer.
    ///
    /// Where the buffer is full, or the stream ends, before the pattern is matched, the scan ends there.
    fn scan_bytes_aligned<'a>(
        &mut self,
        pattern: &[u8],
        align: usize,
        buf: &'a mut [u8],
    ) -> (res: MediaResult<&'a mut [u8]>)
        ensures
            final(self).stream().bytes == old(self).stream().bytes,
            res is Err ==> final(buf)@.len() == old(buf)@.len(),
            res matches Ok(found) ==> {
                &&& found@.len() <= old(buf)@.len()
                &&& old(self).stream().took(found@.len(), res, final(self).stream())
                &&& found@ == old(self).stream().next(found@.len())
                &&& old(self).stream().scanned(pattern@, align as nat, old(buf)@.len(), found@)
                &&& exists|rest: Seq<u8>|
                    rest.len() == old(buf)@.len() - found@.len() && final(buf)@ == #[trigger] (
                    final(found)@ + rest)
            },
            old(self).answers(
                ReadCall::Scan(pattern@, align, old(buf)@),
                stream::reply(res, old(self).stream().next(res->Ok_0@.len())),
                &*final(self),
            ),
    ;

    /// Ignores the specified number of bytes from the stream or returns an error.
    fn ignore_bytes(&mut self, count: u64) -> (res: MediaResult<()>)
        ensures
            old(self).stream().took(count as nat, res, final(self).stream()),
            old(self).answers(
                ReadCall::Ignore(count),
                stream::reply(res, old(self).stream().next(count as nat)),
                &*final(self),
            ),
    ;

    /// Gets the position of the stream.
    fn pos(&self) -> (pos: u64)
        ensures
            pos == self.stream().position,
    ;
}

impl<R: ReadBytes> ReadBytes for &mut R {
    open spec fn stream(&self) -> StreamView {
        (**self).stream()
    }

    open spec fn answers(&self, call: ReadCall, reply: Reply, post: &Self) -> bool {
        (**self).answers(call, reply, &**post)
    }

    fn read_byte(&mut self) -> (res: MediaResult<u8>) {
        (**self).read_byte()
    }

    fn read_double_bytes(&mut self) -> (res: MediaResult<[u8; 2]>) {
        (**self).read_double_bytes()
    }

    fn read_triple_bytes(&mut self) -> (res: MediaResult<[u8; 3]>) {
        (**self).read_triple_bytes()
    }

    fn read_quad_bytes(&mut self) -> (res: MediaResult<[u8; 4]>) {
        (**self).read_quad_bytes()
    }

    fn read_buf(&mut self, buf: &mut [u8]) -> (res: MediaResult<usize>) {
        (**self).read_buf(buf)
    }

    fn read_buf_exact(&mut self, buf: &mut [u8]) -> (res: MediaResult<()>) {
        (**self).read_buf_exact(buf)
    }

    fn scan_bytes_aligned<'a>(
        &mut self,
        pattern: &[u8],
        align: usize,
        buf: &'a mut [u8],
    ) -> (res: MediaResult<&'a mut [u8]>) {
        (**self).scan_bytes_aligned(pattern, align, buf)
    }

    fn ignore_bytes(&mut self, count: u64) -> (res: MediaResult<()>) {
        (**self).ignore_bytes(count)
    }

    fn pos(&self) -> (pos: u64) {
        (**self).pos()
    }
}

} // verus!

//! The mathematical model of what a reader or a source delivers.

use crate::error::{MediaError, MediaResult};
use vstd::prelude::*;

verus! {

/// A stream of bytes, and the position up to which it was read.
pub struct StreamView {
    /// All bytes of the stream from its start, also those that were not read yet.
    pub bytes: Seq<u8>,
    /// How many bytes precede the one that is read next.
    pub position: nat,
}

impl StreamView {
    /// Whether at least `n` bytes follow the position.
    pub open spec fn has(self, n: nat) -> bool {
        n > 0 ==> self.position + n <= self.bytes.len()
    }

    /// The `n` bytes that follow the position.
    pub open spec fn next(self, n: nat) -> Seq<u8>
        recommends
            self.has(n),
    {
        Seq::new(n, |i: int| self.bytes[self.position + i])
    }

    /// The stream after `n` more bytes were read.
    pub open spec fn advance(self, n: nat) -> StreamView {
        StreamView { bytes: self.bytes, position: self.position + n }
    }

    /// How many bytes follow the position.
    pub open spec fn remaining(self) -> nat {
        if self.position <= self.bytes.len() {
            (self.bytes.len() - self.position) as nat
        } else {
            0
        }
    }

    /// Whether a read that was answered with `reply`, and took a buffer from the contents `before` to
    /// the contents `after`, read as many bytes as the stream has and the buffer takes, and left the
    /// rest of the buffer alone.
    pub open spec fn fills(self, before: Seq<u8>, reply: Reply, after: Seq<u8>) -> bool {
        let n = if before.len() <= self.remaining() {
            before.len()
        } else {
            self.remaining()
        };
        &&& reply == Ok::<Seq<u8>, MediaError>(self.next(n))
        &&& after == self.next(n) + before.skip(n as int)
    }

    /// Whether a scan for `pattern`, at offsets that are multiples of `align`, into a buffer with room
    /// for `room` bytes, may stop after the bytes `found`. It stops at the first match, or where the
    /// buffer is full or the stream ends.
    pub open spec fn scanned(
        self,
        pattern: Seq<u8>,
        align: nat,
        room: nat,
        found: Seq<u8>,
    ) -> bool {
        let last = found.len() - pattern.len();
        &&& forall|i: int|
            is_aligned(i, align) && i < last ==> !(#[trigger] occurs_at(found, pattern, i))
        &&& {
            ||| is_aligned(last, align) && occurs_at(found, pattern, last)
            ||| found.len() == room
            ||| found.len() == self.remaining()
        }
    }

    /// Whether a call that answered `res` in this state, and left the state `post`, read `n` bytes
    /// if it succeeded. After a failure the position is open.
    pub open spec fn took<T>(self, n: nat, res: MediaResult<T>, post: StreamView) -> bool {
        &&& post.bytes == self.bytes
        &&& res is Ok ==> self.has(n) && post == self.advance(n)
    }
}

/// Whether the offset `i` is a multiple of `align`, counted from where the scan started.
pub open spec fn is_aligned(i: int, align: nat) -> bool {
    if align == 0 {
        i == 0
    } else {
        i % (align as int) == 0
    }
}

/// Whether `pattern` stands in `bytes` at the offset `i`.
pub open spec fn occurs_at(bytes: Seq<u8>, pattern: Seq<u8>, i: int) -> bool {
    &&& 0 <= i <= bytes.len() - pattern.len()
    &&& bytes.subrange(i, i + pattern.len()) == pattern
}

/// `n` bytes that are 0.
pub open spec fn zeros(n: nat) -> Seq<u8> {
    Seq::new(n, |i: int| 0u8)
}

/// Reading on delivers the bytes that follow, in order: one read of `a + b` bytes delivers what a
/// read of `a` bytes and a read of `b` bytes after it do.
pub proof fn reads_join_up(stream: StreamView, a: nat, b: nat)
    ensures
        stream.next(a + b) == stream.next(a) + stream.advance(a).next(b),
        stream.advance(a + b) == stream.advance(a).advance(b),
        a > 0 && b > 0 ==> (stream.has(a + b) <==> stream.has(a) && stream.advance(a).has(b)),
{
}

/// What a call delivered: the bytes that it read, or the error that it failed with.
pub type Reply = Result<Seq<u8>, MediaError>;

/// The reply of a call that answered `res`, where it read `data` if it succeeded.
pub open spec fn reply<T>(res: MediaResult<T>, data: Seq<u8>) -> Reply {
    match res {
        Ok(_) => Ok(data),
        Err(err) => Err(err),
    }
}

/// What follows the position are the bytes of the stream from there on, and a stream has as many as lie
/// between the position and its end.
pub proof fn next_bytes_are_those_of_the_stream(stream: StreamView, n: nat)
    ensures
        stream.next(n).len() == n,
        forall|i: int|
            0 <= i < n ==> #[trigger] stream.next(n)[i] == stream.bytes[stream.position + i],
        n > 0 ==> (stream.has(n) <==> stream.position + n <= stream.bytes.len()),
        stream.has(0),
        n > 0 ==> (stream.has(n) <==> n <= stream.remaining()),
        stream.position <= stream.bytes.len() ==> stream.position + stream.remaining()
            == stream.bytes.len(),
        stream.position > stream.bytes.len() ==> stream.remaining() == 0,
{
}

/// Reading `n` bytes moves the position by `n`, and changes nothing about the bytes. It succeeds only
/// where that many bytes follow.
pub proof fn reading_moves_the_position<T>(
    stream: StreamView,
    n: nat,
    res: MediaResult<T>,
    post: StreamView,
)
    requires
        stream.took(n, res, post),
    ensures
        post.bytes == stream.bytes,
        res is Ok ==> post.position == stream.position + n,
        res is Ok && n > 0 ==> post.position <= stream.bytes.len(),
        stream.advance(n).bytes == stream.bytes,
        stream.advance(n).position == stream.position + n,
{
}

/// A reply tells what was read on success, and keeps the error on failure.
pub proof fn replies_keep_errors<T>(res: MediaResult<T>, data: Seq<u8>)
    ensures
        res matches Ok(_) ==> reply(res, data) matches Ok(delivered) && delivered == data,
        res matches Err(err) ==> reply(res, data) matches Err(kept) && kept == err,
{
}

/// A read that fills a buffer as far as the stream goes ends at the end of the buffer or of the
/// stream, whichever is nearer. What was read lies at the front of the buffer, and the rest of the
/// buffer is as before.
pub proof fn a_filled_buffer_holds_what_was_read(
    stream: StreamView,
    before: Seq<u8>,
    answer: Reply,
    after: Seq<u8>,
    i: int,
)
    requires
        stream.fills(before, answer, after),
        0 <= i < before.len(),
    ensures
        answer is Ok,
        answer->Ok_0.len() <= before.len(),
        answer->Ok_0.len() == before.len() || stream.position + answer->Ok_0.len()
            >= stream.bytes.len(),
        answer->Ok_0.len() > 0 ==> stream.position + answer->Ok_0.len() <= stream.bytes.len(),
        after.len() == before.len(),
        i < answer->Ok_0.len() ==> after[i] == stream.bytes[stream.position + i] && answer->Ok_0[i]
            == stream.bytes[stream.position + i],
        i >= answer->Ok_0.len() ==> after[i] == before[i],
{
}

/// A scan that stopped did not pass a match: at no multiple of the alignment before the last one does
/// the pattern stand in what was scanned. It stopped with the pattern, or because there was no more
/// room, or no more stream.
pub proof fn a_scan_stops_at_the_first_match(
    stream: StreamView,
    pattern: Seq<u8>,
    align: nat,
    room: nat,
    found: Seq<u8>,
    i: int,
)
    requires
        stream.scanned(pattern, align, room, found),
        align > 0,
        0 <= i,
        i % (align as int) == 0,
        i + pattern.len() < found.len(),
    ensures
        found.subrange(i, i + pattern.len()) != pattern,
        found.len() == room || stream.position + found.len() == stream.bytes.len()
            || found.subrange(found.len() - pattern.len(), found.len() as int) == pattern && (
        found.len() - pattern.len()) % (align as int) == 0,
{
    assert(is_aligned(i, align));
    assert(!occurs_at(found, pattern, i));
    assert(found.len() - pattern.len() + pattern.len() == found.len());
}

/// A buffer that was never written to is 0 at every index.
pub proof fn zeros_are_zero(n: nat, i: int)
    requires
        0 <= i < n,
    ensures
        zeros(n).len() == n,
        zeros(n)[i] == 0,
{
}

} // verus!

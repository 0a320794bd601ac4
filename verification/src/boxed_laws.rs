//! What reading into a boxed slice does, stated of the calls themselves and of the calls that they make.

use crate::chunk;
use crate::error::{MediaError, MediaErrorKind, MediaResult};
use crate::read_bytes;
use crate::read_bytes::{ReadBytes, ReadCall};
use crate::stream::{Reply, StreamView};
use vstd::prelude::*;

verus! {

/// A boxed read of no bytes succeeds, and leaves the reader alone.
pub proof fn a_boxed_read_of_nothing_is_empty<'a, S: ?Sized>(
    pre: &'a S,
    post: &'a S,
    stream: spec_fn(&'a S) -> StreamView,
    answers: spec_fn(&'a S, ReadCall, Reply, &'a S) -> bool,
    exact: bool,
    res: MediaResult<Box<[u8]>>,
)
    requires
        read_bytes::in_chunks(pre, post, stream, answers, 0, exact, res),
    ensures
        res is Ok,
        res->Ok_0@.len() == 0,
        post == pre,
{
    let (states, posts) = choose|states: Seq<&'a S>, posts: Seq<&'a S>| #[trigger]
        read_bytes::in_chunks_through(
            states,
            posts,
            pre,
            post,
            stream,
            answers,
            0,
            exact,
            res,
        );
    chunk::start_bound(0, posts.len());
    if posts.len() > 0 {
        chunk::start_bound(0, 0);
        assert(chunk::start(0, 0) < 0);
    }
}

/// Chunk `k` of a boxed read begins where the chunks before it ended. Room for exactly that chunk is
/// reserved, and the chunk is read into it while it is all zero: with `read_buf_exact` where the read is
/// exact, with `read_buf` otherwise. The chunk is 4 MB long, doubled `k` times, but no longer than 1 GB
/// or than what is left of `len`.
pub proof fn each_chunk_is_reserved_and_read<'a, S: ?Sized>(
    states: Seq<&'a S>,
    posts: Seq<&'a S>,
    stream: spec_fn(&'a S) -> StreamView,
    answers: spec_fn(&'a S, ReadCall, Reply, &'a S) -> bool,
    len: nat,
    exact: bool,
    k: nat,
)
    requires
        read_bytes::whole_chunks(states, posts, stream, answers, len, exact),
        k < posts.len(),
    ensures
        ({
            let at = stream(states[k as int]).position - stream(states[0]).position;
            let doubled = 0x40_0000 * vstd::arithmetic::power::pow(2, k);
            let cap = if doubled <= 0x4000_0000 {
                doubled
            } else {
                0x4000_0000
            };
            let n = if len - at <= cap {
                len - at
            } else {
                cap
            };
            &&& at >= 0
            &&& n > 0
            &&& states[k + 1int] == posts[k as int]
            &&& stream(states[k as int]).bytes == stream(states[0]).bytes
            &&& stream(states[k + 1int]).position == stream(states[k as int]).position + n
            &&& chunk::reserve_answers(at as nat, n as nat, true)
            &&& exact ==> exists|before: Seq<u8>, data: Seq<u8>|
                {
                    &&& before.len() == n
                    &&& forall|j: int| 0 <= j < n ==> before[j] == 0
                    &&& data.len() == n
                    &&& forall|j: int|
                        0 <= j < n ==> data[j] == stream(states[0]).bytes[stream(
                            states[k as int],
                        ).position + j]
                    &&& #[trigger] answers(
                        states[k as int],
                        ReadCall::BufExact(before),
                        Ok(data),
                        posts[k as int],
                    )
                }
            &&& !exact ==> exists|before: Seq<u8>, data: Seq<u8>|
                {
                    &&& before.len() == n
                    &&& forall|j: int| 0 <= j < n ==> before[j] == 0
                    &&& data.len() == n
                    &&& forall|j: int|
                        0 <= j < n ==> data[j] == stream(states[0]).bytes[stream(
                            states[k as int],
                        ).position + j]
                    &&& #[trigger] answers(
                        states[k as int],
                        ReadCall::Buf(before),
                        Ok(data),
                        posts[k as int],
                    )
                }
        }),
{
    chunk::cap_doubles(k);
    vstd::arithmetic::power::lemma_pow_positive(2, k);
    chunk::start_bound(len, k);
    chunk::chunks_lie_end_to_end(len, k);
    let (here, next) = (states[k as int], states[k + 1int]);
    let n = chunk::size(len, k);
    let before = crate::stream::zeros(n);
    let data = stream(here).next(n);
    assert(chunk::start(len, k) < len);
    if exact {
        assert(answers(here, ReadCall::BufExact(before), Ok(data), posts[k as int]));
    } else {
        assert(answers(here, ReadCall::Buf(before), Ok(data), posts[k as int]));
    }
}

/// A boxed read goes on chunk by chunk until all bytes are read, room for the next chunk cannot be
/// reserved, or the read of the next chunk comes up short or fails. In the latter case the error is that
/// of the chunk, and in no case is anything read after that.
pub proof fn a_boxed_read_ends_with_its_last_chunk<'a, S: ?Sized>(
    pre: &'a S,
    post: &'a S,
    stream: spec_fn(&'a S) -> StreamView,
    answers: spec_fn(&'a S, ReadCall, Reply, &'a S) -> bool,
    len: nat,
    exact: bool,
    res: MediaResult<Box<[u8]>>,
)
    requires
        read_bytes::in_chunks(pre, post, stream, answers, len, exact, res),
    ensures
        exists|states: Seq<&'a S>, posts: Seq<&'a S>|
            {
                let at = stream(states.last()).position - stream(pre).position;
                let doubled = 0x40_0000 * vstd::arithmetic::power::pow(2, posts.len());
                let cap = if doubled <= 0x4000_0000 {
                    doubled
                } else {
                    0x4000_0000
                };
                let n = if len - at <= cap {
                    len - at
                } else {
                    cap
                };
                &&& #[trigger] read_bytes::whole_chunks(states, posts, stream, answers, len, exact)
                &&& states[0] == pre
                &&& 0 <= at <= len
                &&& at == len ==> {
                    &&& res is Ok
                    &&& res->Ok_0@.len() == len
                    &&& states.last() == post
                }
                &&& at < len ==> n > 0
                &&& at < len ==> {
                    ||| {
                        &&& chunk::reserve_answers(at as nat, n as nat, false)
                        &&& states.last() == post
                        &&& res is Err
                        &&& res->Err_0.spec_kind() == MediaErrorKind::Message(
                            "failed to allocate read buffer",
                        )
                        &&& res->Err_0.spec_message() is None
                    }
                    ||| chunk::reserve_answers(at as nat, n as nat, true) && exact && exists|before: Seq<u8>, last: Reply|
                        {
                            &&& before.len() == n
                            &&& forall|j: int| 0 <= j < n ==> before[j] == 0
                            &&& #[trigger] answers(
                                states.last(),
                                ReadCall::BufExact(before),
                                last,
                                post,
                            )
                            &&& match last {
                                Ok(data) => {
                                    &&& data.len() < n
                                    &&& res is Ok
                                    &&& res->Ok_0@.len() == at + data.len()
                                },
                                Err(err) => res is Err && res->Err_0 == err,
                            }
                        }
                    ||| chunk::reserve_answers(at as nat, n as nat, true) && !exact && exists|before: Seq<u8>, last: Reply|
                        {
                            &&& before.len() == n
                            &&& forall|j: int| 0 <= j < n ==> before[j] == 0
                            &&& #[trigger] answers(
                                states.last(),
                                ReadCall::Buf(before),
                                last,
                                post,
                            )
                            &&& match last {
                                Ok(data) => {
                                    &&& data.len() < n
                                    &&& res is Ok
                                    &&& res->Ok_0@.len() == at + data.len()
                                },
                                Err(err) => res is Err && res->Err_0 == err,
                            }
                        }
                }
            },
{
    let (states, posts) = choose|states: Seq<&'a S>, posts: Seq<&'a S>| #[trigger]
        read_bytes::in_chunks_through(
            states,
            posts,
            pre,
            post,
            stream,
            answers,
            len,
            exact,
            res,
        );
    let done = posts.len();
    let size = chunk::size(len, done);
    chunk::cap_doubles(done);
    chunk::cap_bounds(done);
    chunk::start_bound(len, done);
    chunk::chunks_lie_end_to_end(len, done);
    let before = crate::stream::zeros(size);
    assert(ReadCall::of_chunk(len, done, true) == ReadCall::BufExact(before));
    assert(ReadCall::of_chunk(len, done, false) == ReadCall::Buf(before));
    assert(stream(states.last()) == stream(pre).advance(chunk::start(len, done)));
}

/// An exact boxed read fails only with an error that a `read_buf_exact` of the reader failed with, or
/// because no memory could be reserved.
pub proof fn exact_boxed_reads_fail_as_exact_reads_do<'a, S: ?Sized>(
    pre: &'a S,
    post: &'a S,
    stream: spec_fn(&'a S) -> StreamView,
    answers: spec_fn(&'a S, ReadCall, Reply, &'a S) -> bool,
    len: nat,
    res: MediaResult<Box<[u8]>>,
)
    requires
        read_bytes::in_chunks(pre, post, stream, answers, len, true, res),
        res is Err,
    ensures
        ({
            ||| exists|before: Seq<u8>, s: &'a S| #[trigger]
                answers(s, ReadCall::BufExact(before), Err(res->Err_0), post)
            ||| res->Err_0.spec_kind() == MediaErrorKind::Message("failed to allocate read buffer")
                && exists|have: nat, additional: nat| #[trigger]
                chunk::reserve_answers(have, additional, false)
        }),
{
    let (states, posts) = choose|states: Seq<&'a S>, posts: Seq<&'a S>| #[trigger]
        read_bytes::in_chunks_through(
            states,
            posts,
            pre,
            post,
            stream,
            answers,
            len,
            true,
            res,
        );
    let before = crate::stream::zeros(chunk::size(len, posts.len()));
    assert(ReadCall::of_chunk(len, posts.len(), true) == ReadCall::BufExact(before));
    if !chunk::reserve_answers(
        chunk::start(len, posts.len()),
        chunk::size(len, posts.len()),
        false,
    ) {
        assert(answers(states.last(), ReadCall::BufExact(before), Err(res->Err_0), post));
    }
}

/// Where memory can be reserved, and the reader's `read_buf_exact` succeeds whenever as many bytes
/// follow as the buffer holds, an exact boxed read succeeds whenever `len` bytes follow, however short
/// the answers of `read_buf` are.
pub proof fn exact_boxed_reads_succeed<'a, S: ?Sized>(
    pre: &'a S,
    post: &'a S,
    stream: spec_fn(&'a S) -> StreamView,
    answers: spec_fn(&'a S, ReadCall, Reply, &'a S) -> bool,
    len: nat,
    res: MediaResult<Box<[u8]>>,
)
    requires
        read_bytes::in_chunks(pre, post, stream, answers, len, true, res),
        forall|have: nat, additional: nat| !(#[trigger] chunk::reserve_answers(
            have,
            additional,
            false,
        )),
        forall|s: &'a S, before: Seq<u8>, err: MediaError, next: &'a S| #[trigger]
            answers(s, ReadCall::BufExact(before), Err(err), next) ==> stream(s).position
                + before.len() > stream(s).bytes.len(),
        stream(pre).position + len <= stream(pre).bytes.len(),
    ensures
        res is Ok,
{
    let (states, posts) = choose|states: Seq<&'a S>, posts: Seq<&'a S>| #[trigger]
        read_bytes::in_chunks_through(
            states,
            posts,
            pre,
            post,
            stream,
            answers,
            len,
            true,
            res,
        );
    let done = posts.len();
    let before = crate::stream::zeros(chunk::size(len, done));
    assert(ReadCall::of_chunk(len, done, true) == ReadCall::BufExact(before));
    chunk::start_bound(len, done);
    assert(stream(states.last()) == stream(pre).advance(chunk::start(len, done)));
    if res is Err {
        assert(answers(states.last(), ReadCall::BufExact(before), Err(res->Err_0), post));
    }
}

/// A boxed read of up to `len` bytes fails only with an error that a `read_buf` of the reader failed
/// with, or because no memory could be reserved.
pub proof fn boxed_reads_fail_as_reads_do<'a, S: ?Sized>(
    pre: &'a S,
    post: &'a S,
    stream: spec_fn(&'a S) -> StreamView,
    answers: spec_fn(&'a S, ReadCall, Reply, &'a S) -> bool,
    len: nat,
    res: MediaResult<Box<[u8]>>,
)
    requires
        read_bytes::in_chunks(pre, post, stream, answers, len, false, res),
        res is Err,
    ensures
        ({
            ||| exists|before: Seq<u8>, s: &'a S| #[trigger]
                answers(s, ReadCall::Buf(before), Err(res->Err_0), post)
            ||| res->Err_0.spec_kind() == MediaErrorKind::Message("failed to allocate read buffer")
                && exists|have: nat, additional: nat| #[trigger]
                chunk::reserve_answers(have, additional, false)
        }),
{
    let (states, posts) = choose|states: Seq<&'a S>, posts: Seq<&'a S>| #[trigger]
        read_bytes::in_chunks_through(
            states,
            posts,
            pre,
            post,
            stream,
            answers,
            len,
            false,
            res,
        );
    let before = crate::stream::zeros(chunk::size(len, posts.len()));
    assert(ReadCall::of_chunk(len, posts.len(), false) == ReadCall::Buf(before));
    if !chunk::reserve_answers(
        chunk::start(len, posts.len()),
        chunk::size(len, posts.len()),
        false,
    ) {
        assert(answers(states.last(), ReadCall::Buf(before), Err(res->Err_0), post));
    }
}

/// Where memory can be reserved, and the reader's `read_buf` always reads as many bytes as the buffer
/// holds, or as follow where those are fewer, so does a boxed read of up to `len` bytes.
pub proof fn boxed_reads_read_as_much_as_follows<'a, S: ?Sized>(
    pre: &'a S,
    post: &'a S,
    stream: spec_fn(&'a S) -> StreamView,
    answers: spec_fn(&'a S, ReadCall, Reply, &'a S) -> bool,
    len: nat,
    res: MediaResult<Box<[u8]>>,
)
    requires
        read_bytes::in_chunks(pre, post, stream, answers, len, false, res),
        stream(pre).position <= stream(pre).bytes.len(),
        forall|have: nat, additional: nat| !(#[trigger] chunk::reserve_answers(
            have,
            additional,
            false,
        )),
        forall|s: &'a S, before: Seq<u8>, reply: Reply, next: &'a S| #[trigger]
            answers(s, ReadCall::Buf(before), reply, next) && stream(s).position <= stream(
                s,
            ).bytes.len() ==> {
                &&& reply is Ok
                &&& reply->Ok_0.len() <= before.len()
                &&& stream(s).position + reply->Ok_0.len() <= stream(s).bytes.len()
                &&& reply->Ok_0.len() == before.len() || stream(s).position + reply->Ok_0.len()
                    == stream(s).bytes.len()
            },
    ensures
        res is Ok,
        res->Ok_0@.len() <= len,
        stream(pre).position + res->Ok_0@.len() <= stream(pre).bytes.len(),
        res->Ok_0@.len() == len || stream(pre).position + res->Ok_0@.len() == stream(
            pre,
        ).bytes.len(),
{
    let (states, posts) = choose|states: Seq<&'a S>, posts: Seq<&'a S>| #[trigger]
        read_bytes::in_chunks_through(
            states,
            posts,
            pre,
            post,
            stream,
            answers,
            len,
            false,
            res,
        );
    let done = posts.len();
    let before = crate::stream::zeros(chunk::size(len, done));
    assert(ReadCall::of_chunk(len, done, false) == ReadCall::Buf(before));
    chunk::start_bound(len, done);
    whole_chunks_are_in_the_stream(states, posts, stream, answers, len, done);
    assert(stream(states.last()) == stream(pre).advance(chunk::start(len, done)));
}

/// Chunks that are read whole lie within the stream, where `read_buf` reads no more than follows.
proof fn whole_chunks_are_in_the_stream<'a, S: ?Sized>(
    states: Seq<&'a S>,
    posts: Seq<&'a S>,
    stream: spec_fn(&'a S) -> StreamView,
    answers: spec_fn(&'a S, ReadCall, Reply, &'a S) -> bool,
    len: nat,
    k: nat,
)
    requires
        read_bytes::whole_chunks(states, posts, stream, answers, len, false),
        k <= posts.len(),
        stream(states[0]).position <= stream(states[0]).bytes.len(),
        forall|s: &'a S, before: Seq<u8>, reply: Reply, next: &'a S| #[trigger]
            answers(s, ReadCall::Buf(before), reply, next) && stream(s).position <= stream(
                s,
            ).bytes.len() ==> reply is Ok && stream(s).position + reply->Ok_0.len() <= stream(
                s,
            ).bytes.len(),
    ensures
        stream(states[0]).position + chunk::start(len, k) <= stream(states[0]).bytes.len(),
    decreases k,
{
    if k > 0 {
        let j = (k - 1) as nat;
        whole_chunks_are_in_the_stream(states, posts, stream, answers, len, j);
        let here = states[j as int];
        let size = chunk::size(len, j);
        let before = crate::stream::zeros(size);
        assert(ReadCall::of_chunk(len, j, false) == ReadCall::Buf(before));
        assert(answers(here, ReadCall::Buf(before), Ok(stream(here).next(size)), posts[j as int]));
        chunk::chunks_lie_end_to_end(len, j);
    }
}

/// A boxed read of up to `len` bytes stops at the first answer that is shorter than its buffer: where
/// the reader always answers so, what is read is the answer of one `read_buf`.
pub proof fn boxed_reads_stop_at_a_short_answer<'a, S: ?Sized>(
    pre: &'a S,
    post: &'a S,
    stream: spec_fn(&'a S) -> StreamView,
    answers: spec_fn(&'a S, ReadCall, Reply, &'a S) -> bool,
    len: nat,
    res: MediaResult<Box<[u8]>>,
)
    requires
        read_bytes::in_chunks(pre, post, stream, answers, len, false, res),
        len > 0,
        res is Ok,
        forall|before: Seq<u8>, data: Seq<u8>, next: &'a S| #[trigger]
            answers(pre, ReadCall::Buf(before), Ok(data), next) && before.len() > 0 ==> data.len()
                < before.len(),
    ensures
        exists|before: Seq<u8>, data: Seq<u8>| #[trigger]
            answers(pre, ReadCall::Buf(before), Ok(data), post) && data.len()
                == res->Ok_0@.len() && before.len() == if len <= 0x40_0000 {
                len
            } else {
                0x40_0000
            },
{
    let (states, posts) = choose|states: Seq<&'a S>, posts: Seq<&'a S>| #[trigger]
        read_bytes::in_chunks_through(
            states,
            posts,
            pre,
            post,
            stream,
            answers,
            len,
            false,
            res,
        );
    let size = chunk::size(len, 0);
    let before = crate::stream::zeros(size);
    chunk::chunks_lie_end_to_end(len, 0);
    chunk::cap_bounds(0);
    assert(ReadCall::of_chunk(len, 0, false) == ReadCall::Buf(before));
    if posts.len() > 0 {
        assert(answers(states[0], ReadCall::Buf(before), Ok(stream(pre).next(size)), posts[0]));
        assert(false);
    }
    let last = choose|last: Reply|
        {
            &&& #[trigger] answers(
                states.last(),
                ReadCall::of_chunk(len, posts.len(), false),
                last,
                post,
            )
            &&& last is Ok
            &&& res->Ok_0@.len() == last->Ok_0.len()
        };
    assert(answers(pre, ReadCall::Buf(before), Ok(last->Ok_0), post));
}

/// A boxed read of at most 4 MB is one read into a buffer of that length, which is all zero: it fails
/// with the error of that read, and is as long as what that read delivered. It fails otherwise only
/// where that buffer cannot be allocated, and then the reader is left alone.
pub proof fn a_small_boxed_read_is_one_read<'a, S: ?Sized>(
    pre: &'a S,
    post: &'a S,
    stream: spec_fn(&'a S) -> StreamView,
    answers: spec_fn(&'a S, ReadCall, Reply, &'a S) -> bool,
    len: nat,
    exact: bool,
    res: MediaResult<Box<[u8]>>,
)
    requires
        read_bytes::in_chunks(pre, post, stream, answers, len, exact, res),
        0 < len <= 0x40_0000,
    ensures
        ({
            ||| {
                &&& chunk::reserve_answers(0, len, false)
                &&& res is Err
                &&& res->Err_0.spec_kind() == MediaErrorKind::Message(
                    "failed to allocate read buffer",
                )
                &&& post == pre
            }
            ||| chunk::reserve_answers(0, len, true) && exact && exists|before: Seq<u8>, reply: Reply|
                {
                    &&& #[trigger] answers(pre, ReadCall::BufExact(before), reply, post)
                    &&& before.len() == len
                    &&& forall|j: int| 0 <= j < len ==> before[j] == 0
                    &&& match reply {
                        Ok(data) => res is Ok && res->Ok_0@.len() == data.len(),
                        Err(err) => res is Err && res->Err_0 == err,
                    }
                }
            ||| chunk::reserve_answers(0, len, true) && !exact && exists|before: Seq<u8>, reply: Reply|
                {
                    &&& #[trigger] answers(pre, ReadCall::Buf(before), reply, post)
                    &&& before.len() == len
                    &&& forall|j: int| 0 <= j < len ==> before[j] == 0
                    &&& match reply {
                        Ok(data) => res is Ok && res->Ok_0@.len() == data.len(),
                        Err(err) => res is Err && res->Err_0 == err,
                    }
                }
        }),
{
    let (states, posts) = choose|states: Seq<&'a S>, posts: Seq<&'a S>| #[trigger]
        read_bytes::in_chunks_through(
            states,
            posts,
            pre,
            post,
            stream,
            answers,
            len,
            exact,
            res,
        );
    let before = crate::stream::zeros(len);
    chunk::small_read_is_one_chunk(len);
    chunk::chunks_lie_end_to_end(len, 0);
    assert(ReadCall::of_chunk(len, 0, true) == ReadCall::BufExact(before));
    assert(ReadCall::of_chunk(len, 0, false) == ReadCall::Buf(before));
    if posts.len() > 1 {
        assert(chunk::start(len, 1) < len);
    }
    if posts.len() == 1 {
        assert(chunk::start(len, 0) < len);
        let whole: Reply = Ok(stream(pre).next(len));
        assert(answers(states[0], ReadCall::of_chunk(len, 0, exact), whole, posts[0]));
        assert(states[1] == posts[0]);
    }
}

/// A boxed read delivers the bytes that follow, in order, and moves the position past them. An exact
/// one delivers all that were asked for, another one no more than that.
pub proof fn boxed_reads_deliver_what_follows<R: ReadBytes>(
    len: usize,
    exact: bool,
    boxed: Box<[u8]>,
    j: int,
)
    requires
        0 <= j < boxed@.len(),
    ensures
        forall|r: &mut R| #[trigger]
            call_ensures(R::safe_read_into_boxed_slice, (r, len, exact), Ok(boxed)) ==> {
                &&& boxed@.len() <= len
                &&& exact ==> boxed@.len() == len
                &&& boxed@[j] == (*r).stream().bytes[(*r).stream().position + j]
                &&& (*final(r)).stream().bytes == (*r).stream().bytes
                &&& (*final(r)).stream().position == (*r).stream().position + boxed@.len()
            },
        forall|r: &mut R| #[trigger]
            call_ensures(R::read_boxed_slice, (r, len), Ok(boxed)) ==> {
                &&& boxed@.len() <= len
                &&& boxed@[j] == (*r).stream().bytes[(*r).stream().position + j]
                &&& (*final(r)).stream().bytes == (*r).stream().bytes
                &&& (*final(r)).stream().position == (*r).stream().position + boxed@.len()
            },
        forall|r: &mut R| #[trigger]
            call_ensures(R::read_boxed_slice_exact, (r, len), Ok(boxed)) ==> {
                &&& boxed@.len() == len
                &&& boxed@[j] == (*r).stream().bytes[(*r).stream().position + j]
                &&& (*final(r)).stream().bytes == (*r).stream().bytes
                &&& (*final(r)).stream().position == (*r).stream().position + len
            },
{
}

/// Where memory can be reserved, and the reader's `read_buf_exact` succeeds whenever as many bytes
/// follow as the buffer holds, its exact boxed reads succeed whenever `len` bytes follow. This holds of
/// the provided `read_boxed_slice_exact`, too, as a mutable reference to the reader has it.
pub proof fn exact_boxed_reads_of_a_reader_succeed<R: ReadBytes>(
    len: usize,
    res: MediaResult<Box<[u8]>>,
)
    requires
        forall|have: nat, additional: nat| !(#[trigger] chunk::reserve_answers(
            have,
            additional,
            false,
        )),
        forall|s: &R, before: Seq<u8>, err: MediaError, next: &R| #[trigger]
            s.answers(ReadCall::BufExact(before), Err(err), next) ==> s.stream().position
                + before.len() > s.stream().bytes.len(),
    ensures
        forall|r: &mut R| #[trigger]
            call_ensures(R::safe_read_into_boxed_slice, (r, len, true), res) && (
            *r).stream().position + len <= (*r).stream().bytes.len() ==> res is Ok
                && res->Ok_0@.len() == len,
        forall|r: &mut &mut R| #[trigger]
            call_ensures(<&mut R as ReadBytes>::read_boxed_slice_exact, (r, len), res) && (
            **r).stream().position + len <= (**r).stream().bytes.len() ==> res is Ok
                && res->Ok_0@.len() == len,
{
    assert forall|r: &mut R| #[trigger]
        call_ensures(R::safe_read_into_boxed_slice, (r, len, true), res) && (*r).stream().position
            + len <= (*r).stream().bytes.len() implies res is Ok && res->Ok_0@.len() == len by {
        exact_boxed_reads_succeed(
            &*r,
            &*final(r),
            |s: &R| s.stream(),
            |s: &R, call: ReadCall, reply: Reply, post: &R| s.answers(call, reply, post),
            len as nat,
            res,
        );
    }
    assert forall|r: &mut &mut R| #[trigger]
        call_ensures(<&mut R as ReadBytes>::read_boxed_slice_exact, (r, len), res) && (
        **r).stream().position + len <= (**r).stream().bytes.len() implies res is Ok
        && res->Ok_0@.len() == len by {
        exact_boxed_reads_succeed(
            &*r,
            &*final(r),
            |s: &&mut R| s.stream(),
            |s: &&mut R, call: ReadCall, reply: Reply, post: &&mut R| s.answers(call, reply, post),
            len as nat,
            res,
        );
    }
}

/// An exact boxed read fails only with an error that a `read_buf_exact` of the reader failed with, and
/// another boxed read only with one that a `read_buf` failed with, or because no memory could be
/// reserved. This holds of the provided methods, too, as a mutable reference to the reader has them.
pub proof fn boxed_reads_of_a_reader_fail_as_its_reads_do<R: ReadBytes>(len: usize, err: MediaError)
    requires
        forall|have: nat, additional: nat| !(#[trigger] chunk::reserve_answers(
            have,
            additional,
            false,
        )),
    ensures
        forall|r: &mut R| #[trigger]
            call_ensures(R::safe_read_into_boxed_slice, (r, len, true), Err(err)) ==> exists|
                before: Seq<u8>,
                s: &R,
            | #[trigger] s.answers(ReadCall::BufExact(before), Err(err), &*final(r)),
        forall|r: &mut R| #[trigger]
            call_ensures(R::safe_read_into_boxed_slice, (r, len, false), Err(err)) ==> exists|
                before: Seq<u8>,
                s: &R,
            | #[trigger] s.answers(ReadCall::Buf(before), Err(err), &*final(r)),
        forall|r: &mut &mut R| #[trigger]
            call_ensures(<&mut R as ReadBytes>::read_boxed_slice_exact, (r, len), Err(err))
                ==> exists|before: Seq<u8>, s: &&mut R| #[trigger]
                s.answers(ReadCall::BufExact(before), Err(err), &*final(r)),
        forall|r: &mut &mut R| #[trigger]
            call_ensures(<&mut R as ReadBytes>::read_boxed_slice, (r, len), Err(err)) ==> exists|
                before: Seq<u8>,
                s: &&mut R,
            | #[trigger] s.answers(ReadCall::Buf(before), Err(err), &*final(r)),
{
    assert forall|r: &mut R| #[trigger]
        call_ensures(R::safe_read_into_boxed_slice, (r, len, true), Err(err)) implies exists|
        before: Seq<u8>,
        s: &R,
    | #[trigger] s.answers(ReadCall::BufExact(before), Err(err), &*final(r)) by {
        exact_boxed_reads_fail_as_exact_reads_do(
            &*r,
            &*final(r),
            |s: &R| s.stream(),
            |s: &R, call: ReadCall, reply: Reply, post: &R| s.answers(call, reply, post),
            len as nat,
            Err(err),
        );
    }
    assert forall|r: &mut R| #[trigger]
        call_ensures(R::safe_read_into_boxed_slice, (r, len, false), Err(err)) implies exists|
        before: Seq<u8>,
        s: &R,
    | #[trigger] s.answers(ReadCall::Buf(before), Err(err), &*final(r)) by {
        boxed_reads_fail_as_reads_do(
            &*r,
            &*final(r),
            |s: &R| s.stream(),
            |s: &R, call: ReadCall, reply: Reply, post: &R| s.answers(call, reply, post),
            len as nat,
            Err(err),
        );
    }
    assert forall|r: &mut &mut R| #[trigger]
        call_ensures(<&mut R as ReadBytes>::read_boxed_slice_exact, (r, len), Err(err)) implies exists|
        before: Seq<u8>,
        s: &&mut R,
    | #[trigger] s.answers(ReadCall::BufExact(before), Err(err), &*final(r)) by {
        exact_boxed_reads_fail_as_exact_reads_do(
            &*r,
            &*final(r),
            |s: &&mut R| s.stream(),
            |s: &&mut R, call: ReadCall, reply: Reply, post: &&mut R| s.answers(call, reply, post),
            len as nat,
            Err(err),
        );
    }
    assert forall|r: &mut &mut R| #[trigger]
        call_ensures(<&mut R as ReadBytes>::read_boxed_slice, (r, len), Err(err)) implies exists|
        before: Seq<u8>,
        s: &&mut R,
    | #[trigger] s.answers(ReadCall::Buf(before), Err(err), &*final(r)) by {
        boxed_reads_fail_as_reads_do(
            &*r,
            &*final(r),
            |s: &&mut R| s.stream(),
            |s: &&mut R, call: ReadCall, reply: Reply, post: &&mut R| s.answers(call, reply, post),
            len as nat,
            Err(err),
        );
    }
}

} // verus!

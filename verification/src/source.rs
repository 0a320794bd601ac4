//! Sources of media bytes.

use crate::error;
use crate::error::{io_error_other, MediaResult};
use crate::seek::SeekFrom;
use crate::slice::IoSliceMut;
use crate::stream;
use crate::stream::{Reply, StreamView};
use vstd::prelude::*;

verus! {

/// The number of bytes that `bufs` hold together.
pub open spec fn total_len(bufs: Seq<IoSliceMut<'_>>) -> nat
    decreases bufs.len(),
{
    if bufs.len() == 0 {
        0
    } else {
        total_len(bufs.drop_last()) + bufs.last()@.len()
    }
}

/// The bytes that `bufs` hold, one buffer after the other.
pub open spec fn joined(bufs: Seq<IoSliceMut<'_>>) -> Seq<u8>
    decreases bufs.len(),
{
    if bufs.len() == 0 {
        Seq::empty()
    } else {
        joined(bufs.drop_last()) + bufs.last()@
    }
}

/// Whether the buffers of `a` and `b` have the same lengths.
pub open spec fn same_lens(a: Seq<IoSliceMut<'_>>, b: Seq<IoSliceMut<'_>>) -> bool {
    &&& a.len() == b.len()
    &&& forall|k: int| 0 <= k < a.len() ==> (#[trigger] a[k])@.len() == b[k]@.len()
}

/// What lies in buffer `i` adds to what lies in the buffers before it, and to no more than what lies
/// in all buffers.
pub proof fn total_len_step(bufs: Seq<IoSliceMut<'_>>, i: int)
    requires
        0 <= i < bufs.len(),
    ensures
        total_len(bufs.take(i + 1)) == total_len(bufs.take(i)) + bufs[i]@.len(),
        total_len(bufs.take(i + 1)) <= total_len(bufs),
    decreases bufs.len(),
{
    assert(bufs.take(i + 1).drop_last() =~= bufs.take(i));
    if i + 1 < bufs.len() {
        total_len_step(bufs.drop_last(), i);
        assert(bufs.drop_last().take(i + 1) =~= bufs.take(i + 1));
    } else {
        assert(bufs.take(i + 1) =~= bufs);
    }
}

/// Buffers of the same lengths hold the same number of bytes.
proof fn same_lens_same_total(a: Seq<IoSliceMut<'_>>, b: Seq<IoSliceMut<'_>>)
    requires
        same_lens(a, b),
    ensures
        total_len(a) == total_len(b),
    decreases a.len(),
{
    if a.len() > 0 {
        assert forall|k: int| 0 <= k < a.drop_last().len() implies (
        #[trigger] a.drop_last()[k])@.len() == b.drop_last()[k]@.len() by {
            assert(a[k]@.len() == b[k]@.len());
        }
        same_lens_same_total(a.drop_last(), b.drop_last());
    }
}

/// The first bytes of the joined buffers are those of the buffers before buffer `i`, followed by the
/// first `n` bytes of that buffer.
proof fn joined_prefix(bufs: Seq<IoSliceMut<'_>>, i: int, n: int)
    requires
        0 <= i < bufs.len(),
        0 <= n <= bufs[i]@.len(),
    ensures
        joined(bufs).len() == total_len(bufs),
        joined(bufs).take(total_len(bufs.take(i)) + n) == joined(bufs.take(i)) + bufs[i]@.take(
            n,
        ),
    decreases bufs.len(),
{
    joined_len(bufs);
    joined_len(bufs.take(i));
    if i + 1 < bufs.len() {
        let front = bufs.drop_last();
        joined_prefix(front, i, n);
        assert(front.take(i) =~= bufs.take(i));
        assert(front.take(i + 1) =~= bufs.take(i + 1));
        total_len_step(front, i);
        assert(joined(bufs).take(total_len(bufs.take(i)) + n) =~= joined(front).take(
            total_len(bufs.take(i)) + n,
        ));
    } else {
        assert(bufs.drop_last() =~= bufs.take(i));
        assert(joined(bufs).take(total_len(bufs.take(i)) + n) =~= joined(bufs.take(i))
            + bufs[i]@.take(n));
    }
}

/// The joined buffers are as long as the buffers together.
pub proof fn joined_len(bufs: Seq<IoSliceMut<'_>>)
    ensures
        joined(bufs).len() == total_len(bufs),
    decreases bufs.len(),
{
    if bufs.len() > 0 {
        joined_len(bufs.drop_last());
    }
}

/// The joined buffers are those before buffer `i`, that buffer, and those after it.
proof fn joined_cut(bufs: Seq<IoSliceMut<'_>>, i: int)
    requires
        0 <= i < bufs.len(),
    ensures
        joined(bufs) == joined(bufs.take(i)) + bufs[i]@ + joined(bufs.skip(i + 1)),
    decreases bufs.len(),
{
    if i + 1 < bufs.len() {
        let front = bufs.drop_last();
        joined_cut(front, i);
        assert(front.take(i) =~= bufs.take(i));
        assert(bufs.skip(i + 1).drop_last() =~= front.skip(i + 1));
        assert(joined(bufs) =~= joined(bufs.take(i)) + bufs[i]@ + joined(bufs.skip(i + 1)));
    } else {
        assert(bufs.drop_last() =~= bufs.take(i));
        assert(bufs.skip(i + 1) =~= Seq::empty());
        assert(joined(bufs) =~= joined(bufs.take(i)) + bufs[i]@ + joined(bufs.skip(i + 1)));
    }
}

/// Where the buffers before buffer `i` were filled, `read` bytes went into that buffer, and all else
/// is as before, the joined buffers hold what was read, followed by what they held before.
proof fn joined_after_read(
    start: StreamView,
    before: Seq<IoSliceMut<'_>>,
    after: Seq<IoSliceMut<'_>>,
    i: int,
    read: nat,
)
    requires
        same_lens(after, before),
        0 <= i < before.len(),
        read <= before[i]@.len(),
        joined(after.take(i)) == start.next(total_len(before.take(i))),
        after[i]@ == start.advance(total_len(before.take(i))).next(read) + before[i]@.skip(
            read as int,
        ),
        after.skip(i + 1) == before.skip(i + 1),
    ensures
        joined(after) == start.next(total_len(before.take(i)) + read) + joined(before).skip(
            total_len(before.take(i)) + read as int,
        ),
{
    joined_cut(before, i);
    joined_cut(after, i);
    joined_len(before.take(i));
    joined_len(after.take(i));
    stream::reads_join_up(start, total_len(before.take(i)), read);
    assert(joined(after) =~= start.next(total_len(before.take(i)) + read) + joined(before).skip(
        total_len(before.take(i)) + read as int,
    ));
}

/// Whether a vectored read that answered `res`, took a source from the state `pre` to the state `post`,
/// and its buffers from `before` to `after`, read into one buffer after the other, where `states[k]`
/// is the state before buffer `k`. `source` and `answers` are those of the source.
///
/// Each buffer but the last one is filled. The last one ends the read where it comes up short or
/// fails, and the buffers after it stay as they were.
pub open spec fn in_turn_through<'a, S: ?Sized>(
    states: Seq<&'a S>,
    pre: &'a S,
    post: &'a S,
    source: spec_fn(&'a S) -> StreamView,
    answers: spec_fn(&'a S, Seq<u8>, Reply, Seq<u8>, &'a S) -> bool,
    before: Seq<IoSliceMut<'_>>,
    after: Seq<IoSliceMut<'_>>,
    res: MediaResult<usize>,
) -> bool {
    // The number of buffers that were filled, and the number of bytes in them.
    let done = states.len() - 1;
    let got = total_len(before.take(done));
    &&& 0 <= done <= before.len()
    &&& states.first() == pre
    &&& forall|k: int|
        0 <= k < done ==> answers(
            states[k],
            (#[trigger] before[k])@,
            Ok(source(states[k]).next(before[k]@.len())),
            after[k]@,
            states[k + 1],
        )
    &&& source(pre).has(got)
    &&& forall|k: int|
        0 <= k <= done ==> source(#[trigger] states[k]) == source(pre).advance(
            total_len(before.take(k)),
        )
    &&& joined(after.take(done)) == source(pre).next(got)
    &&& {
        ||| {
            &&& done == before.len()
            &&& res is Ok
            &&& res->Ok_0 == got
            &&& states.last() == post
        }
        ||| {
            &&& done < before.len()
            &&& after.skip(done + 1) == before.skip(done + 1)
            &&& exists|last: Reply|
                {
                    &&& #[trigger] answers(
                        states.last(),
                        before[done]@,
                        last,
                        after[done]@,
                        post,
                    )
                    &&& match last {
                        Ok(data) => {
                            &&& data.len() < before[done]@.len()
                            &&& data == source(states.last()).next(data.len())
                            &&& res is Ok
                            &&& res->Ok_0 == got + data.len()
                        },
                        Err(err) => res is Err && res->Err_0 == err,
                    }
                }
        }
    }
}

/// Whether a vectored read read into one buffer after the other, as [`in_turn_through`] says, through
/// whatever states.
pub open spec fn in_turn<'a, S: ?Sized>(
    pre: &'a S,
    post: &'a S,
    source: spec_fn(&'a S) -> StreamView,
    answers: spec_fn(&'a S, Seq<u8>, Reply, Seq<u8>, &'a S) -> bool,
    before: Seq<IoSliceMut<'_>>,
    after: Seq<IoSliceMut<'_>>,
    res: MediaResult<usize>,
) -> bool {
    exists|states: Seq<&'a S>| #[trigger]
        in_turn_through(states, pre, post, source, answers, before, after, res)
}

/// Where every read of a source fills its buffer as far as the source goes, and leaves the rest of the
/// buffer alone, a vectored read does so with all buffers: it is the same as one read into one
/// contiguous buffer.
#[verifier::rlimit(60)]
pub proof fn vectored_read_is_one_contiguous_read<'a, S: ?Sized>(
    pre: &'a S,
    post: &'a S,
    source: spec_fn(&'a S) -> StreamView,
    answers: spec_fn(&'a S, Seq<u8>, Reply, Seq<u8>, &'a S) -> bool,
    before: Seq<IoSliceMut<'_>>,
    after: Seq<IoSliceMut<'_>>,
    res: MediaResult<usize>,
)
    requires
        in_turn(pre, post, source, answers, before, after, res),
        same_lens(after, before),
        forall|s: &'a S, buf: Seq<u8>, reply: Reply, filled: Seq<u8>, next: &'a S| #[trigger]
            answers(s, buf, reply, filled, next) ==> source(s).fills(buf, reply, filled),
    ensures
        source(pre).fills(
            joined(before),
            stream::reply(res, source(pre).next(res->Ok_0 as nat)),
            joined(after),
        ),
{
    let states = choose|states: Seq<&'a S>| #[trigger]
        in_turn_through(states, pre, post, source, answers, before, after, res);
    let done = states.len() - 1;
    let got = total_len(before.take(done));
    joined_len(before);
    joined_len(after);
    same_lens_same_total(after, before);
    assert(source(states.last()) == source(pre).advance(got));
    if done < before.len() {
        total_len_step(before, done);
        let last = choose|last: Reply|
            {
                &&& #[trigger] answers(states.last(), before[done]@, last, after[done]@, post)
                &&& match last {
                    Ok(data) => res is Ok && res->Ok_0 == got + data.len(),
                    Err(err) => res is Err && res->Err_0 == err,
                }
            };
        let read = last->Ok_0.len();
        assert(source(pre).advance(got).fills(before[done]@, last, after[done]@));
        joined_after_read(source(pre), before, after, done, read);
    } else {
        assert(before.take(done) =~= before);
        assert(after.take(done) =~= after);
        assert(joined(after) =~= source(pre).next(got) + joined(before).skip(got as int));
    }
}

/// The part of [`in_turn_through`] that speaks of the buffers that were filled, kept folded while the
/// buffers are read into.
#[verifier::opaque]
spec fn filled_so_far<'a, S: ?Sized>(
    states: Seq<&'a S>,
    pre: &'a S,
    source: spec_fn(&'a S) -> StreamView,
    answers: spec_fn(&'a S, Seq<u8>, Reply, Seq<u8>, &'a S) -> bool,
    before: Seq<IoSliceMut<'_>>,
    after: Seq<IoSliceMut<'_>>,
) -> bool {
    let done = states.len() - 1;
    &&& 0 <= done <= before.len()
    &&& states.first() == pre
    &&& forall|k: int|
        0 <= k < done ==> answers(
            states[k],
            (#[trigger] before[k])@,
            Ok(source(states[k]).next(before[k]@.len())),
            after[k]@,
            states[k + 1],
        )
    &&& forall|k: int|
        0 <= k <= done ==> source(#[trigger] states[k]) == source(pre).advance(
            total_len(before.take(k)),
        )
}

/// Before the first read, no buffer was filled.
proof fn nothing_filled<'a, S: ?Sized>(
    pre: &'a S,
    source: spec_fn(&'a S) -> StreamView,
    answers: spec_fn(&'a S, Seq<u8>, Reply, Seq<u8>, &'a S) -> bool,
    before: Seq<IoSliceMut<'_>>,
    after: Seq<IoSliceMut<'_>>,
)
    ensures
        filled_so_far(seq![pre], pre, source, answers, before, after),
{
    reveal(filled_so_far);
    assert(total_len(before.take(0)) == 0);
}

/// What happens to the buffers that were not filled yet does not matter.
proof fn filled_buffers_stay<'a, S: ?Sized>(
    states: Seq<&'a S>,
    pre: &'a S,
    source: spec_fn(&'a S) -> StreamView,
    answers: spec_fn(&'a S, Seq<u8>, Reply, Seq<u8>, &'a S) -> bool,
    before: Seq<IoSliceMut<'_>>,
    after: Seq<IoSliceMut<'_>>,
    now: Seq<IoSliceMut<'_>>,
)
    requires
        filled_so_far(states, pre, source, answers, before, after),
        forall|k: int| 0 <= k < states.len() - 1 ==> #[trigger] now[k] == after[k],
    ensures
        filled_so_far(states, pre, source, answers, before, now),
{
    reveal(filled_so_far);
}

/// A buffer that is filled adds to those that were.
proof fn one_more_filled<'a, S: ?Sized>(
    states: Seq<&'a S>,
    pre: &'a S,
    post: &'a S,
    source: spec_fn(&'a S) -> StreamView,
    answers: spec_fn(&'a S, Seq<u8>, Reply, Seq<u8>, &'a S) -> bool,
    before: Seq<IoSliceMut<'_>>,
    after: Seq<IoSliceMut<'_>>,
    i: int,
)
    requires
        filled_so_far(states, pre, source, answers, before, after),
        states.len() == i + 1,
        0 <= i < before.len(),
        answers(
            states.last(),
            before[i]@,
            Ok(source(states.last()).next(before[i]@.len())),
            after[i]@,
            post,
        ),
        source(post) == source(pre).advance(total_len(before.take(i + 1))),
    ensures
        filled_so_far(states.push(post), pre, source, answers, before, after),
{
    reveal(filled_so_far);
    let all = states.push(post);
    assert forall|k: int| 0 <= k < i + 1 implies answers(
        all[k],
        (#[trigger] before[k])@,
        Ok(source(all[k]).next(before[k]@.len())),
        after[k]@,
        all[k + 1],
    ) by {
        assert(all[k] == states[k]);
        if k < i {
            assert(all[k + 1] == states[k + 1]);
        }
    }
    assert forall|k: int| 0 <= k <= i + 1 implies source(#[trigger] all[k]) == source(pre).advance(
        total_len(before.take(k)),
    ) by {
        if k <= i {
            assert(all[k] == states[k]);
        }
    }
}

/// `MediaSource` is an abstraction over a source of media bytes such as a file, an in-memory
/// buffer, or a network stream.
///
/// Despite every source implementing the seek method, seeking is an optional capability that can be
/// queried at runtime with [`MediaSource::is_seekable`].
///
/// An implementation says what it reads in `source` and `answers`. One that leaves them out can be
/// compiled, but does not meet the contracts, and nothing that is proved through this trait holds of
/// it.
pub trait MediaSource {
    /// The bytes of the source, and the position up to which they were read.
    open spec fn source(&self) -> StreamView {
        arbitrary()
    }

    /// Whether a call of [`MediaSource::read`] with a buffer that holds `before`, made in this state,
    /// may be answered with `reply`, and leave `after` in the buffer and the state `post`.
    open spec fn answers(
        &self,
        before: Seq<u8>,
        reply: Reply,
        after: Seq<u8>,
        post: &Self,
    ) -> bool {
        true
    }

    /// Returns if the source is seekable. This may be an expensive operation.
    fn is_seekable(&self) -> bool;

    /// Returns the length in bytes, if available. This may be an expensive operation.
    fn byte_len(&self) -> (len: Option<u64>)
        ensures
            len matches Some(n) ==> n == self.source().bytes.len(),
    ;

    /// Reads bytes from the source into `buf`, returning the number of bytes read.
    fn read(&mut self, buf: &mut [u8]) -> (res: MediaResult<usize>)
        ensures
            final(buf)@.len() == old(buf)@.len(),
            final(self).source().bytes == old(self).source().bytes,
            res matches Ok(n) ==> {
                &&& n <= old(buf)@.len()
                &&& old(self).source().took(n as nat, res, final(self).source())
                &&& final(buf)@.take(n as int) == old(self).source().next(n as nat)
            },
            old(self).answers(
                old(buf)@,
                stream::reply(res, old(self).source().next(res->Ok_0 as nat)),
                final(buf)@,
                &*final(self),
            ),
    ;

    /// Returns `true` if the source implements vectored reads.
    fn is_read_vectored(&self) -> (vectored: bool)
        default_ensures
            !vectored,
    {
        false
    }

    /// Reads bytes from the source into the provided buffers, returning the total number of bytes
    /// read.
    ///
    /// The default implementation reads into each buffer sequentially.
    #[verifier::rlimit(30)]
    fn read_vectored(&mut self, bufs: &mut [IoSliceMut<'_>]) -> (res: MediaResult<usize>)
        requires
            total_len(old(bufs)@) <= usize::MAX,
        ensures
            same_lens(final(bufs)@, old(bufs)@),
            forall|k: int|
                0 <= k < old(bufs)@.len() ==> final((#[trigger] final(bufs)@[k]).buf)@
                    == final(old(bufs)@[k].buf)@,
            final(self).source().bytes == old(self).source().bytes,
            res matches Ok(n) ==> {
                &&& n <= total_len(old(bufs)@)
                &&& old(self).source().took(n as nat, res, final(self).source())
                &&& joined(final(bufs)@).take(n as int) == old(self).source().next(n as nat)
            },
        default_ensures
            in_turn(
                &*old(self),
                &*final(self),
                |s: &Self| s.source(),
                |s: &Self, before: Seq<u8>, reply: Reply, after: Seq<u8>, post: &Self|
                    s.answers(before, reply, after, post),
                old(bufs)@,
                final(bufs)@,
                res,
            ),
            // Where every read fills the buffer as far as the source goes, so does the read into all
            // of them: it is the same as one read into one contiguous buffer.
            (forall|s: &Self, before: Seq<u8>, reply: Reply, after: Seq<u8>, post: &Self| #[trigger]
                s.answers(before, reply, after, post) ==> s.source().fills(before, reply, after))
                ==> old(self).source().fills(
                joined(old(bufs)@),
                stream::reply(res, old(self).source().next(res->Ok_0 as nat)),
                joined(final(bufs)@),
            ),
    {
        let mut total_read: usize = 0;
        let mut i: usize = 0;
        let ghost start = self.source();
        let ghost before = bufs@;
        let ghost mut states: Seq<&Self> = seq![&*self];
        let ghost source = |s: &Self| s.source();
        let ghost answers = |
            s: &Self,
            before: Seq<u8>,
            reply: Reply,
            after: Seq<u8>,
            post: &Self,
        | s.answers(before, reply, after, post);
        proof {
            nothing_filled(&*self, source, answers, before, bufs@);
        }
        while i < bufs.len()
            invariant
                i <= bufs@.len(),
                before == old(bufs)@,
                start == old(self).source(),
                same_lens(bufs@, before),
                forall|k: int|
                    0 <= k < before.len() ==> final((#[trigger] bufs@[k]).buf)@
                        == final(before[k].buf)@,
                bufs@.skip(i as int) == before.skip(i as int),
                total_read == total_len(before.take(i as int)),
                total_len(before) <= usize::MAX,
                start.has(total_read as nat),
                self.source() == start.advance(total_read as nat),
                joined(bufs@.take(i as int)) == start.next(total_read as nat),
                states.len() == i + 1,
                states.first() == &*old(self),
                states.last() == &*self,
                source == (|s: &Self| s.source()),
                answers == (|
                    s: &Self,
                    before: Seq<u8>,
                    reply: Reply,
                    after: Seq<u8>,
                    post: &Self,
                | s.answers(before, reply, after, post)),
                filled_so_far(states, &*old(self), source, answers, before, bufs@),
            decreases bufs.len() - i,
        {
            let ghost pre: &Self = &*self;
            let ghost prev = bufs@;
            proof {
                total_len_step(before, i as int);
                assert(bufs@.skip(i as int)[0] == before.skip(i as int)[0]);
            }
            let buf = &mut bufs[i];
            let len = buf.len();
            let res: MediaResult<usize> = self.read(buf.as_mut_slice());
            proof {
                let part = stream::reply(res, pre.source().next(res->Ok_0 as nat));
                assert(answers(states.last(), before[i as int]@, part, bufs@[i as int]@, &*self));
                filled_buffers_stay(
                    states,
                    &*old(self),
                    source,
                    answers,
                    before,
                    prev,
                    bufs@,
                );
                assert(bufs@.take(i as int) =~= prev.take(i as int));
                assert(bufs@.skip(i + 1) =~= before.skip(i + 1)) by {
                    assert(prev.skip(i + 1) =~= prev.skip(i as int).skip(1));
                    assert(before.skip(i + 1) =~= before.skip(i as int).skip(1));
                }
            }
            let read: usize = match res {
                Ok(read) => read,
                Err(err) => {
                    proof {
                        let res: MediaResult<usize> = Err(err);
                        reveal(filled_so_far);
                        assert(in_turn_through(
                            states,
                            &*old(self),
                            &*self,
                            source,
                            answers,
                            before,
                            bufs@,
                            res,
                        ));
                    }
                    return Err(err);
                },
            };
            proof {
                stream::reads_join_up(start, total_read as nat, read as nat);
                joined_prefix(bufs@, i as int, read as int);
                same_lens_same_total(bufs@.take(i as int), before.take(i as int));
                same_lens_same_total(bufs@, before);
            }
            total_read = total_read + read;
            if read < len {
                proof {
                    let res: MediaResult<usize> = Ok(total_read);
                    reveal(filled_so_far);
                    assert(in_turn_through(
                        states,
                        &*old(self),
                        &*self,
                        source,
                        answers,
                        before,
                        bufs@,
                        res,
                    ));
                    if forall|s: &Self, buf: Seq<u8>, reply: Reply, filled: Seq<u8>, post: &Self| #[trigger]
                        answers(s, buf, reply, filled, post) ==> source(s).fills(buf, reply, filled) {
                        vectored_read_is_one_contiguous_read(
                            &*old(self),
                            &*self,
                            source,
                            answers,
                            before,
                            bufs@,
                            res,
                        );
                    }
                }
                return Ok(total_read);
            }
            proof {
                assert(bufs@.take(i + 1).drop_last() =~= bufs@.take(i as int));
                assert(bufs@[i as int]@.take(read as int) =~= bufs@[i as int]@);
                one_more_filled(
                    states,
                    &*old(self),
                    &*self,
                    source,
                    answers,
                    before,
                    bufs@,
                    i as int,
                );
                states = states.push(&*self);
            }
            i = i + 1;
        }
        proof {
            assert(bufs@.take(i as int) =~= bufs@);
            assert(before.take(i as int) =~= before);
            joined_len(bufs@);
            let res: MediaResult<usize> = Ok(total_read);
            reveal(filled_so_far);
            assert(in_turn_through(
                states,
                &*old(self),
                &*self,
                source,
                answers,
                before,
                bufs@,
                res,
            ));
            if forall|s: &Self, buf: Seq<u8>, reply: Reply, filled: Seq<u8>, post: &Self| #[trigger]
                answers(s, buf, reply, filled, post) ==> source(s).fills(buf, reply, filled) {
                vectored_read_is_one_contiguous_read(
                    &*old(self),
                    &*self,
                    source,
                    answers,
                    before,
                    bufs@,
                    res,
                );
            }
        }
        Ok(total_read)
    }

    /// Seeks the source to the specified position, returning the new position.
    fn seek(&mut self, pos: SeekFrom) -> (res: MediaResult<u64>)
        ensures
            final(self).source().bytes == old(self).source().bytes,
            res matches Ok(new_pos) ==> {
                &&& new_pos == final(self).source().position
                &&& new_pos == pos.target(
                    old(self).source().bytes.len(),
                    old(self).source().position,
                )
            },
    ;
}

/// `ReadOnlySource` wraps a reader in an unseekable source.
pub struct ReadOnlySource<R> {
    inner: R,
}

impl<R> ReadOnlySource<R> {
    /// The wrapped reader.
    pub closed spec fn reader(&self) -> R {
        self.inner
    }

    /// Instantiates a new `ReadOnlySource<R>` by taking ownership and wrapping the provided
    /// reader.
    pub fn new(inner: R) -> (source: Self)
        ensures
            source.reader() == inner,
    {
        ReadOnlySource { inner }
    }

    /// Gets a reference to the underlying reader.
    pub fn get_ref(&self) -> (inner: &R)
        ensures
            *inner == self.reader(),
    {
        &self.inner
    }

    /// Gets a mutable reference to the underlying reader.
    pub fn get_mut(&mut self) -> (inner: &mut R)
        ensures
            *inner == old(self).reader(),
            final(self).reader() == *final(inner),
    {
        &mut self.inner
    }

    /// Unwraps this `ReadOnlySource<R>`, returning the underlying reader.
    pub fn into_inner(self) -> (inner: R)
        ensures
            inner == self.reader(),
    {
        self.inner
    }

    /// Always returns false: what was read cannot be read again.
    pub fn is_seekable(&self) -> (seekable: bool)
        ensures
            !seekable,
    {
        false
    }

    /// Always returns `None`: the length of what a reader delivers is not known.
    pub fn byte_len(&self) -> (len: Option<u64>)
        ensures
            len is None,
    {
        None
    }

    /// Always fails, and leaves the reader as it is.
    pub fn seek(&mut self, _pos: std::io::SeekFrom) -> (res: Result<u64, std::io::Error>)
        ensures
            final(self).reader() == old(self).reader(),
            res is Err,
            error::io_error_kind(res->Err_0) == std::io::ErrorKind::Other,
            !error::io_error_wraps_another(res->Err_0),
            error::io_error_payload(res->Err_0) == Some("source does not support seeking"@),
    {
        Err(io_error_other("source does not support seeking"))
    }
}

/// `EmbeddedIoSource` wraps a source that reads and seeks through `embedded_io`.
pub struct EmbeddedIoSource<I> {
    inner: I,
}

impl<I> EmbeddedIoSource<I> {
    /// The wrapped source.
    pub closed spec fn wrapped(&self) -> I {
        self.inner
    }

    /// Instantiates a new `EmbeddedIoSource<I>` by taking ownership and wrapping the provided
    /// source.
    pub fn new(inner: I) -> (source: Self)
        ensures
            source.wrapped() == inner,
    {
        EmbeddedIoSource { inner }
    }

    /// Gets a reference to the underlying source.
    pub fn get_ref(&self) -> (inner: &I)
        ensures
            *inner == self.wrapped(),
    {
        &self.inner
    }

    /// Gets a mutable reference to the underlying source.
    pub fn get_mut(&mut self) -> (inner: &mut I)
        ensures
            *inner == old(self).wrapped(),
            final(self).wrapped() == *final(inner),
    {
        &mut self.inner
    }

    /// Unwraps this `EmbeddedIoSource<I>`, returning the underlying source.
    pub fn into_inner(self) -> (inner: I)
        ensures
            inner == self.wrapped(),
    {
        self.inner
    }

    /// Always returns true since the wrapped source seeks through `embedded_io`.
    pub fn is_seekable(&self) -> (seekable: bool)
        ensures
            seekable,
    {
        true
    }

    /// `embedded_io` does not expose a source length, so the length is unavailable.
    pub fn byte_len(&self) -> (len: Option<u64>)
        ensures
            len is None,
    {
        None
    }
}

/// Returns whether a file is seekable, given whether it is a regular file (i.e., not a FIFO, etc.),
/// if its metadata is available. Without metadata it is assumed that it is not.
pub fn file_is_seekable(is_regular_file: Option<bool>) -> (seekable: bool)
    ensures
        seekable <==> is_regular_file == Some(true),
{
    match is_regular_file {
        Some(is_file) => is_file,
        None => false,
    }
}

/// Returns the length in bytes of a source that holds `data` in memory.
pub fn memory_byte_len(data: &[u8]) -> (len: Option<u64>)
    ensures
        len is Some,
        len->0 == data@.len(),
{
    Some(data.len() as u64)
}

/// The length of all buffers is the sum of their lengths, and the joined buffers hold the bytes of each
/// buffer, one buffer after the other.
pub proof fn joined_buffers_lie_end_to_end(bufs: Seq<IoSliceMut<'_>>, i: int, j: int)
    requires
        0 <= i < bufs.len(),
        0 <= j < bufs[i]@.len(),
    ensures
        total_len(bufs.take(0)) == 0,
        total_len(bufs.take(i + 1)) == total_len(bufs.take(i)) + bufs[i]@.len(),
        total_len(bufs.take(bufs.len() as int)) == total_len(bufs),
        joined(bufs).len() == total_len(bufs),
        joined(bufs)[total_len(bufs.take(i)) + j] == bufs[i]@[j],
{
    total_len_step(bufs, i);
    joined_cut(bufs, i);
    joined_len(bufs);
    joined_len(bufs.take(i));
    assert(bufs.take(bufs.len() as int) =~= bufs);
}

/// A vectored read without buffers reads nothing, and leaves the source alone.
pub proof fn a_vectored_read_without_buffers_is_empty<'a, S: ?Sized>(
    pre: &'a S,
    post: &'a S,
    source: spec_fn(&'a S) -> StreamView,
    answers: spec_fn(&'a S, Seq<u8>, Reply, Seq<u8>, &'a S) -> bool,
    before: Seq<IoSliceMut<'_>>,
    after: Seq<IoSliceMut<'_>>,
    res: MediaResult<usize>,
)
    requires
        in_turn(pre, post, source, answers, before, after, res),
        before.len() == 0,
    ensures
        res is Ok,
        res->Ok_0 == 0,
        post == pre,
{
}

/// What lies in the first buffers is what lies in the very first one and in those after it.
proof fn total_len_of_rest(bufs: Seq<IoSliceMut<'_>>, k: int)
    requires
        0 < k <= bufs.len(),
    ensures
        total_len(bufs.take(k)) == bufs[0]@.len() + total_len(bufs.skip(1).take(k - 1)),
        joined(bufs.take(k)) == bufs[0]@ + joined(bufs.skip(1).take(k - 1)),
{
    joined_cut(bufs.take(k), 0);
    joined_len(bufs.take(k));
    joined_len(bufs.skip(1).take(k - 1));
    assert(bufs.take(k).take(0) =~= Seq::empty());
    assert(bufs.take(k).skip(1) =~= bufs.skip(1).take(k - 1));
    assert(joined(bufs.take(k)) =~= bufs[0]@ + joined(bufs.skip(1).take(k - 1)));
}

/// Where the first buffer was filled, the rest is a vectored read into the other buffers.
#[verifier::rlimit(60)]
proof fn rest_in_turn<'a, S: ?Sized>(
    states: Seq<&'a S>,
    pre: &'a S,
    post: &'a S,
    source: spec_fn(&'a S) -> StreamView,
    answers: spec_fn(&'a S, Seq<u8>, Reply, Seq<u8>, &'a S) -> bool,
    before: Seq<IoSliceMut<'_>>,
    after: Seq<IoSliceMut<'_>>,
    res: MediaResult<usize>,
)
    requires
        in_turn_through(states, pre, post, source, answers, before, after, res),
        same_lens(after, before),
        states.len() > 1,
    ensures
        answers(
            pre,
            before[0]@,
            Ok(source(pre).next(before[0]@.len())),
            after[0]@,
            states[1],
        ),
        after[0]@ == source(pre).next(before[0]@.len()),
        source(states[1]) == source(pre).advance(before[0]@.len()),
        res is Ok ==> res->Ok_0 >= before[0]@.len(),
        in_turn_through(
            states.skip(1),
            states[1],
            post,
            source,
            answers,
            before.skip(1),
            after.skip(1),
            match res {
                Ok(n) => Ok((n - before[0]@.len()) as usize),
                Err(err) => Err(err),
            },
        ),
{
    let done = states.len() - 1;
    let len = before[0]@.len();
    let mid = states[1];
    let rest: MediaResult<usize> = match res {
        Ok(n) => Ok((n - len) as usize),
        Err(err) => Err(err),
    };
    let (rest_states, rest_before, rest_after) = (states.skip(1), before.skip(1), after.skip(1));
    let got = total_len(before.take(done));
    let rest_got = total_len(rest_before.take(done - 1));
    assert(answers(
        states[0],
        before[0]@,
        Ok(source(states[0]).next(len)),
        after[0]@,
        states[1],
    ));
    assert(source(states[0]) == source(pre));
    total_len_of_rest(before, 1);
    total_len_of_rest(before, done);
    total_len_of_rest(after, done);
    joined_len(after.take(done));
    joined_len(rest_after.take(done - 1));
    assert(rest_before.take(0) =~= Seq::empty());
    assert(source(mid) == source(pre).advance(len));
    assert(got == len + rest_got);
    assert(after[0]@ =~= source(pre).next(len)) by {
        assert(after[0]@.len() == len);
        assert(after[0]@ =~= joined(after.take(done)).take(len as int));
    }
    stream::reads_join_up(source(pre), len, rest_got);
    assert(joined(rest_after.take(done - 1)) =~= source(mid).next(rest_got)) by {
        assert(joined(rest_after.take(done - 1)) =~= joined(after.take(done)).skip(len as int));
    }
    assert(source(mid).has(rest_got));
    assert forall|k: int| 0 <= k < done - 1 implies answers(
        rest_states[k],
        (#[trigger] rest_before[k])@,
        Ok(source(rest_states[k]).next(rest_before[k]@.len())),
        rest_after[k]@,
        rest_states[k + 1],
    ) by {
        assert(rest_before[k] == before[k + 1]);
    }
    assert forall|k: int| 0 <= k <= done - 1 implies source(#[trigger] rest_states[k]) == source(
        mid,
    ).advance(total_len(rest_before.take(k))) by {
        assert(rest_states[k] == states[k + 1]);
        total_len_of_rest(before, k + 1);
    }
    assert(rest_states.last() == states.last());
    if done < before.len() {
        assert(rest_after.skip(done) =~= after.skip(done + 1));
        assert(rest_before.skip(done) =~= before.skip(done + 1));
        assert(rest_before[done - 1] == before[done]);
        assert(rest_after[done - 1] == after[done]);
        let last = choose|last: Reply|
            {
                &&& #[trigger] answers(states.last(), before[done]@, last, after[done]@, post)
                &&& match last {
                    Ok(data) => {
                        &&& data.len() < before[done]@.len()
                        &&& data == source(states.last()).next(data.len())
                        &&& res is Ok
                        &&& res->Ok_0 == got + data.len()
                    },
                    Err(err) => res is Err && res->Err_0 == err,
                }
            };
        assert(answers(
            rest_states.last(),
            rest_before[done - 1]@,
            last,
            rest_after[done - 1]@,
            post,
        ));
    }
}

/// A vectored read reads into its first buffer. Where that read fails, so does the vectored read, with
/// the same error, and where it comes up short, nothing more is read; the other buffers then stay as
/// they were. Where it fills the buffer, the rest is a vectored read into the other buffers, from the
/// state that the first read left.
#[verifier::rlimit(60)]
pub proof fn a_vectored_read_is_a_read_and_the_rest<'a, S: ?Sized>(
    pre: &'a S,
    post: &'a S,
    source: spec_fn(&'a S) -> StreamView,
    answers: spec_fn(&'a S, Seq<u8>, Reply, Seq<u8>, &'a S) -> bool,
    before: Seq<IoSliceMut<'_>>,
    after: Seq<IoSliceMut<'_>>,
    res: MediaResult<usize>,
)
    requires
        in_turn(pre, post, source, answers, before, after, res),
        same_lens(after, before),
        before.len() > 0,
    ensures
        exists|first: Reply, mid: &'a S|
            {
                &&& #[trigger] answers(pre, before[0]@, first, after[0]@, mid)
                &&& match first {
                    Err(err) => {
                        &&& res is Err
                        &&& res->Err_0 == err
                        &&& mid == post
                        &&& after.skip(1) == before.skip(1)
                    },
                    Ok(data) => {
                        &&& data.len() <= before[0]@.len()
                        &&& data == source(pre).next(data.len())
                        &&& data.len() < before[0]@.len() ==> {
                            &&& res is Ok
                            &&& res->Ok_0 == data.len()
                            &&& mid == post
                            &&& after.skip(1) == before.skip(1)
                        }
                        &&& data.len() == before[0]@.len() ==> {
                            &&& after[0]@ == data
                            &&& source(mid).bytes == source(pre).bytes
                            &&& source(mid).position == source(pre).position + data.len()
                            &&& res is Ok ==> res->Ok_0 >= data.len()
                            &&& in_turn(
                                mid,
                                post,
                                source,
                                answers,
                                before.skip(1),
                                after.skip(1),
                                match res {
                                    Ok(n) => Ok((n - data.len()) as usize),
                                    Err(err) => Err(err),
                                },
                            )
                        }
                    },
                }
            },
{
    let states = choose|states: Seq<&'a S>| #[trigger]
        in_turn_through(states, pre, post, source, answers, before, after, res);
    let done = states.len() - 1;
    let len = before[0]@.len();
    assert(total_len(before.take(0)) == 0);
    if done == 0 {
        let last = choose|last: Reply|
            {
                &&& #[trigger] answers(states.last(), before[0]@, last, after[0]@, post)
                &&& match last {
                    Ok(data) => {
                        &&& data.len() < before[0]@.len()
                        &&& data == source(states.last()).next(data.len())
                        &&& res is Ok
                        &&& res->Ok_0 == data.len()
                    },
                    Err(err) => res is Err && res->Err_0 == err,
                }
            };
        assert(answers(pre, before[0]@, last, after[0]@, post));
        if last is Ok {
            assert(source(states[0]) == source(pre));
        }
    } else {
        rest_in_turn(states, pre, post, source, answers, before, after, res);
        assert(answers(pre, before[0]@, Ok(source(pre).next(len)), after[0]@, states[1]));
    }
}

/// A source that wraps a reader hands that reader out, and gives it back. It never seeks, and tells no
/// length.
pub proof fn a_read_only_source_is_its_reader<R>(
    inner: R,
    source: ReadOnlySource<R>,
    shared: &R,
    back: R,
    seekable: bool,
    len: Option<u64>,
    pos: std::io::SeekFrom,
    res: Result<u64, std::io::Error>,
)
    requires
        call_ensures(ReadOnlySource::<R>::new, (inner,), source),
        call_ensures(ReadOnlySource::<R>::get_ref, (&source,), shared),
        call_ensures(ReadOnlySource::<R>::into_inner, (source,), back),
        call_ensures(ReadOnlySource::<R>::is_seekable, (&source,), seekable),
        call_ensures(ReadOnlySource::<R>::byte_len, (&source,), len),
    ensures
        *shared == inner,
        back == inner,
        !seekable,
        len is None,
        forall|s: &mut ReadOnlySource<R>| #[trigger]
            call_ensures(ReadOnlySource::<R>::seek, (s, pos), res) ==> res is Err
                && error::io_error_kind(res->Err_0) == std::io::ErrorKind::Other
                && error::io_error_payload(res->Err_0) == Some("source does not support seeking"@)
                && final(s).reader() == s.reader(),
        forall|s: &mut ReadOnlySource<R>, r: &mut R| #[trigger]
            call_ensures(ReadOnlySource::<R>::get_mut, (s,), r) ==> *r == s.reader()
                && final(s).reader() == *final(r),
{
}

/// A source that wraps an `embedded_io` source hands that source out, and gives it back. It seeks, and
/// tells no length.
pub proof fn an_embedded_source_is_what_it_wraps<I>(
    inner: I,
    source: EmbeddedIoSource<I>,
    shared: &I,
    back: I,
    seekable: bool,
    len: Option<u64>,
)
    requires
        call_ensures(EmbeddedIoSource::<I>::new, (inner,), source),
        call_ensures(EmbeddedIoSource::<I>::get_ref, (&source,), shared),
        call_ensures(EmbeddedIoSource::<I>::into_inner, (source,), back),
        call_ensures(EmbeddedIoSource::<I>::is_seekable, (&source,), seekable),
        call_ensures(EmbeddedIoSource::<I>::byte_len, (&source,), len),
    ensures
        *shared == inner,
        back == inner,
        seekable,
        len is None,
        forall|s: &mut EmbeddedIoSource<I>, r: &mut I| #[trigger]
            call_ensures(EmbeddedIoSource::<I>::get_mut, (s,), r) ==> *r == s.wrapped()
                && final(s).wrapped() == *final(r),
{
}

/// A file is seekable only where it is known to be a regular one, and memory is as long as its bytes.
pub proof fn files_and_memory_are_what_they_are(
    is_regular_file: Option<bool>,
    seekable: bool,
    data: &[u8],
    len: Option<u64>,
)
    ensures
        call_ensures(file_is_seekable, (is_regular_file,), seekable) ==> (seekable <==> (
        is_regular_file matches Some(regular) && regular)),
        call_ensures(memory_byte_len, (data,), len) ==> (len matches Some(n) && n == data@.len()),
{
}

} // verus!

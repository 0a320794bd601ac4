//! How a read of untrusted length is cut into chunks.
//!
//! A buffer of the requested length is not allocated in one go. It grows by a chunk at a time, and
//! only after the chunks before it were filled. The first chunk is capped at 4 MB; from chunk to
//! chunk the cap doubles, up to 1 GB.

use crate::error::{MediaError, MediaErrorKind, MediaResult};
use crate::stream;
use std::collections::TryReserveError;
use vstd::prelude::*;

verus! {

/// The initial maximum amount of bytes to read: 4 MB.
///
/// Given a large enough requested read length, this serves as an upper bound on the size of the
/// buffer preallocation. A fairly liberal bound is chosen since valid reads that exceed it
/// reallocate the buffer at least once.
pub const INIT_MAX_READ_LEN: usize = 4 * 1024 * 1024;

/// The absolute maximum amount of bytes to read in one chunk: 1 GB.
pub const ABS_MAX_READ_LEN: usize = 1024 * 1024 * 1024;

/// The smaller one of two numbers.
pub open spec fn min(a: nat, b: nat) -> nat {
    if a <= b {
        a
    } else {
        b
    }
}

/// The largest length that chunk `i` may have.
pub open spec fn cap(i: nat) -> nat
    decreases i,
{
    if i == 0 {
        INIT_MAX_READ_LEN as nat
    } else {
        min(2 * cap((i - 1) as nat), ABS_MAX_READ_LEN as nat)
    }
}

/// How many of `len` bytes precede chunk `i`.
pub open spec fn start(len: nat, i: nat) -> nat
    decreases i,
{
    if i == 0 {
        0
    } else {
        let before = start(len, (i - 1) as nat);
        before + min(cap((i - 1) as nat), (len - before) as nat)
    }
}

/// The length of chunk `i` of `len` bytes. It is 0 once the chunks before it make up `len`.
pub open spec fn size(len: nat, i: nat) -> nat {
    min(cap(i), (len - start(len, i)) as nat)
}

/// The cap of a chunk lies between the initial and the absolute maximum.
pub proof fn cap_bounds(i: nat)
    ensures
        INIT_MAX_READ_LEN <= cap(i) <= ABS_MAX_READ_LEN,
    decreases i,
{
    if i > 0 {
        cap_bounds((i - 1) as nat);
    }
}

/// The chunks before any chunk never make up more than what was requested.
pub proof fn start_bound(len: nat, i: nat)
    ensures
        start(len, i) <= len,
    decreases i,
{
    if i > 0 {
        start_bound(len, (i - 1) as nat);
    }
}

/// A read of at most 4 MB is a single chunk, allocated at once.
pub proof fn small_read_is_one_chunk(len: nat)
    requires
        len <= INIT_MAX_READ_LEN,
    ensures
        size(len, 0) == len,
        start(len, 1) == len,
{
    reveal_with_fuel(start, 2);
}

/// However many bytes are requested, the buffer is grown by at most 1 GB at a time, and only to a
/// size that exceeds twice the bytes already read into it by no more than 4 MB.
pub proof fn growth_is_bounded_by_progress(len: nat, i: nat)
    ensures
        size(len, i) <= ABS_MAX_READ_LEN,
        start(len, i) + size(len, i) <= 2 * start(len, i) + INIT_MAX_READ_LEN,
{
    cap_bounds(i);
    start_bound(len, i);
    cap_is_bounded_by_start(len, i);
}

/// While bytes are missing, the cap of a chunk exceeds what precedes it by at most 4 MB.
proof fn cap_is_bounded_by_start(len: nat, i: nat)
    ensures
        start(len, i) < len ==> cap(i) <= start(len, i) + INIT_MAX_READ_LEN,
    decreases i,
{
    if i > 0 {
        cap_is_bounded_by_start(len, (i - 1) as nat);
        start_bound(len, (i - 1) as nat);
        cap_bounds((i - 1) as nat);
    }
}

/// Each chunk but the last one adds at least 4 MB.
proof fn start_progress(len: nat, i: nat)
    ensures
        start(len, i) == len || start(len, i) >= 0x40_0000 * i,
    decreases i,
{
    if i > 0 {
        let j = (i - 1) as nat;
        start_progress(len, j);
        start_bound(len, j);
        cap_bounds(j);
    }
}

/// The chunks make up all bytes that are requested, with one chunk for each 4 MB and one more at
/// the most.
pub proof fn chunks_make_up_the_read(len: nat)
    ensures
        start(len, len / 0x40_0000 + 1) == len,
{
    let n = len / 0x40_0000 + 1;
    start_progress(len, n);
    start_bound(len, n);
}

/// Whether `Vec::try_reserve_exact`, called on a vector of `len` bytes for `additional` more, may
/// succeed (`ok`) or fail (`!ok`). Which of the two it does is up to the allocator.
pub uninterp spec fn reserve_answers(len: nat, additional: nat, ok: bool) -> bool;

/// Calls `Vec::try_reserve_exact`, which tries to reserve room for `additional` more bytes and keeps
/// the contents in either case. It fails where the capacity would exceed what a vector can have,
/// which is `isize::MAX` bytes, and where the allocator fails. When the allocator does so is left
/// unsaid.
#[verifier::external_body]
pub(crate) fn try_reserve_bytes(buf: &mut Vec<u8>, additional: usize) -> (res: Result<
    (),
    TryReserveError,
>)
    ensures
        final(buf)@ == old(buf)@,
        res is Ok ==> old(buf)@.len() + additional <= isize::MAX,
        reserve_answers(old(buf)@.len(), additional as nat, res is Ok),
{
    buf.try_reserve_exact(additional)
}

/// Grows `buf` by `additional` bytes, initialized to 0, given whether room for them could be
/// reserved. Returns an error instead of panicing where it could not.
pub fn grow(
    buf: &mut Vec<u8>,
    additional: usize,
    reserved: Result<(), TryReserveError>,
) -> (res: MediaResult<()>)
    requires
        reserved is Ok ==> old(buf)@.len() + additional <= isize::MAX,
    ensures
        res is Ok <==> reserved is Ok,
        res is Ok ==> final(buf)@ == old(buf)@ + stream::zeros(additional as nat),
        res matches Err(err) ==> {
            &&& err.is_plain(MediaErrorKind::Message("failed to allocate read buffer"))
            &&& final(buf)@ == old(buf)@
        },
{
    if reserved.is_err() {
        return Err(MediaError::message("failed to allocate read buffer"));
    }
    let len = buf.len();
    buf.resize(len + additional, 0);
    Ok(())
}

/// Calls `Vec::into_boxed_slice`, which turns a vector into a boxed slice with the same contents.
#[verifier::external_body]
pub(crate) fn into_boxed_bytes(buf: Vec<u8>) -> (boxed: Box<[u8]>)
    ensures
        boxed@ == buf@,
{
    buf.into_boxed_slice()
}

/// The cap starts at 4 MB, doubles from chunk to chunk, and ends at 1 GB.
pub proof fn cap_doubles(i: nat)
    ensures
        0x40_0000 * vstd::arithmetic::power::pow(2, i) <= 0x4000_0000 ==> cap(i) == 0x40_0000
            * vstd::arithmetic::power::pow(2, i),
        0x40_0000 * vstd::arithmetic::power::pow(2, i) >= 0x4000_0000 ==> cap(i) == 0x4000_0000,
    decreases i,
{
    vstd::arithmetic::power::lemma_pow0(2);
    if i > 0 {
        cap_doubles((i - 1) as nat);
        vstd::arithmetic::power::lemma_pow_adds(2, 1, (i - 1) as nat);
        vstd::arithmetic::power::lemma_pow1(2);
    }
}

/// The chunks lie end to end, from the first byte on. Each is as long as its cap, or as the bytes that
/// are left where those are fewer.
pub proof fn chunks_lie_end_to_end(len: nat, i: nat)
    ensures
        start(len, 0) == 0,
        start(len, i + 1) == start(len, i) + size(len, i),
        len - start(len, i) >= cap(i) ==> size(len, i) == cap(i),
        len - start(len, i) <= cap(i) ==> size(len, i) == len - start(len, i),
{
    start_bound(len, i);
}

/// Growing a buffer keeps what it holds, and adds as many zeros as were asked for. It fails where no
/// room could be reserved, and only there, and then it adds nothing.
pub proof fn growing_adds_zeros(
    additional: usize,
    reserved: Result<(), TryReserveError>,
    res: MediaResult<()>,
)
    ensures
        forall|buf: &mut Vec<u8>| #[trigger]
            call_ensures(grow, (buf, additional, reserved), res) ==> {
                &&& res is Ok <==> reserved is Ok
                &&& final(buf)@.len() == buf@.len() + if reserved is Ok {
                    additional as int
                } else {
                    0
                }
                &&& forall|k: int|
                    0 <= k < final(buf)@.len() ==> #[trigger] final(buf)@[k] == if k < buf@.len() {
                        buf@[k]
                    } else {
                        0
                    }
                &&& res matches Err(err) ==> err.spec_kind() == MediaErrorKind::Message(
                    "failed to allocate read buffer",
                )
            },
{
}

} // verus!

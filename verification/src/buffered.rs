//! Streams that can seek within what they have buffered, and streams of known length.

use vstd::prelude::*;

verus! {

/// The buffered portion of a stream, around its position.
pub struct SeekWindow {
    /// The position in the stream.
    pub position: int,
    /// How many bytes before the position are buffered. These were read already.
    pub behind: int,
    /// How many bytes after the position are buffered. These were not read yet.
    pub ahead: int,
}

impl SeekWindow {
    /// Whether the absolute position `pos` lies within the buffered portion.
    pub open spec fn holds(self, pos: int) -> bool {
        self.position - self.behind <= pos <= self.position + self.ahead
    }

    /// `delta` clamped to the distances that can be seeked within the buffered portion.
    pub open spec fn clamp(self, delta: int) -> int {
        if delta < -self.behind {
            -self.behind
        } else if delta > self.ahead {
            self.ahead
        } else {
            delta
        }
    }

    /// The window after the position was moved by `delta`, as far as the buffered portion goes.
    pub open spec fn moved(self, delta: int) -> SeekWindow {
        let step = self.clamp(delta);
        SeekWindow {
            position: self.position + step,
            behind: self.behind + step,
            ahead: self.ahead - step,
        }
    }

    /// Whether `self` and `other` are the same buffered portion, at whatever position in it.
    pub open spec fn same_portion(self, other: SeekWindow) -> bool {
        &&& self.position - self.behind == other.position - other.behind
        &&& self.position + self.ahead == other.position + other.ahead
    }

    /// Whether all that `kept` asks for is buffered.
    pub open spec fn keeps(self, kept: Seekback) -> bool {
        &&& self.position <= kept.reached
        &&& {
            ||| self.position - self.behind <= kept.from
            ||| self.position - self.behind <= kept.reached - kept.len
        }
    }
}

/// What a stream keeps for backwards seeking: of the bytes between two positions, the last ones.
pub struct Seekback {
    /// How many bytes are kept.
    pub len: nat,
    /// The position from which on bytes are kept. Those before it may be gone already.
    pub from: int,
    /// The furthest position that the stream was at.
    pub reached: int,
}

impl Seekback {
    /// What is kept once the stream was at the position `pos`, too.
    pub open spec fn reach(self, pos: int) -> Seekback {
        if pos > self.reached {
            Seekback { reached: pos, ..self }
        } else {
            self
        }
    }
}

/// A call of one of the methods of [`SeekBuffered`] that change the stream.
pub enum SeekCall {
    /// `ensure_seekback_buffer` with the given length.
    Ensure(usize),
    /// `seek_buffered` to the given position.
    To(u64),
    /// `seek_buffered_rel` by the given distance, after it was clamped.
    By(int),
}

/// `SeekBuffered` provides methods to seek within the buffered portion of a stream.
///
/// An implementation says what it has buffered in `window` and `seekback`, and how it seeks in
/// `answers_seek`. One that leaves them out can be compiled, but does not meet the contracts, and
/// nothing that is proved through this trait holds of it.
pub trait SeekBuffered {
    /// The buffered portion of the stream, around its position.
    open spec fn window(&self) -> SeekWindow {
        arbitrary()
    }

    /// What the stream keeps for backwards seeking.
    open spec fn seekback(&self) -> Seekback {
        arbitrary()
    }

    /// Whether `call`, made in this state, may return `reply` and leave the state `post`.
    open spec fn answers_seek(&self, call: SeekCall, reply: Option<u64>, post: &Self) -> bool {
        true
    }

    /// Ensures that `len` bytes will be available for backwards seeking if `len` bytes have been
    /// previously read.
    fn ensure_seekback_buffer(&mut self, len: usize)
        ensures
            final(self).window().position == old(self).window().position,
            final(self).window().keeps(final(self).seekback()),
            final(self).seekback().len >= len,
            final(self).seekback().len >= old(self).seekback().len,
            final(self).seekback().from <= old(self).window().position - old(self).window().behind,
            final(self).seekback().reached == old(self).seekback().reached,
            old(self).answers_seek(SeekCall::Ensure(len), None, &*final(self)),
    ;

    /// Get the number of bytes buffered but not yet read.
    ///
    /// Note: This is the maximum number of bytes that can be seeked forwards within the buffer.
    fn unread_buffer_len(&self) -> (len: usize)
        ensures
            len == self.window().ahead,
    ;

    /// Gets the number of bytes buffered and read.
    ///
    /// Note: This is the maximum number of bytes that can be seeked backwards within the buffer.
    fn read_buffer_len(&self) -> (len: usize)
        ensures
            len == self.window().behind,
            self.window().keeps(self.seekback()),
    ;

    /// Seek within the buffered data to an absolute position in the stream. Returns the position
    /// seeked to.
    fn seek_buffered(&mut self, pos: u64) -> (new_pos: u64)
        ensures
            new_pos == final(self).window().position,
            final(self).window().same_portion(old(self).window()),
            old(self).window().holds(pos as int) ==> new_pos == pos,
            final(self).seekback() == old(self).seekback().reach(new_pos as int),
            old(self).answers_seek(SeekCall::To(pos), Some(new_pos), &*final(self)),
    ;

    /// Seek within the buffered data relative to the current position in the stream. Returns the
    /// position seeked to.
    ///
    /// The range of `delta` is clamped to the inclusive range defined by
    /// `-read_buffer_len()..=unread_buffer_len()`.
    fn seek_buffered_rel(&mut self, delta: isize) -> (new_pos: u64)
        ensures
            new_pos == final(self).window().position,
            final(self).window() == old(self).window().moved(delta as int),
            final(self).seekback() == old(self).seekback().reach(new_pos as int),
            old(self).answers_seek(
                SeekCall::By(old(self).window().clamp(delta as int)),
                Some(new_pos),
                &*final(self),
            ),
    ;

    /// Seek backwards within the buffered data.
    ///
    /// This function is identical to [`SeekBuffered::seek_buffered_rel`] when a negative delta is
    /// provided.
    fn seek_buffered_rev(&mut self, delta: usize)
        requires
            delta < isize::MAX,
        ensures
            final(self).window() == old(self).window().moved(-(delta as int)),
            final(self).seekback() == old(self).seekback().reach(final(self).window().position),
            exists|new_pos: u64|
                new_pos == final(self).window().position && #[trigger] old(self).answers_seek(
                    SeekCall::By(old(self).window().clamp(-(delta as int))),
                    Some(new_pos),
                    &*final(self),
                ),
    {
        self.seek_buffered_rel(-(delta as isize));
    }
}

impl<S: SeekBuffered> SeekBuffered for &mut S {
    open spec fn window(&self) -> SeekWindow {
        (**self).window()
    }

    open spec fn seekback(&self) -> Seekback {
        (**self).seekback()
    }

    open spec fn answers_seek(&self, call: SeekCall, reply: Option<u64>, post: &Self) -> bool {
        (**self).answers_seek(call, reply, &**post)
    }

    fn ensure_seekback_buffer(&mut self, len: usize) {
        (**self).ensure_seekback_buffer(len)
    }

    fn unread_buffer_len(&self) -> (len: usize) {
        (**self).unread_buffer_len()
    }

    fn read_buffer_len(&self) -> (len: usize) {
        (**self).read_buffer_len()
    }

    fn seek_buffered(&mut self, pos: u64) -> (new_pos: u64) {
        (**self).seek_buffered(pos)
    }

    fn seek_buffered_rel(&mut self, delta: isize) -> (new_pos: u64) {
        (**self).seek_buffered_rel(delta)
    }
}

/// A `FiniteStream` is a stream that has a known length in bytes.
///
/// An implementation says what its lengths are in the specification functions. One that leaves them
/// out can be compiled, but does not meet the contracts, and nothing that is proved through this trait
/// holds of it.
pub trait FiniteStream {
    /// The length of the stream in bytes.
    open spec fn spec_byte_len(&self) -> u64 {
        arbitrary()
    }

    /// The number of bytes that have been read.
    open spec fn spec_bytes_read(&self) -> u64 {
        arbitrary()
    }

    /// The number of bytes available for reading.
    open spec fn spec_bytes_available(&self) -> u64 {
        arbitrary()
    }

    /// Returns the length of the stream in bytes.
    fn byte_len(&self) -> (len: u64)
        ensures
            len == self.spec_byte_len(),
    ;

    /// Returns the number of bytes that have been read.
    fn bytes_read(&self) -> (len: u64)
        ensures
            len == self.spec_bytes_read(),
    ;

    /// Returns the number of bytes available for reading.
    fn bytes_available(&self) -> (len: u64)
        ensures
            len == self.spec_bytes_available(),
    ;
}

impl<F: FiniteStream> FiniteStream for &mut F {
    open spec fn spec_byte_len(&self) -> u64 {
        (**self).spec_byte_len()
    }

    open spec fn spec_bytes_read(&self) -> u64 {
        (**self).spec_bytes_read()
    }

    open spec fn spec_bytes_available(&self) -> u64 {
        (**self).spec_bytes_available()
    }

    fn byte_len(&self) -> (len: u64) {
        (**self).byte_len()
    }

    fn bytes_read(&self) -> (len: u64) {
        (**self).bytes_read()
    }

    fn bytes_available(&self) -> (len: u64) {
        (**self).bytes_available()
    }
}

/// Seeking stays within what is buffered, and changes nothing about what is buffered. What can be
/// seeked backwards grows by the distance, and what can be seeked forwards shrinks by it.
pub proof fn seeking_keeps_the_buffered_portion(window: SeekWindow, delta: int)
    requires
        window.behind >= 0,
        window.ahead >= 0,
    ensures
        window.moved(delta).same_portion(window),
        window.holds(window.moved(delta).position),
        window.moved(delta).behind == window.behind + window.clamp(delta),
        window.moved(delta).ahead == window.ahead - window.clamp(delta),
        window.moved(delta).behind >= 0,
        window.moved(delta).ahead >= 0,
{
}

/// A seek by a distance is the same as a seek by that distance clamped to what is buffered.
pub proof fn seeking_is_clamped(window: SeekWindow, delta: int)
    requires
        window.behind >= 0,
        window.ahead >= 0,
    ensures
        -window.behind <= window.clamp(delta) <= window.ahead,
        window.clamp(window.clamp(delta)) == window.clamp(delta),
        window.moved(window.clamp(delta)) == window.moved(delta),
        -window.behind <= delta <= window.ahead ==> window.clamp(delta) == delta,
{
}

/// A seek by a distance that the buffered portion allows is undone by a seek by the opposite
/// distance.
pub proof fn seeking_back_undoes_a_seek(window: SeekWindow, delta: int)
    requires
        window.behind >= 0,
        window.ahead >= 0,
        -window.behind <= delta <= window.ahead,
    ensures
        window.moved(delta).position == window.position + delta,
        window.moved(delta).moved(-delta) == window,
{
}

/// A seek backwards goes back by `delta` bytes, or to the start of what is buffered where fewer
/// bytes are.
pub proof fn seeking_backwards_is_clamped(window: SeekWindow, delta: int)
    requires
        delta >= 0,
        window.behind >= 0,
        window.ahead >= 0,
    ensures
        delta <= window.behind ==> window.moved(-delta).position == window.position - delta,
        delta > window.behind ==> window.moved(-delta).position == window.position - window.behind,
{
}

/// Seeking loses nothing of what is kept for backwards seeking.
pub proof fn seeking_keeps_the_seekback(window: SeekWindow, kept: Seekback, delta: int)
    requires
        window.keeps(kept),
    ensures
        window.moved(delta).keeps(kept.reach(window.moved(delta).position)),
{
}

/// Where a stream keeps `len` bytes or more for backwards seeking, and `len` bytes were read, it can
/// be seeked backwards by `len` bytes.
pub proof fn seekback_is_available(window: SeekWindow, kept: Seekback, len: nat)
    requires
        window.keeps(kept),
        window.position == kept.reached,
        kept.len >= len,
        window.position - kept.from >= len,
        window.ahead >= 0,
    ensures
        window.behind >= len,
        window.moved(-(len as int)).position == window.position - len,
{
}

/// A mutable reference to a stream seeks as the stream does: it has the same portion buffered, and
/// each call returns the same, and leaves the stream in the same state.
pub proof fn a_reference_seeks_as_its_stream<S: SeekBuffered>(call: SeekCall, reply: Option<u64>)
    ensures
        forall|stream: &mut S|
            (#[trigger] <&mut S as SeekBuffered>::window(&stream)) == (*stream).window(),
        forall|stream: &mut S|
            (#[trigger] <&mut S as SeekBuffered>::seekback(&stream)) == (*stream).seekback(),
        forall|stream: &mut S, post: &mut S|
            #[trigger] <&mut S as SeekBuffered>::answers_seek(&stream, call, reply, &post)
                <==> (*stream).answers_seek(call, reply, &*post),
{
}

/// A seek by a distance ends that far from where it began, or at the end of the buffered portion that
/// it would pass. What is buffered stays where it is in the stream.
pub proof fn a_seek_ends_within_the_buffer(window: SeekWindow, delta: int)
    requires
        window.behind >= 0,
        window.ahead >= 0,
    ensures
        -window.behind <= delta <= window.ahead ==> window.moved(delta).position == window.position
            + delta,
        delta < -window.behind ==> window.moved(delta).position == window.position - window.behind,
        delta > window.ahead ==> window.moved(delta).position == window.position + window.ahead,
        window.moved(delta).position - window.moved(delta).behind == window.position
            - window.behind,
        window.moved(delta).position + window.moved(delta).ahead == window.position + window.ahead,
        window.position + window.clamp(delta) == window.moved(delta).position,
{
}

/// A position is buffered where it lies between the first byte and the end of what is buffered, and two
/// portions are the same where both ends are.
pub proof fn buffered_portions_have_two_ends(window: SeekWindow, other: SeekWindow, pos: int)
    ensures
        window.holds(pos) <==> -window.behind <= pos - window.position <= window.ahead,
        window.same_portion(other) ==> (window.holds(pos) <==> other.holds(pos)),
        window.same_portion(other) && window.position == other.position ==> window == other,
{
}

/// What is kept grows with the furthest position that was reached, and with nothing else.
pub proof fn seekback_reaches_as_far_as_the_stream(kept: Seekback, pos: int)
    ensures
        kept.reach(pos).len == kept.len,
        kept.reach(pos).from == kept.from,
        kept.reach(pos).reached >= kept.reached,
        kept.reach(pos).reached >= pos,
        kept.reach(pos).reached == kept.reached || kept.reach(pos).reached == pos,
{
}

/// A relative seek returns where the stream then stands: as far from where it stood as was asked for,
/// or at the end of the buffered portion that it would pass.
pub proof fn a_relative_seek_moves_the_stream<S: SeekBuffered>(delta: isize, new_pos: u64)
    ensures
        forall|s: &mut S| #[trigger]
            call_ensures(S::seek_buffered_rel, (s, delta), new_pos) && (*s).window().behind >= 0
                && (*s).window().ahead >= 0 ==> {
                let (from, to) = ((*s).window(), (*final(s)).window());
                &&& to.position == new_pos
                &&& -from.behind <= delta <= from.ahead ==> new_pos == from.position + delta
                &&& delta < -from.behind ==> new_pos == from.position - from.behind
                &&& delta > from.ahead ==> new_pos == from.position + from.ahead
                &&& to.position - to.behind == from.position - from.behind
                &&& to.position + to.ahead == from.position + from.ahead
            },
{
}

/// A reverse seek by `delta` bytes takes the stream back by `delta` bytes, or to the start of what is
/// buffered. It leaves a state that a relative seek by the opposite distance leaves.
pub proof fn a_reverse_seek_is_a_relative_seek<S: SeekBuffered>(delta: usize)
    ensures
        forall|s: &mut S| #[trigger]
            call_ensures(S::seek_buffered_rev, (s, delta), ()) && (*s).window().behind >= 0
                && (*s).window().ahead >= 0 ==> {
                let (from, to) = ((*s).window(), (*final(s)).window());
                let step = if delta <= from.behind {
                    -(delta as int)
                } else {
                    -from.behind
                };
                &&& to.position == from.position + step
                &&& to.position - to.behind == from.position - from.behind
                &&& to.position + to.ahead == from.position + from.ahead
                &&& (*s).answers_seek(
                    SeekCall::By(to.position - from.position),
                    Some(to.position as u64),
                    &*final(s),
                )
            },
{
}

/// A mutable reference to a finite stream has the lengths that the stream has.
pub proof fn a_reference_is_as_long_as_its_stream<F: FiniteStream>(len: u64)
    ensures
        forall|stream: &mut F|
            (#[trigger] <&mut F as FiniteStream>::spec_byte_len(&stream))
                == (*stream).spec_byte_len(),
        forall|stream: &mut F|
            (#[trigger] <&mut F as FiniteStream>::spec_bytes_read(&stream))
                == (*stream).spec_bytes_read(),
        forall|stream: &mut F|
            (#[trigger] <&mut F as FiniteStream>::spec_bytes_available(&stream))
                == (*stream).spec_bytes_available(),
        forall|stream: &&mut F| #[trigger]
            call_ensures(<&mut F as FiniteStream>::byte_len, (stream,), len) ==> len
                == (**stream).spec_byte_len(),
        forall|stream: &&mut F| #[trigger]
            call_ensures(<&mut F as FiniteStream>::bytes_read, (stream,), len) ==> len
                == (**stream).spec_bytes_read(),
        forall|stream: &&mut F| #[trigger]
            call_ensures(<&mut F as FiniteStream>::bytes_available, (stream,), len) ==> len
                == (**stream).spec_bytes_available(),
{
}

} // verus!

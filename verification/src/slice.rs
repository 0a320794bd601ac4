//! Mutable byte buffers for vectored reads.

use vstd::prelude::*;

verus! {

/// `IoSliceMut` is a mutable `&[u8]` wrapper used for vectored reads on a media source.
pub struct IoSliceMut<'a> {
    /// The wrapped buffer.
    pub buf: &'a mut [u8],
}

impl<'a> View for IoSliceMut<'a> {
    type V = Seq<u8>;

    /// The bytes that the wrapped buffer holds now.
    open spec fn view(&self) -> Seq<u8> {
        self.buf@
    }
}

impl<'a> IoSliceMut<'a> {
    /// Creates a new `IoSliceMut` wrapping the provided buffer.
    pub fn new(buf: &'a mut [u8]) -> (res: Self)
        ensures
            res@ == old(buf)@,
            final(res.buf)@ == final(buf)@,
    {
        IoSliceMut { buf }
    }

    /// Returns the length of the wrapped buffer.
    pub fn len(&self) -> (len: usize)
        ensures
            len == self@.len(),
    {
        self.buf.len()
    }

    /// Returns `true` if the wrapped buffer is empty.
    pub fn is_empty(&self) -> (empty: bool)
        ensures
            empty <==> self@.len() == 0,
    {
        self.buf.is_empty()
    }

    /// Returns a mutable reference to the wrapped buffer.
    pub fn as_mut_slice(&mut self) -> (slice: &mut [u8])
        ensures
            slice@ == old(self)@,
            final(self)@ == final(slice)@,
            final(final(self).buf)@ == final(old(self).buf)@,
    {
        self.buf
    }
}

impl<'a> Default for IoSliceMut<'a> {
    /// Creates an `IoSliceMut` that wraps an empty buffer.
    fn default() -> (res: Self)
        ensures
            res@ == Seq::<u8>::empty(),
    {
        IoSliceMut::new(&mut [])
    }
}

/// A wrapped buffer is as long as the buffer, is empty where that is, and hands out its bytes.
pub proof fn a_wrapped_buffer_is_the_buffer(len: usize, empty: bool)
    ensures
        forall|buf: &mut [u8], slice: IoSliceMut<'_>| #[trigger]
            call_ensures(IoSliceMut::new, (buf,), slice) ==> {
                &&& slice@ == buf@
                &&& call_ensures(IoSliceMut::len, (&slice,), len) ==> len == buf@.len()
                &&& call_ensures(IoSliceMut::is_empty, (&slice,), empty) ==> (empty <==> buf@.len()
                    == 0)
            },
        forall|wrapper: &mut IoSliceMut<'_>, slice: &mut [u8]| #[trigger]
            call_ensures(IoSliceMut::as_mut_slice, (wrapper,), slice) ==> slice@ == (*wrapper)@ && (
            *final(wrapper))@ == final(slice)@,
{
}

} // verus!

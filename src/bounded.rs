//! The fixed-capacity vectors of the `heapless` crate that hold the streams of
//! a plan and the encoded step words, with what this library relies on of them.
use crate::buffer::STEP_BUFFER_LEN;
use crate::stream::{StreamConfig, MAX_STREAMS};
use vstd::prelude::*;

verus! {

#[verifier::external_type_specification]
#[verifier::external_body]
#[verifier::reject_recursive_types(T)]
pub struct ExHeaplessVec<T, const N: usize>(heapless::Vec<T, N>);

/// The streams of a plan.
pub type StreamList = heapless::Vec<StreamConfig, MAX_STREAMS>;

/// The words of one channel of a step buffer.
pub type WordBuffer = heapless::Vec<u32, STEP_BUFFER_LEN>;

/// The streams held by a stream list, in order.
pub uninterp spec fn stream_list(v: heapless::Vec<StreamConfig, MAX_STREAMS>) -> Seq<StreamConfig>;

/// The words held by a step buffer, in order.
pub uninterp spec fn buffer_words(v: heapless::Vec<u32, STEP_BUFFER_LEN>) -> Seq<u32>;

/// Relies on `heapless::Vec::from_slice`: it fails when the slice does not fit
/// the capacity, and otherwise holds a clone (here a copy) of each item in order.
#[verifier::external_body]
pub(crate) fn streams_from_slice(s: &[StreamConfig]) -> (r: Result<StreamList, ()>)
    ensures
        s@.len() <= MAX_STREAMS <==> r is Ok,
        r matches Ok(v) ==> stream_list(v) == s@,
{
    heapless::Vec::from_slice(s)
}

/// Relies on `heapless::Vec::as_slice`: the items in order, never more than the
/// capacity.
#[verifier::external_body]
pub(crate) fn stream_slice(v: &StreamList) -> (r: &[StreamConfig])
    ensures
        r@ == stream_list(*v),
        r@.len() <= MAX_STREAMS,
{
    v.as_slice()
}

/// Relies on `heapless::Vec::new`: an empty vector.
#[verifier::external_body]
pub(crate) fn empty_buffer() -> (r: WordBuffer)
    ensures
        buffer_words(r) == Seq::<u32>::empty(),
{
    heapless::Vec::new()
}

/// Relies on `heapless::Vec::push`: below the capacity the word is appended;
/// at the capacity it is handed back and the vector is left as it was.
#[verifier::external_body]
pub(crate) fn buffer_push(v: &mut WordBuffer, w: u32) -> (r: Result<(), u32>)
    ensures
        buffer_words(*old(v)).len() < STEP_BUFFER_LEN ==> r is Ok,
        buffer_words(*old(v)).len() < STEP_BUFFER_LEN ==> buffer_words(*final(v)) == buffer_words(
            *old(v),
        ).push(w),
        buffer_words(*old(v)).len() >= STEP_BUFFER_LEN ==> (r matches Err(x) && x == w),
        buffer_words(*old(v)).len() >= STEP_BUFFER_LEN ==> *final(v) == *old(v),
{
    v.push(w)
}

/// Relies on `heapless::Vec::is_full`: whether the length has reached the
/// capacity.
#[verifier::external_body]
pub(crate) fn buffer_is_full(v: &WordBuffer) -> (r: bool)
    ensures
        r == (buffer_words(*v).len() == STEP_BUFFER_LEN),
{
    v.is_full()
}

} // verus!

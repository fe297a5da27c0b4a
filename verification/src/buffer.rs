//! The bounded line buffer of the command reader: a `heapless::Vec` of bytes.
//!
//! Verus does not look inside `heapless`. What this module says of it is taken
//! on trust from the source of `heapless::Vec`; everything else in the crate
//! is proved from these statements.

use vstd::prelude::*;

verus! {

/// Number of bytes the line buffer can hold: the length of the longest command word.
pub const CAPACITY: usize = 13;

/// `heapless::Vec`, a vector of at most `N` items stored in place.
#[verifier::external_type_specification]
#[verifier::external_body]
#[verifier::reject_recursive_types(T)]
pub struct ExHeaplessVec<T, const N: usize>(heapless::Vec<T, N>);

/// The bytes that a line buffer holds, oldest first.
pub uninterp spec fn buffer_bytes(buffer: heapless::Vec<u8, CAPACITY>) -> Seq<u8>;

/// `heapless::Vec::new`: the new buffer holds nothing.
#[verifier::external_body]
pub(crate) fn buffer_new() -> (buffer: heapless::Vec<u8, CAPACITY>)
    ensures
        buffer_bytes(buffer) == Seq::<u8>::empty(),
{
    heapless::Vec::new()
}

/// `heapless::Vec::push`: while the buffer holds fewer than `CAPACITY` bytes
/// the byte is appended and the call succeeds; on a full buffer the call
/// fails and the buffer stays as it was.
#[verifier::external_body]
pub(crate) fn buffer_push(buffer: &mut heapless::Vec<u8, CAPACITY>, byte: u8) -> (stored: bool)
    ensures
        stored == (buffer_bytes(*old(buffer)).len() < CAPACITY),
        stored ==> buffer_bytes(*final(buffer)) == buffer_bytes(*old(buffer)).push(byte),
        !stored ==> buffer_bytes(*final(buffer)) == buffer_bytes(*old(buffer)),
{
    buffer.push(byte).is_ok()
}

/// `heapless::Vec::clear`: afterwards the buffer holds nothing.
#[verifier::external_body]
pub(crate) fn buffer_clear(buffer: &mut heapless::Vec<u8, CAPACITY>)
    ensures
        buffer_bytes(*final(buffer)) == Seq::<u8>::empty(),
{
    buffer.clear()
}

/// `heapless::Vec::as_slice`: the slice holds the bytes of the buffer, in order.
#[verifier::external_body]
pub(crate) fn buffer_as_slice(buffer: &heapless::Vec<u8, CAPACITY>) -> (bytes: &[u8])
    ensures
        bytes@ == buffer_bytes(*buffer),
{
    buffer.as_slice()
}

} // verus!

//! The growable byte buffer in which replies are assembled.

use bytes::{BufMut, BytesMut};
use vstd::prelude::*;

verus! {

/// `bytes::BytesMut`, known only by the bytes it holds.
#[verifier::external_type_specification]
#[verifier::external_body]
pub struct ExBytesMut(BytesMut);

/// The bytes that a buffer holds, first to last.
pub uninterp spec fn buffer_bytes(buffer: BytesMut) -> Seq<u8>;

/// `BytesMut::with_capacity`: a buffer that holds no bytes yet. The capacity
/// is kept within what an allocation may span.
#[verifier::external_body]
pub(crate) fn with_capacity(capacity: usize) -> (buffer: BytesMut)
    requires
        capacity <= isize::MAX,
    ensures
        buffer_bytes(buffer) == Seq::<u8>::empty(),
{
    BytesMut::with_capacity(capacity)
}

/// `BufMut::put` on a `BytesMut`, with a byte slice as its source: the
/// buffer grows as needed and then holds the bytes of `src` behind those it
/// held. The total is kept so small that no growth of the buffer, doubling
/// included, leaves what an allocation may span.
#[verifier::external_body]
pub(crate) fn put(buffer: &mut BytesMut, src: &[u8])
    requires
        buffer_bytes(*old(buffer)).len() + src@.len() <= isize::MAX / 2,
    ensures
        buffer_bytes(*final(buffer)) == buffer_bytes(*old(buffer)) + src@,
{
    buffer.put(src)
}

} // verus!

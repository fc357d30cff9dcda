//! The byte buffer of the `bytes` crate in which a parser keeps what it has
//! received and not yet taken.

use vstd::prelude::*;
use bytes::Bytes;

verus! {

/// `bytes::Bytes`, a buffer of bytes. Nothing is known of what is inside
/// but what the functions below report.
#[verifier::external_type_specification]
#[verifier::external_body]
pub struct ExBytes(bytes::Bytes);

/// The bytes that `buffer` holds, in order.
pub uninterp spec fn bytes_of(buffer: Bytes) -> Seq<u8>;

/// `Bytes::new`: a buffer that holds nothing.
#[verifier::external_body]
pub(crate) fn empty_buffer() -> (r: Bytes)
    ensures
        bytes_of(r) == Seq::<u8>::empty(),
{
    Bytes::new()
}

/// `Bytes::from` for a vector: a buffer that holds the bytes of the vector.
#[verifier::external_body]
pub(crate) fn buffer_from(bytes: Vec<u8>) -> (r: Bytes)
    ensures
        bytes_of(r) == bytes@,
{
    Bytes::from(bytes)
}

/// `Bytes::as_ref`: the bytes of the buffer as a slice.
#[verifier::external_body]
pub(crate) fn buffer_bytes(buffer: &Bytes) -> (r: &[u8])
    ensures
        r@ == bytes_of(*buffer),
{
    buffer.as_ref()
}

/// `Bytes::split_to`: the first `at` bytes are split off and returned, and
/// the buffer keeps the rest. The method panics where the buffer holds less
/// than `at` bytes.
#[verifier::external_body]
pub(crate) fn split_to(buffer: &mut Bytes, at: usize) -> (r: Bytes)
    requires
        at <= bytes_of(*old(buffer)).len(),
    ensures
        bytes_of(r) == bytes_of(*old(buffer)).subrange(0, at as int),
        bytes_of(*final(buffer)) == bytes_of(*old(buffer)).subrange(
            at as int,
            bytes_of(*old(buffer)).len() as int,
        ),
{
    buffer.split_to(at)
}

} // verus!

//! Reference-counted byte buffers of the `bytes` crate, as response bodies
//! hold them.

use vstd::prelude::*;

verus! {

/// `bytes::Bytes`: a buffer whose storage is shared by its copies.
#[verifier::external_type_specification]
#[verifier::external_body]
pub struct ExBytes(bytes::Bytes);

/// The bytes that a buffer holds.
pub uninterp spec fn contents(buffer: bytes::Bytes) -> Seq<u8>;

/// `Bytes::from` on a vector: the buffer holds the vector's bytes.
#[verifier::external_body]
pub(crate) fn buffer_from(bytes: Vec<u8>) -> (buffer: bytes::Bytes)
    ensures
        contents(buffer) == bytes@,
{
    bytes::Bytes::from(bytes)
}

/// `Bytes::clone`: the copy shares the storage and holds the same bytes.
pub assume_specification[ <bytes::Bytes as Clone>::clone ](buffer: &bytes::Bytes) -> (copy:
    bytes::Bytes)
    ensures
        contents(copy) == contents(*buffer),
;

/// `==` on two buffers: they are equal when they hold the same bytes.
#[verifier::external_body]
pub(crate) fn buffers_equal(a: &bytes::Bytes, b: &bytes::Bytes) -> (r: bool)
    ensures
        r == (contents(*a) == contents(*b)),
{
    a == b
}

} // verus!

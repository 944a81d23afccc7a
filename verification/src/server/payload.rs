//! The byte strings that bulk frames carry.
//!
//! A payload is a `bytes::Bytes`: cheap to clone and to hand on. It is not
//! verified here; this module names what a payload holds and states what
//! the operations in use make of it.

use bytes::Bytes;
use vstd::prelude::*;

verus! {

/// `bytes::Bytes`, opaque to the verifier.
#[verifier::external_type_specification]
#[verifier::external_body]
pub struct ExBytes(Bytes);

/// The bytes a payload holds, in order.
pub uninterp spec fn payload_bytes(b: Bytes) -> Seq<u8>;

/// The `Debug` form of a payload with these bytes: a byte-string literal,
/// the printable bytes as they are and the others escaped.
pub uninterp spec fn escaped(bytes: Seq<u8>) -> Seq<char>;

/// `Clone` of `Bytes`: another handle on the same bytes.
pub assume_specification[ <Bytes as Clone>::clone ](b: &Bytes) -> (copy: Bytes)
    ensures
        payload_bytes(copy) == payload_bytes(*b),
;

/// `Bytes::copy_from_slice`: a payload holding a copy of `data`.
#[verifier::external_body]
pub(crate) fn copy_from_slice(data: &[u8]) -> (b: Bytes)
    ensures
        payload_bytes(b) == data@,
{
    Bytes::copy_from_slice(data)
}

/// The `Deref` of `Bytes`: the bytes it holds, as a slice.
#[verifier::external_body]
pub(crate) fn as_slice(b: &Bytes) -> (data: &[u8])
    ensures
        data@ == payload_bytes(*b),
{
    &b[..]
}

/// The `Debug` form of `Bytes`, which depends on the bytes alone.
#[verifier::external_body]
pub(crate) fn debug_text(b: &Bytes) -> (text: String)
    ensures
        text@ == escaped(payload_bytes(*b)),
{
    format!("{:?}", b)
}

} // verus!

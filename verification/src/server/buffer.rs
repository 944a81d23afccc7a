//! The byte accumulator under a connection.
//!
//! Bytes that have arrived and not yet been turned into frames wait in a
//! `bytes::BytesMut`. It is not verified here; this module names what it
//! holds and states what the operations in use do to that.

use bytes::{Buf, BytesMut};
use vstd::prelude::*;

verus! {

/// `bytes::BytesMut`, opaque to the verifier.
#[verifier::external_type_specification]
#[verifier::external_body]
pub struct ExBytesMut(BytesMut);

/// The bytes an accumulator holds, oldest first.
pub uninterp spec fn buffered(b: BytesMut) -> Seq<u8>;

/// `BytesMut::with_capacity`: an accumulator that holds nothing yet.
#[verifier::external_body]
pub(crate) fn with_capacity(capacity: usize) -> (b: BytesMut)
    ensures
        buffered(b) == Seq::<u8>::empty(),
{
    BytesMut::with_capacity(capacity)
}

/// `BytesMut::is_empty`: whether it holds no byte.
#[verifier::external_body]
pub(crate) fn is_empty(b: &BytesMut) -> (empty: bool)
    ensures
        empty == (buffered(*b).len() == 0),
{
    b.is_empty()
}

/// The `Deref` of `BytesMut`: the bytes it holds, as a slice.
#[verifier::external_body]
pub(crate) fn as_slice(b: &BytesMut) -> (data: &[u8])
    ensures
        data@ == buffered(*b),
{
    &b[..]
}

/// `BytesMut::extend_from_slice`: `extend` is appended. It panics when the
/// new length overflows `usize`, which `requires` rules out.
#[verifier::external_body]
pub(crate) fn extend_from_slice(b: &mut BytesMut, extend: &[u8])
    requires
        buffered(*old(b)).len() + extend@.len() <= usize::MAX,
    ensures
        buffered(*final(b)) == buffered(*old(b)) + extend@,
{
    b.extend_from_slice(extend)
}

/// `Buf::advance` of `BytesMut`: the first `cnt` bytes are dropped. It
/// panics when fewer are held, which `requires` rules out.
#[verifier::external_body]
pub(crate) fn advance(b: &mut BytesMut, cnt: usize)
    requires
        cnt <= buffered(*old(b)).len(),
    ensures
        buffered(*final(b)) == buffered(*old(b)).skip(cnt as int),
{
    b.advance(cnt)
}

} // verus!

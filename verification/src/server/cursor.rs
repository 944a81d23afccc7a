//! The read position over a borrowed byte slice.
//!
//! Frames are read through a `std::io::Cursor<&[u8]>`, driven by the
//! `bytes::Buf` interface. Neither is verified here: this module names the
//! two things a cursor holds and states, for each operation in use, what the
//! operation does to them.

use bytes::Buf;
use std::io::Cursor;
use vstd::prelude::*;

verus! {

/// `std::io::Cursor`, opaque to the verifier.
#[verifier::external_type_specification]
#[verifier::external_body]
#[verifier::reject_recursive_types(T)]
pub struct ExCursor<T>(Cursor<T>);

/// The bytes a cursor reads from.
pub uninterp spec fn cursor_bytes(c: Cursor<&[u8]>) -> Seq<u8>;

/// The offset of the next byte a cursor will read.
pub uninterp spec fn cursor_position(c: Cursor<&[u8]>) -> u64;

/// Number of bytes from the position to the end; none when the position
/// lies at or beyond the end.
pub open spec fn cursor_remaining(c: Cursor<&[u8]>) -> nat {
    if cursor_position(c) <= cursor_bytes(c).len() {
        (cursor_bytes(c).len() - cursor_position(c)) as nat
    } else {
        0
    }
}

/// `Cursor::new`: a cursor over `data`, positioned at its first byte.
#[verifier::external_body]
pub(crate) fn new<'a>(data: &'a [u8]) -> (c: Cursor<&'a [u8]>)
    ensures
        cursor_bytes(c) == data@,
        cursor_position(c) == 0,
{
    Cursor::new(data)
}

/// `Cursor::get_ref`: the slice the cursor reads from, all of it, wherever
/// the position stands.
#[verifier::external_body]
pub(crate) fn get_ref<'a>(src: &Cursor<&'a [u8]>) -> (data: &'a [u8])
    ensures
        data@ == cursor_bytes(*src),
{
    *src.get_ref()
}

/// `Cursor::position`: the current offset.
#[verifier::external_body]
pub(crate) fn position(src: &Cursor<&[u8]>) -> (pos: u64)
    ensures
        pos == cursor_position(*src),
{
    src.position()
}

/// `Cursor::set_position`: moves the cursor to `pos`, which may lie beyond
/// the end, and leaves the bytes alone.
#[verifier::external_body]
pub(crate) fn set_position(src: &mut Cursor<&[u8]>, pos: u64)
    ensures
        cursor_position(*final(src)) == pos,
        cursor_bytes(*final(src)) == cursor_bytes(*old(src)),
{
    src.set_position(pos)
}

/// `Buf::remaining` of a cursor: the length of the slice less the position,
/// zero when the position lies beyond the end.
#[verifier::external_body]
pub(crate) fn remaining(src: &Cursor<&[u8]>) -> (n: usize)
    ensures
        n == cursor_remaining(*src),
{
    src.remaining()
}

/// `Buf::has_remaining` of a cursor: whether a byte is left to read.
#[verifier::external_body]
pub(crate) fn has_remaining(src: &Cursor<&[u8]>) -> (b: bool)
    ensures
        b == (cursor_remaining(*src) > 0),
{
    src.has_remaining()
}

/// `Buf::chunk` of a cursor: the bytes from the position to the end, none
/// when the position lies beyond the end.
#[verifier::external_body]
pub(crate) fn chunk<'a>(src: &'a Cursor<&[u8]>) -> (bytes: &'a [u8])
    ensures
        bytes@.len() == cursor_remaining(*src),
        bytes@ == cursor_bytes(*src).skip(cursor_bytes(*src).len() - bytes@.len()),
{
    src.chunk()
}

/// `Buf::get_u8` of a cursor: the byte at the position, and the position
/// moves on by one. It panics when no byte is left, which `requires` rules
/// out.
#[verifier::external_body]
pub(crate) fn get_u8(src: &mut Cursor<&[u8]>) -> (byte: u8)
    requires
        cursor_remaining(*old(src)) > 0,
    ensures
        byte == cursor_bytes(*old(src))[cursor_position(*old(src)) as int],
        cursor_position(*final(src)) == cursor_position(*old(src)) + 1,
        cursor_bytes(*final(src)) == cursor_bytes(*old(src)),
{
    src.get_u8()
}

/// `Buf::advance` of a cursor: the position moves on by `cnt`. It panics
/// when fewer than `cnt` bytes are left, which `requires` rules out.
#[verifier::external_body]
pub(crate) fn advance(src: &mut Cursor<&[u8]>, cnt: usize)
    requires
        cnt <= cursor_remaining(*old(src)),
    ensures
        cursor_position(*final(src)) == cursor_position(*old(src)) + cnt,
        cursor_bytes(*final(src)) == cursor_bytes(*old(src)),
{
    src.advance(cnt)
}

} // verus!

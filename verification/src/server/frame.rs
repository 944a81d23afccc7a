//! Frames and how they are read off a cursor.

use crate::server::cursor;
use crate::server::cursor::{cursor_bytes, cursor_position, cursor_remaining};
use crate::server::grammar::{
    bulk_at, checked_at, decimal_at, frame_at, frames_at, line_len, null_line, rest, FrameView,
    CR, LF, MINUS, ONE, TAG_ARRAY, TAG_BULK, TAG_ERROR, TAG_INTEGER, TAG_SIMPLE,
};
use crate::server::payload;
use crate::server::payload::payload_bytes;
use crate::server::text;
use bytes::Bytes;
use std::io::Cursor;
use vstd::prelude::*;
use vstd::slice::{slice_subrange, slice_to_vec};
use vstd::std_specs::vec::axiom_vec_index_decreases;
use vstd::string::StringExecFns;

verus! {

/// One protocol value.
#[derive(Debug, PartialEq)]
pub enum Frame {
    Simple(String),
    Error(String),
    Integer(u64),
    Bulk(Bytes),
    Array(Vec<Frame>),
    Null,
}

/// Why no frame could be read.
#[derive(Clone, Copy, Debug, PartialEq, Eq, Structural)]
pub enum Error {
    /// Not enough data is available to read a frame.
    Incomplete,
    /// The data is not a frame.
    Other(crate::Error),
}

impl Error {
    /// What the error says.
    pub open spec fn description(self) -> Seq<char> {
        match self {
            Error::Incomplete => "stream ended early"@,
            Error::Other(reason) => reason.description(),
        }
    }

    /// The error as text.
    pub fn to_string(&self) -> (text: String)
        ensures
            text@ == self.description(),
    {
        match self {
            Error::Incomplete => String::from_str("stream ended early"),
            Error::Other(reason) => reason.to_string(),
        }
    }
}

/// The views of `frames`, one by one.
pub open spec fn views(frames: Seq<Frame>) -> Seq<FrameView>
    decreases frames,
{
    if frames.len() == 0 {
        Seq::empty()
    } else {
        views(frames.drop_last()).push(frames.last()@)
    }
}

impl View for Frame {
    type V = FrameView;

    open spec fn view(&self) -> FrameView
        decreases self,
    {
        match self {
            Frame::Simple(text) => FrameView::Simple(text@),
            Frame::Error(text) => FrameView::Error(text@),
            Frame::Integer(value) => FrameView::Integer(*value),
            Frame::Bulk(data) => FrameView::Bulk(payload_bytes(*data)),
            Frame::Array(parts) => FrameView::Array(views(parts@)),
            Frame::Null => FrameView::Null,
        }
    }
}

/// `views` keeps the length and maps each frame to its view.
pub proof fn lemma_views(frames: Seq<Frame>)
    ensures
        views(frames).len() == frames.len(),
        forall|i: int| 0 <= i < frames.len() ==> (#[trigger] views(frames)[i]) == frames[i]@,
    decreases frames.len(),
{
    if frames.len() > 0 {
        lemma_views(frames.drop_last());
        assert(views(frames) == views(frames.drop_last()).push(frames.last()@));
    } else {
        assert(views(frames) == Seq::<FrameView>::empty());
    }
}

/// The views of a sequence with one more frame at its end.
pub proof fn lemma_views_push(frames: Seq<Frame>, last: Frame)
    ensures
        views(frames.push(last)) == views(frames).push(last@),
{
    assert(frames.push(last).drop_last() =~= frames);
}

impl Clone for Frame {
    /// A copy that reads the same, part by part.
    fn clone(&self) -> (copy: Frame)
        ensures
            copy@ == self@,
        decreases self,
    {
        match self {
            Frame::Simple(text) => Frame::Simple(text.clone()),
            Frame::Error(text) => Frame::Error(text.clone()),
            Frame::Integer(value) => Frame::Integer(*value),
            Frame::Bulk(data) => Frame::Bulk(data.clone()),
            Frame::Array(parts) => {
                let mut copies: Vec<Frame> = Vec::new();
                let mut i: usize = 0;
                while i < parts.len()
                    invariant
                        i <= parts.len(),
                        self == Frame::Array(*parts),
                        copies@.len() == i,
                        views(copies@) == views(parts@.take(i as int)),
                    decreases parts.len() - i,
                {
                    proof {
                        axiom_vec_index_decreases(*parts, i as int);
                        assert(decreases_to!(*self => self->Array_0));
                    }
                    let copy = parts[i].clone();
                    proof {
                        lemma_views_push(copies@, copy);
                        lemma_views_push(parts@.take(i as int), parts@[i as int]);
                        assert(parts@.take(i as int).push(parts@[i as int]) =~= parts@.take(i + 1));
                    }
                    copies.push(copy);
                    i = i + 1;
                }
                assert(parts@.take(i as int) =~= parts@);
                Frame::Array(copies)
            },
            Frame::Null => Frame::Null,
        }
    }
}

impl Frame {
    /// An empty array, to which parts can be appended.
    pub fn new() -> (frame: Frame)
        ensures
            frame@ == FrameView::Array(Seq::empty()),
    {
        Frame::Array(Vec::new())
    }

    /// Appends a bulk part to an array.
    pub fn push_bulk(&mut self, bytes: Bytes)
        requires
            *old(self) is Array,
        ensures
            final(self)@ == FrameView::Array(
                old(self)@->Array_0.push(FrameView::Bulk(payload_bytes(bytes))),
            ),
    {
        match self {
            Frame::Array(parts) => {
                let part = Frame::Bulk(bytes);
                proof {
                    lemma_views_push(parts@, part);
                }
                parts.push(part);
            },
            _ => {},
        }
    }

    /// Appends an integer part to an array.
    pub fn push_int(&mut self, value: u64)
        requires
            *old(self) is Array,
        ensures
            final(self)@ == FrameView::Array(old(self)@->Array_0.push(FrameView::Integer(value))),
    {
        match self {
            Frame::Array(parts) => {
                let part = Frame::Integer(value);
                proof {
                    lemma_views_push(parts@, part);
                }
                parts.push(part);
            },
            _ => {},
        }
    }
}

/// The byte at the cursor, which stays where it is.
pub fn peek_u8(src: &mut Cursor<&[u8]>) -> (result: Result<u8, Error>)
    ensures
        *final(src) == *old(src),
        result == if cursor_remaining(*old(src)) > 0 {
            Ok::<u8, Error>(cursor_bytes(*old(src))[cursor_position(*old(src)) as int])
        } else {
            Err::<u8, Error>(Error::Incomplete)
        },
{
    if !cursor::has_remaining(src) {
        return Err(Error::Incomplete);
    }
    Ok(cursor::chunk(src)[0])
}

/// The byte at the cursor, which moves past it.
pub fn get_u8(src: &mut Cursor<&[u8]>) -> (result: Result<u8, Error>)
    ensures
        cursor_bytes(*final(src)) == cursor_bytes(*old(src)),
        cursor_remaining(*old(src)) > 0 ==> {
            &&& result == Ok::<u8, Error>(cursor_bytes(*old(src))[cursor_position(*old(src)) as int])
            &&& cursor_position(*final(src)) == cursor_position(*old(src)) + 1
        },
        cursor_remaining(*old(src)) == 0 ==> {
            &&& result == Err::<u8, Error>(Error::Incomplete)
            &&& cursor_position(*final(src)) == cursor_position(*old(src))
        },
{
    if !cursor::has_remaining(src) {
        return Err(Error::Incomplete);
    }
    Ok(cursor::get_u8(src))
}

/// Moves the cursor `n` bytes on, if that many are left.
pub fn skip(src: &mut Cursor<&[u8]>, n: usize) -> (result: Result<(), Error>)
    ensures
        cursor_bytes(*final(src)) == cursor_bytes(*old(src)),
        n <= cursor_remaining(*old(src)) ==> {
            &&& result == Ok::<(), Error>(())
            &&& cursor_position(*final(src)) == cursor_position(*old(src)) + n
        },
        n > cursor_remaining(*old(src)) ==> {
            &&& result == Err::<(), Error>(Error::Incomplete)
            &&& cursor_position(*final(src)) == cursor_position(*old(src))
        },
{
    if cursor::remaining(src) < n {
        return Err(Error::Incomplete);
    }
    cursor::advance(src, n);
    Ok(())
}

/// The line at the cursor, without its line break; the cursor moves past
/// the line break. A line ends at a carriage return that a line feed
/// follows, and at nothing else: without one the line is incomplete and the
/// cursor stays.
pub fn get_line<'a>(src: &mut Cursor<&'a [u8]>) -> (result: Result<&'a [u8], Error>)
    ensures
        cursor_bytes(*final(src)) == cursor_bytes(*old(src)),
        match line_len(cursor_bytes(*old(src)), cursor_position(*old(src)) as int) {
            Some(n) => {
                &&& result matches Ok(line)
                &&& line@ == cursor_bytes(*old(src)).subrange(
                    cursor_position(*old(src)) as int,
                    cursor_position(*old(src)) + n,
                )
                &&& cursor_position(*final(src)) == cursor_position(*old(src)) + n + 2
            },
            None => {
                &&& result == Err::<&[u8], Error>(Error::Incomplete)
                &&& cursor_position(*final(src)) == cursor_position(*old(src))
            },
        },
{
    let data: &[u8] = cursor::get_ref(src);
    let pos: u64 = cursor::position(src);
    if data.len() == 0 || pos >= (data.len() - 1) as u64 {
        return Err(Error::Incomplete);
    }
    let start: usize = pos as usize;
    let end: usize = data.len() - 1;
    let mut i: usize = start;
    while i < end
        invariant
            start <= i <= end,
            end + 1 == data@.len(),
            data@ == cursor_bytes(*old(src)),
            start == cursor_position(*old(src)),
            *src == *old(src),
            line_len(data@, start as int) == match line_len(data@, i as int) {
                Some(n) => Some((n + i - start) as nat),
                None => None,
            },
        decreases end - i,
    {
        if data[i] == CR && data[i + 1] == LF {
            cursor::set_position(src, (i + 2) as u64);
            return Ok(slice_subrange(data, start, i));
        }
        i = i + 1;
    }
    Err(Error::Incomplete)
}

/// The unsigned decimal number on the line at the cursor. Digits only: a
/// line with anything else on it, or with no digit, is malformed, and so is
/// a number beyond 64 bits. The cursor moves past the line wherever there is
/// one.
pub fn get_decimal(src: &mut Cursor<&[u8]>) -> (result: Result<u64, Error>)
    ensures
        cursor_bytes(*final(src)) == cursor_bytes(*old(src)),
        cursor_position(*final(src)) == cursor_position(*old(src)) + decimal_at(
            cursor_bytes(*old(src)),
            cursor_position(*old(src)) as int,
        ).used,
        result == decimal_at(cursor_bytes(*old(src)), cursor_position(*old(src)) as int).outcome,
{
    match get_line(src) {
        Err(e) => Err(e),
        Ok(line) => match text::decimal(line) {
            Some(value) => Ok(value),
            None => Err(Error::Other(crate::Error::InvalidFrameFormat)),
        },
    }
}

/// What a validation makes of an outcome: the value is dropped, the error
/// kept.
spec fn verdict<T>(outcome: Result<T, Error>) -> Result<(), Error> {
    match outcome {
        Ok(_) => Ok(()),
        Err(e) => Err(e),
    }
}

/// What a read gives, seen through the view of the frame.
pub open spec fn decoded(result: Result<Frame, Error>) -> Result<FrameView, Error> {
    match result {
        Ok(frame) => Ok(frame@),
        Err(e) => Err(e),
    }
}

/// `parts` in front of what a scan of further frames found.
pub open spec fn after(parts: Seq<FrameView>, more: Result<Seq<FrameView>, Error>) -> Result<
    Seq<FrameView>,
    Error,
> {
    match more {
        Ok(frames) => Ok(parts + frames),
        Err(e) => Err(e),
    }
}

/// Reads the head of a bulk frame, the cursor standing right after the
/// tag. `Ok(None)` is the null sentinel, read to its end. `Ok(Some(len))`
/// is a payload of `len` bytes that is there in full, with the line break
/// that closes it, the cursor standing at its first byte.
fn bulk_head(src: &mut Cursor<&[u8]>) -> (result: Result<Option<usize>, Error>)
    ensures
        cursor_bytes(*final(src)) == cursor_bytes(*old(src)),
        ({
            let s = cursor_bytes(*old(src));
            let from = cursor_position(*old(src)) as int;
            let scan = bulk_at(s, from);
            let at = cursor_position(*final(src)) as int;
            match result {
                Ok(None) => scan.outcome == Ok::<FrameView, Error>(FrameView::Null) && at == from
                    + scan.used,
                Ok(Some(len)) => {
                    &&& scan.outcome == Ok::<FrameView, Error>(
                        FrameView::Bulk(s.subrange(at, at + len)),
                    )
                    &&& at + len + 2 == from + scan.used
                    &&& at + len + 2 <= s.len()
                    &&& len + 2 <= usize::MAX
                    &&& from <= at
                },
                Err(e) => scan.outcome == Err::<FrameView, Error>(e) && at == from + scan.used,
            }
        }),
{
    let first: u8 = match peek_u8(src) {
        Ok(b) => b,
        Err(e) => {
            return Err(e);
        },
    };
    if first == MINUS {
        match get_line(src) {
            Err(e) => Err(e),
            Ok(line) => {
                if line.len() == 2 && line[0] == MINUS && line[1] == ONE {
                    assert(line@ =~= null_line());
                    Ok(None)
                } else {
                    assert(line@ != null_line()) by {
                        assert(null_line().len() == 2 && null_line()[0] == MINUS && null_line()[1]
                            == ONE);
                    }
                    Err(Error::Other(crate::Error::InvalidNull))
                }
            },
        }
    } else {
        let announced: u64 = match get_decimal(src) {
            Ok(n) => n,
            Err(e) => {
                return Err(e);
            },
        };
        let len: usize = match usize::try_from(announced) {
            Ok(len) => len,
            Err(_) => {
                return Err(Error::Other(crate::Error::InvalidFrameFormat));
            },
        };
        let available: usize = cursor::remaining(src);
        match len.checked_add(2) {
            None => Err(Error::Incomplete),
            Some(n) => {
                if available < n {
                    return Err(Error::Incomplete);
                }
                let payload: &[u8] = cursor::chunk(src);
                if payload[len] == CR && payload[len + 1] == LF {
                    Ok(Some(len))
                } else {
                    Err(Error::Other(crate::Error::InvalidFrameFormat))
                }
            },
        }
    }
}

impl Frame {
    /// Tells whether a whole frame stands at the cursor, and moves the
    /// cursor past it. Nothing is copied out; in every other respect this
    /// is [`Frame::parse`]: the same frames pass, the same errors come
    /// back, the cursor ends at the same offset.
    pub fn check(src: &mut Cursor<&[u8]>) -> (result: Result<(), Error>)
        ensures
            cursor_bytes(*final(src)) == cursor_bytes(*old(src)),
            cursor_position(*final(src)) == cursor_position(*old(src)) + checked_at(
                cursor_bytes(*old(src)),
                cursor_position(*old(src)) as int,
            ).used,
            result == checked_at(
                cursor_bytes(*old(src)),
                cursor_position(*old(src)) as int,
            ).outcome,
        decreases rest(cursor_bytes(*old(src)), cursor_position(*old(src)) as int),
    {
        let ghost s = cursor_bytes(*src);
        let ghost pos = cursor_position(*src) as int;
        let tag: u8 = match get_u8(src) {
            Ok(b) => b,
            Err(e) => {
                return Err(e);
            },
        };
        if tag == TAG_SIMPLE || tag == TAG_ERROR {
            match get_line(src) {
                Err(e) => Err(e),
                Ok(line) => match text::str_from_utf8(line) {
                    Ok(_) => Ok(()),
                    Err(_) => Err(Error::Other(crate::Error::InvalidFrameFormat)),
                },
            }
        } else if tag == TAG_INTEGER {
            match get_decimal(src) {
                Ok(_) => Ok(()),
                Err(e) => Err(e),
            }
        } else if tag == TAG_BULK {
            match bulk_head(src) {
                Err(e) => Err(e),
                Ok(None) => Ok(()),
                Ok(Some(len)) => skip(src, len + 2),
            }
        } else if tag == TAG_ARRAY {
            let count: u64 = match get_decimal(src) {
                Ok(n) => n,
                Err(e) => {
                    return Err(e);
                },
            };
            let ghost first = cursor_position(*src) as int;
            let mut i: u64 = 0;
            while i < count
                invariant
                    i <= count,
                    cursor_bytes(*src) == s,
                    s == cursor_bytes(*old(src)),
                    pos == cursor_position(*old(src)),
                    0 <= pos < s.len(),
                    s[pos] == TAG_ARRAY,
                    decimal_at(s, pos + 1).outcome == Ok::<u64, Error>(count),
                    first == pos + 1 + decimal_at(s, pos + 1).used,
                    first <= cursor_position(*src),
                    frames_at(s, first, count as nat).used == cursor_position(*src) - first
                        + frames_at(s, cursor_position(*src) as int, (count - i) as nat).used,
                    verdict(frames_at(s, first, count as nat).outcome) == verdict(
                        frames_at(s, cursor_position(*src) as int, (count - i) as nat).outcome,
                    ),
                decreases count - i,
            {
                let ghost at = cursor_position(*src) as int;
                let ghost left = (count - i) as nat;
                assert(frames_at(s, at, left).used == frame_at(s, at).used + (match frame_at(
                    s,
                    at,
                ).outcome {
                    Ok(_) => frames_at(s, at + frame_at(s, at).used, (left - 1) as nat).used,
                    Err(_) => 0,
                }));
                assert(verdict(frames_at(s, at, left).outcome) == match frame_at(s, at).outcome {
                    Ok(_) => verdict(
                        frames_at(s, at + frame_at(s, at).used, (left - 1) as nat).outcome,
                    ),
                    Err(e) => Err(e),
                });
                match Frame::check(src) {
                    Ok(_) => {},
                    Err(e) => {
                        return Err(e);
                    },
                }
                i = i + 1;
            }
            Ok(())
        } else {
            Err(Error::Other(crate::Error::InvalidFrameType(tag)))
        }
    }

    /// Reads the frame at the cursor and moves the cursor past it.
    ///
    /// The frame is the one that the grammar finds at the cursor's offset,
    /// with text and payloads copied out of the buffer. Where the buffer
    /// ends before the frame does, the error is [`Error::Incomplete`];
    /// where the bytes are no frame, it is [`Error::Other`] with the
    /// reason. The cursor then stands where the failure showed.
    pub fn parse(src: &mut Cursor<&[u8]>) -> (result: Result<Frame, Error>)
        ensures
            cursor_bytes(*final(src)) == cursor_bytes(*old(src)),
            cursor_position(*final(src)) == cursor_position(*old(src)) + frame_at(
                cursor_bytes(*old(src)),
                cursor_position(*old(src)) as int,
            ).used,
            decoded(result) == frame_at(
                cursor_bytes(*old(src)),
                cursor_position(*old(src)) as int,
            ).outcome,
        decreases rest(cursor_bytes(*old(src)), cursor_position(*old(src)) as int),
    {
        let ghost s = cursor_bytes(*src);
        let ghost pos = cursor_position(*src) as int;
        let tag: u8 = match get_u8(src) {
            Ok(b) => b,
            Err(e) => {
                return Err(e);
            },
        };
        if tag == TAG_SIMPLE {
            match get_line(src) {
                Err(e) => Err(e),
                Ok(line) => match text::string_from_utf8(slice_to_vec(line)) {
                    Ok(text) => Ok(Frame::Simple(text)),
                    Err(_) => Err(Error::Other(crate::Error::InvalidFrameFormat)),
                },
            }
        } else if tag == TAG_ERROR {
            match get_line(src) {
                Err(e) => Err(e),
                Ok(line) => match text::string_from_utf8(slice_to_vec(line)) {
                    Ok(text) => Ok(Frame::Error(text)),
                    Err(_) => Err(Error::Other(crate::Error::InvalidFrameFormat)),
                },
            }
        } else if tag == TAG_INTEGER {
            match get_decimal(src) {
                Ok(value) => Ok(Frame::Integer(value)),
                Err(e) => Err(e),
            }
        } else if tag == TAG_BULK {
            match bulk_head(src) {
                Err(e) => Err(e),
                Ok(None) => Ok(Frame::Null),
                Ok(Some(len)) => {
                    let ghost at = cursor_position(*src) as int;
                    let bulk = payload::copy_from_slice(slice_subrange(cursor::chunk(src), 0, len));
                    assert(payload_bytes(bulk) =~= s.subrange(at, at + len));
                    cursor::advance(src, len + 2);
                    Ok(Frame::Bulk(bulk))
                },
            }
        } else if tag == TAG_ARRAY {
            let count: u64 = match get_decimal(src) {
                Ok(n) => n,
                Err(e) => {
                    return Err(e);
                },
            };
            let ghost first = cursor_position(*src) as int;
            let mut output: Vec<Frame> = Vec::new();
            let mut i: u64 = 0;
            while i < count
                invariant
                    i <= count,
                    cursor_bytes(*src) == s,
                    s == cursor_bytes(*old(src)),
                    pos == cursor_position(*old(src)),
                    0 <= pos < s.len(),
                    s[pos] == TAG_ARRAY,
                    decimal_at(s, pos + 1).outcome == Ok::<u64, Error>(count),
                    first == pos + 1 + decimal_at(s, pos + 1).used,
                    first <= cursor_position(*src),
                    frames_at(s, first, count as nat).used == cursor_position(*src) - first
                        + frames_at(s, cursor_position(*src) as int, (count - i) as nat).used,
                    frames_at(s, first, count as nat).outcome == after(
                        views(output@),
                        frames_at(s, cursor_position(*src) as int, (count - i) as nat).outcome,
                    ),
                decreases count - i,
            {
                let ghost at = cursor_position(*src) as int;
                let ghost left = (count - i) as nat;
                let ghost next = at + frame_at(s, at).used;
                assert(frames_at(s, at, left).used == frame_at(s, at).used + (match frame_at(
                    s,
                    at,
                ).outcome {
                    Ok(_) => frames_at(s, next, (left - 1) as nat).used,
                    Err(_) => 0,
                }));
                assert(frames_at(s, at, left).outcome == match frame_at(s, at).outcome {
                    Ok(frame) => after(seq![frame], frames_at(s, next, (left - 1) as nat).outcome),
                    Err(e) => Err(e),
                });
                match Frame::parse(src) {
                    Ok(frame) => {
                        proof {
                            lemma_views_push(output@, frame);
                            let more = frames_at(s, next, (left - 1) as nat).outcome;
                            if let Ok(frames) = more {
                                assert(views(output@) + (seq![frame@] + frames) =~= views(
                                    output@,
                                ).push(frame@) + frames);
                            }
                        }
                        output.push(frame);
                    },
                    Err(e) => {
                        return Err(e);
                    },
                }
                i = i + 1;
            }
            assert(views(output@) + Seq::<FrameView>::empty() =~= views(output@));
            Ok(Frame::Array(output))
        } else {
            Err(Error::Other(crate::Error::InvalidFrameType(tag)))
        }
    }
}

} // verus!

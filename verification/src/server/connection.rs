//! The buffer between a byte stream and its frames.
//!
//! Bytes arrive in pieces of any size. A [`FrameBuffer`] collects them and
//! hands out one frame at a time, each as soon as its last byte is in.
//!
//! It never reads from a stream itself. Whoever owns the stream drives it
//! with [`FrameBuffer::read_frame`]: the first call, with nothing arrived,
//! says what to do; after every read the next call takes what arrived and
//! says what to do then.

use crate::server::buffer;
use crate::server::buffer::buffered;
use crate::server::cursor;
use crate::server::frame::{Error, Frame};
use crate::server::grammar::{frame_at, FrameView};
use crate::server::lemmas::{lemma_frame_cut, lemma_frame_within};
use bytes::BytesMut;
use vstd::prelude::*;

verus! {

/// Bytes that have arrived and belong to no frame handed out so far.
#[derive(Debug)]
pub struct FrameBuffer {
    buffer: BytesMut,
}

/// What a read from the stream means for the connection.
#[derive(Clone, Copy, Debug, PartialEq, Eq, Structural)]
pub enum Fill {
    /// Bytes came in: there may be a frame now.
    Ready,
    /// The peer closed the stream between two frames: no frame will follow.
    Closed,
}

/// What the owner of the stream does next.
#[derive(Debug, PartialEq)]
pub enum Step {
    /// A frame is complete, and this is it.
    Frame(Frame),
    /// No frame is complete: read from the stream once, and come back with
    /// what arrived.
    Read,
    /// The peer closed the stream between two frames: no frame will follow.
    End,
}

/// A [`Step`], apart from how its frame is stored.
pub enum StepView {
    Frame(FrameView),
    Read,
    End,
}

impl View for Step {
    type V = StepView;

    open spec fn view(&self) -> StepView {
        match self {
            Step::Frame(frame) => StepView::Frame(frame@),
            Step::Read => StepView::Read,
            Step::End => StepView::End,
        }
    }
}

/// The outcome of asking `bytes` for their first frame.
pub open spec fn first_frame(bytes: Seq<u8>) -> Result<Option<FrameView>, crate::Error> {
    match frame_at(bytes, 0).outcome {
        Ok(frame) => Ok(Some(frame)),
        Err(Error::Incomplete) => Ok(None),
        Err(Error::Other(e)) => Err(e),
    }
}

/// What is left of `bytes` once their first frame has been asked for: a
/// frame that is there in full is taken off the front, and nothing else is
/// touched.
pub open spec fn after_frame(bytes: Seq<u8>) -> Seq<u8> {
    if frame_at(bytes, 0).outcome is Ok {
        bytes.skip(frame_at(bytes, 0).used as int)
    } else {
        bytes
    }
}

/// What a read that returned `bytes` means to a buffer that holds `held`.
/// A read that returned nothing is the end of the stream: the regular end
/// where no byte is waiting, a broken connection where some are.
pub open spec fn read_outcome(held: Seq<u8>, bytes: Seq<u8>) -> Result<Fill, crate::Error> {
    if bytes.len() > 0 {
        Ok(Fill::Ready)
    } else if held.len() == 0 {
        Ok(Fill::Closed)
    } else {
        Err(crate::Error::ConnectionReset)
    }
}

/// What to do with `bytes` that are waiting: hand out their first frame,
/// or read more.
pub open spec fn frame_or_read(bytes: Seq<u8>) -> Result<StepView, crate::Error> {
    match first_frame(bytes) {
        Ok(Some(frame)) => Ok(StepView::Frame(frame)),
        Ok(None) => Ok(StepView::Read),
        Err(e) => Err(e),
    }
}

/// What to do next, for a buffer that holds `held` when `arrived` comes
/// in. The end of the stream is looked at first; the bytes are asked for a
/// frame only where the stream goes on.
pub open spec fn next_step(held: Seq<u8>, arrived: Option<Seq<u8>>) -> Result<
    StepView,
    crate::Error,
> {
    match arrived {
        Some(bytes) => match read_outcome(held, bytes) {
            Err(e) => Err(e),
            Ok(Fill::Closed) => Ok(StepView::End),
            Ok(Fill::Ready) => frame_or_read(held + bytes),
        },
        None => frame_or_read(held),
    }
}

/// What a buffer holds after the step that [`next_step`] describes.
pub open spec fn held_after(held: Seq<u8>, arrived: Option<Seq<u8>>) -> Seq<u8> {
    match arrived {
        Some(bytes) => if bytes.len() == 0 {
            held
        } else {
            after_frame(held + bytes)
        },
        None => after_frame(held),
    }
}

/// A frame that may be there, seen through its view.
pub open spec fn delivered(result: Result<Option<Frame>, crate::Error>) -> Result<
    Option<FrameView>,
    crate::Error,
> {
    match result {
        Ok(Some(frame)) => Ok(Some(frame@)),
        Ok(None) => Ok(None),
        Err(e) => Err(e),
    }
}

/// A step that may have failed, seen through its view.
pub open spec fn stepped(result: Result<Step, crate::Error>) -> Result<StepView, crate::Error> {
    match result {
        Ok(step) => Ok(step@),
        Err(e) => Err(e),
    }
}

/// What arrived, as plain bytes.
pub open spec fn arrival(arrived: Option<&[u8]>) -> Option<Seq<u8>> {
    match arrived {
        Some(bytes) => Some(bytes@),
        None => None,
    }
}

impl View for FrameBuffer {
    type V = Seq<u8>;

    /// The bytes held, oldest first.
    closed spec fn view(&self) -> Seq<u8> {
        buffered(self.buffer)
    }
}

impl FrameBuffer {
    /// An empty buffer, with room for a few kilobytes before it grows.
    pub fn new() -> (fresh: FrameBuffer)
        ensures
            fresh@ == Seq::<u8>::empty(),
    {
        FrameBuffer { buffer: buffer::with_capacity(4 * 1024) }
    }

    /// Whether no byte is held.
    pub fn is_empty(&self) -> (empty: bool)
        ensures
            empty == (self@.len() == 0),
    {
        buffer::is_empty(&self.buffer)
    }

    /// The number of bytes held.
    pub fn len(&self) -> (held: usize)
        ensures
            held == self@.len(),
    {
        buffer::as_slice(&self.buffer).len()
    }

    /// One step of reading a frame off a stream.
    ///
    /// `arrived` is what the last read returned, or `None` where no read
    /// has been made yet. A read that returned nothing ends the stream:
    /// that is [`Step::End`] on an empty buffer, and a broken connection on
    /// any other. Bytes that arrived are taken in, and the buffer is asked
    /// for its first frame: [`Step::Frame`] where there is one, whose bytes
    /// then leave the buffer, and [`Step::Read`] where more bytes are
    /// needed.
    pub fn read_frame(&mut self, arrived: Option<&[u8]>) -> (result: Result<Step, crate::Error>)
        requires
            arrived matches Some(bytes) ==> old(self)@.len() + bytes@.len() <= usize::MAX,
        ensures
            stepped(result) == next_step(old(self)@, arrival(arrived)),
            final(self)@ == held_after(old(self)@, arrival(arrived)),
    {
        match arrived {
            Some(bytes) => match self.fill(bytes) {
                Err(e) => {
                    return Err(e);
                },
                Ok(Fill::Closed) => {
                    return Ok(Step::End);
                },
                Ok(Fill::Ready) => {},
            },
            None => {},
        }
        match self.parse_frame() {
            Ok(Some(frame)) => Ok(Step::Frame(frame)),
            Ok(None) => Ok(Step::Read),
            Err(e) => Err(e),
        }
    }

    /// Takes the first frame off the buffer, if all of it has arrived.
    ///
    /// The bytes are validated first, without being consumed. Only a frame
    /// that is there in full is decoded, and then exactly its bytes leave
    /// the buffer. While the frame is incomplete the answer is `Ok(None)`;
    /// where the bytes are no frame it is the reason. Either way the
    /// buffer is left as it was.
    pub fn parse_frame(&mut self) -> (result: Result<Option<Frame>, crate::Error>)
        ensures
            delivered(result) == first_frame(old(self)@),
            final(self)@ == after_frame(old(self)@),
    {
        let data: &[u8] = buffer::as_slice(&self.buffer);
        let mut bytes = cursor::new(data);
        proof {
            assert(data@.len() == data.len());
            lemma_frame_within(self@, 0);
        }
        match Frame::check(&mut bytes) {
            Ok(_) => {
                let len: usize = cursor::position(&bytes) as usize;
                cursor::set_position(&mut bytes, 0);
                match Frame::parse(&mut bytes) {
                    Ok(frame) => {
                        buffer::advance(&mut self.buffer, len);
                        Ok(Some(frame))
                    },
                    Err(Error::Incomplete) => Ok(None),
                    Err(Error::Other(e)) => Err(e),
                }
            },
            Err(Error::Incomplete) => Ok(None),
            Err(Error::Other(e)) => Err(e),
        }
    }

    /// Takes in what one read from the stream returned.
    ///
    /// Bytes are appended. A read that returned nothing means that the
    /// peer has closed the stream: between two frames that is the regular
    /// end, in the middle of a frame the connection is broken.
    pub fn fill(&mut self, bytes: &[u8]) -> (result: Result<Fill, crate::Error>)
        requires
            old(self)@.len() + bytes@.len() <= usize::MAX,
        ensures
            final(self)@ == old(self)@ + bytes@,
            result == read_outcome(old(self)@, bytes@),
    {
        if bytes.len() == 0 {
            assert(self@ + bytes@ =~= self@);
            if self.is_empty() {
                Ok(Fill::Closed)
            } else {
                Err(crate::Error::ConnectionReset)
            }
        } else {
            buffer::extend_from_slice(&mut self.buffer, bytes);
            Ok(Fill::Ready)
        }
    }
}

/// Splitting the bytes of a frame over two reads changes nothing.
///
/// A buffer holds `held`, and the first frame of `held`, `first` and
/// `second` together ends somewhere in `second`. Where `first` and `second`
/// arrive in two reads, the step after the first read asks for another read
/// and loses no byte, and the step after the second read gives the frame,
/// and leaves the buffer, that one read of both pieces would have given.
pub proof fn lemma_split_read(held: Seq<u8>, first: Seq<u8>, second: Seq<u8>)
    requires
        first.len() > 0,
        second.len() > 0,
        frame_at(held + (first + second), 0).outcome is Ok,
        held.len() + first.len() < frame_at(held + (first + second), 0).used,
    ensures
        next_step(held, Some(first)) == Ok::<StepView, crate::Error>(StepView::Read),
        held_after(held, Some(first)) == held + first,
        next_step(held + first, Some(second)) == next_step(held, Some(first + second)),
        held_after(held + first, Some(second)) == held_after(held, Some(first + second)),
        next_step(held, Some(first + second)) == Ok::<StepView, crate::Error>(
            StepView::Frame(frame_at(held + (first + second), 0).outcome->Ok_0),
        ),
{
    let whole = held + (first + second);
    let cut = (held.len() + first.len()) as int;
    assert((held + first) + second =~= whole);
    assert(whole.take(cut) =~= held + first);
    lemma_frame_cut(whole, 0, cut);
}

/// The end of the stream, seen from the buffer: a read that returns nothing
/// ends the stream cleanly where the buffer is empty, and breaks the
/// connection where it is not. The buffer stays as it is either way.
pub proof fn lemma_end_of_stream(held: Seq<u8>)
    ensures
        held.len() == 0 ==> next_step(held, Some(Seq::<u8>::empty())) == Ok::<
            StepView,
            crate::Error,
        >(StepView::End),
        held.len() > 0 ==> next_step(held, Some(Seq::<u8>::empty())) == Err::<
            StepView,
            crate::Error,
        >(crate::Error::ConnectionReset),
        held_after(held, Some(Seq::<u8>::empty())) == held,
{
}

} // verus!

//! The argument cursor: one array frame, taken apart in order.
//!
//! A command arrives as an array whose parts are its name and arguments.
//! A [`Parser`] hands them out front to back, each as the type the caller
//! asks for, and tells running out of arguments apart from an argument of
//! the wrong kind.

use crate::server::frame::{lemma_views, Frame};
use crate::server::grammar::{decimal_of, FrameView};
use crate::server::payload;
use crate::server::payload::payload_bytes;
use crate::server::text;
use bytes::Bytes;
use vstd::prelude::*;
use vstd::string::StringExecFns;
use vstd::utf8::{decode_utf8, encode_utf8, valid_utf8};

verus! {

/// A forward-only cursor over the parts of an array frame.
#[derive(Debug)]
pub struct Parser {
    /// The parts not yet handed out, the next one last.
    tokens: Vec<Frame>,
}

/// Why no argument was handed out.
#[derive(Clone, Copy, Debug, PartialEq, Eq, Structural)]
pub enum ParserError {
    /// The arguments are used up.
    NoMoreFrame,
    /// The argument at hand, or the frame as a whole, is not what was
    /// asked for.
    Other(crate::Error),
}

impl ParserError {
    /// What the error says.
    pub open spec fn description(self) -> Seq<char> {
        match self {
            ParserError::NoMoreFrame => "protocol error; unexpected end of stream"@,
            ParserError::Other(reason) => reason.description(),
        }
    }

    /// The error as text.
    pub fn to_string(&self) -> (text: String)
        ensures
            text@ == self.description(),
    {
        match self {
            ParserError::NoMoreFrame => String::from_str("protocol error; unexpected end of stream"),
            ParserError::Other(reason) => reason.to_string(),
        }
    }
}

/// The text an argument stands for: a simple frame as it is, a bulk frame
/// where it is UTF-8.
pub open spec fn string_of(arg: FrameView) -> Result<Seq<char>, ParserError> {
    match arg {
        FrameView::Simple(text) => Ok(text),
        FrameView::Bulk(data) => if valid_utf8(data) {
            Ok(decode_utf8(data))
        } else {
            Err(ParserError::Other(crate::Error::InvalidString))
        },
        _ => Err(ParserError::Other(crate::Error::ExpectedText)),
    }
}

/// The bytes an argument stands for: those of a bulk frame, or the UTF-8
/// encoding of a simple one.
pub open spec fn bytes_of(arg: FrameView) -> Result<Seq<u8>, ParserError> {
    match arg {
        FrameView::Simple(text) => Ok(encode_utf8(text)),
        FrameView::Bulk(data) => Ok(data),
        _ => Err(ParserError::Other(crate::Error::ExpectedText)),
    }
}

/// What unsigned decimal digits spell, as the value of an argument.
pub open spec fn number_of(digits: Seq<u8>) -> Result<u64, ParserError> {
    match decimal_of(digits) {
        Some(value) => Ok(value),
        None => Err(ParserError::Other(crate::Error::InvalidNumber)),
    }
}

/// The number an argument stands for: an integer frame as it is, a simple
/// or bulk frame where its content is an unsigned decimal number.
pub open spec fn int_of(arg: FrameView) -> Result<u64, ParserError> {
    match arg {
        FrameView::Integer(value) => Ok(value),
        FrameView::Simple(text) => number_of(encode_utf8(text)),
        FrameView::Bulk(data) => number_of(data),
        _ => Err(ParserError::Other(crate::Error::ExpectedInteger)),
    }
}

/// A text result, seen through the view of the text.
pub open spec fn text_view(result: Result<String, ParserError>) -> Result<Seq<char>, ParserError> {
    match result {
        Ok(text) => Ok(text@),
        Err(e) => Err(e),
    }
}

/// A payload result, seen through the bytes of the payload.
pub open spec fn bytes_view(result: Result<Bytes, ParserError>) -> Result<Seq<u8>, ParserError> {
    match result {
        Ok(data) => Ok(payload_bytes(data)),
        Err(e) => Err(e),
    }
}

/// A frame result, seen through the view of the frame.
pub open spec fn frame_view(result: Result<Frame, ParserError>) -> Result<FrameView, ParserError> {
    match result {
        Ok(frame) => Ok(frame@),
        Err(e) => Err(e),
    }
}

impl View for Parser {
    type V = Seq<FrameView>;

    /// The arguments not yet handed out, the next one first.
    closed spec fn view(&self) -> Seq<FrameView> {
        Seq::new(self.tokens@.len(), |i: int| self.tokens@[self.tokens@.len() - 1 - i]@)
    }
}

impl Parser {
    /// A cursor over the parts of `frame`, which has to be an array.
    pub fn new(frame: Frame) -> (result: Result<Parser, ParserError>)
        ensures
            match frame@ {
                FrameView::Array(parts) => result matches Ok(parser) && parser@ == parts,
                _ => result matches Err(e) && e == ParserError::Other(crate::Error::ExpectedArray),
            },
    {
        let mut array: Vec<Frame> = match frame {
            Frame::Array(array) => array,
            _ => {
                return Err(ParserError::Other(crate::Error::ExpectedArray));
            },
        };
        let ghost parts = array@;
        let mut tokens: Vec<Frame> = Vec::new();
        while array.len() > 0
            invariant
                array@.len() + tokens@.len() == parts.len(),
                forall|i: int| 0 <= i < array@.len() ==> array@[i] == parts[i],
                forall|i: int|
                    0 <= i < tokens@.len() ==> #[trigger] tokens@[i] == parts[parts.len() - 1 - i],
            decreases array@.len(),
        {
            match array.pop() {
                Some(frame) => {
                    tokens.push(frame);
                },
                None => {},
            }
        }
        let parser = Parser { tokens };
        proof {
            lemma_views(parts);
            assert(parser@ =~= frame@->Array_0);
        }
        Ok(parser)
    }

    /// The next argument, whatever it is.
    pub fn next(&mut self) -> (result: Result<Frame, ParserError>)
        ensures
            old(self)@.len() == 0 ==> {
                &&& result matches Err(e) && e == ParserError::NoMoreFrame
                &&& final(self)@ == old(self)@
            },
            old(self)@.len() > 0 ==> {
                &&& frame_view(result) == Ok::<FrameView, ParserError>(old(self)@[0])
                &&& final(self)@ == old(self)@.drop_first()
            },
    {
        match self.tokens.pop() {
            Some(frame) => {
                assert(self@ =~= old(self)@.drop_first());
                Ok(frame)
            },
            None => Err(ParserError::NoMoreFrame),
        }
    }

    /// The next argument as text.
    pub fn next_string(&mut self) -> (result: Result<String, ParserError>)
        ensures
            old(self)@.len() == 0 ==> {
                &&& result matches Err(e) && e == ParserError::NoMoreFrame
                &&& final(self)@ == old(self)@
            },
            old(self)@.len() > 0 ==> {
                &&& text_view(result) == string_of(old(self)@[0])
                &&& final(self)@ == old(self)@.drop_first()
            },
    {
        match self.next() {
            Err(e) => Err(e),
            Ok(Frame::Simple(text)) => Ok(text),
            Ok(Frame::Bulk(data)) => match text::str_from_utf8(payload::as_slice(&data)) {
                Ok(text) => Ok(text.to_owned()),
                Err(_) => Err(ParserError::Other(crate::Error::InvalidString)),
            },
            Ok(_) => Err(ParserError::Other(crate::Error::ExpectedText)),
        }
    }

    /// The next argument as raw bytes.
    pub fn next_bytes(&mut self) -> (result: Result<Bytes, ParserError>)
        ensures
            old(self)@.len() == 0 ==> {
                &&& result matches Err(e) && e == ParserError::NoMoreFrame
                &&& final(self)@ == old(self)@
            },
            old(self)@.len() > 0 ==> {
                &&& bytes_view(result) == bytes_of(old(self)@[0])
                &&& final(self)@ == old(self)@.drop_first()
            },
    {
        match self.next() {
            Err(e) => Err(e),
            Ok(Frame::Simple(text)) => Ok(payload::copy_from_slice(text.as_str().as_bytes())),
            Ok(Frame::Bulk(data)) => Ok(data),
            Ok(_) => Err(ParserError::Other(crate::Error::ExpectedText)),
        }
    }

    /// The next argument as an unsigned number.
    pub fn next_int(&mut self) -> (result: Result<u64, ParserError>)
        ensures
            old(self)@.len() == 0 ==> {
                &&& result matches Err(e) && e == ParserError::NoMoreFrame
                &&& final(self)@ == old(self)@
            },
            old(self)@.len() > 0 ==> {
                &&& result == int_of(old(self)@[0])
                &&& final(self)@ == old(self)@.drop_first()
            },
    {
        match self.next() {
            Err(e) => Err(e),
            Ok(Frame::Integer(value)) => Ok(value),
            Ok(Frame::Simple(text)) => match text::decimal(text.as_str().as_bytes()) {
                Some(value) => Ok(value),
                None => Err(ParserError::Other(crate::Error::InvalidNumber)),
            },
            Ok(Frame::Bulk(data)) => match text::decimal(payload::as_slice(&data)) {
                Some(value) => Ok(value),
                None => Err(ParserError::Other(crate::Error::InvalidNumber)),
            },
            Ok(_) => Err(ParserError::Other(crate::Error::ExpectedInteger)),
        }
    }

    /// Succeeds when every argument has been handed out. An argument that
    /// is left over is an error, and is dropped.
    pub fn finish(&mut self) -> (result: Result<(), ParserError>)
        ensures
            old(self)@.len() == 0 ==> result is Ok && final(self)@ == old(self)@,
            old(self)@.len() > 0 ==> {
                &&& result matches Err(e) && e == ParserError::Other(
                    crate::Error::TrailingArguments,
                )
                &&& final(self)@ == old(self)@.drop_first()
            },
    {
        match self.next() {
            Err(_) => Ok(()),
            Ok(_) => Err(ParserError::Other(crate::Error::TrailingArguments)),
        }
    }
}

} // verus!

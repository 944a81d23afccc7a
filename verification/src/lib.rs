//! Framing layer of a line-oriented, length-prefixed request/response
//! protocol: bytes that arrive piecemeal become typed frames, and a frame
//! that carries a command becomes a sequence of typed arguments.

use crate::server::text::{decimal_text, push_decimal};
use vstd::prelude::*;
use vstd::string::StringExecFns;

pub mod server;

verus! {

/// Size of the scratch buffer a connection reads into.
pub const BUFFER_SIZE: usize = 4096;

/// Why a connection has to be given up.
///
/// Every variant is fatal to the connection it arose on and to nothing else.
/// Running out of bytes is not among them: that is
/// [`server::frame::Error::Incomplete`], which asks for more input.
#[derive(Clone, Copy, Debug, PartialEq, Eq, Structural)]
pub enum Error {
    /// A frame began with a byte that is not one of the five type tags.
    InvalidFrameType(u8),
    /// A number, a length or a text inside a frame is malformed.
    InvalidFrameFormat,
    /// A bulk frame began with `-` and was not the null sentinel.
    InvalidNull,
    /// A command was not framed as an array.
    ExpectedArray,
    /// An argument that should hold text or bytes is neither simple nor bulk.
    ExpectedText,
    /// A bulk argument that should hold text is not UTF-8.
    InvalidString,
    /// An argument that should hold a number is of another kind.
    ExpectedInteger,
    /// An argument that should hold a number does not spell one.
    InvalidNumber,
    /// Arguments were left over after the last expected one.
    TrailingArguments,
    /// The peer closed the stream in the middle of a frame.
    ConnectionReset,
}

impl Error {
    /// What the error says.
    pub open spec fn description(self) -> Seq<char> {
        match self {
            Error::InvalidFrameType(tag) => "protocol error; invalid frame type byte `"@
                + decimal_text(tag as nat) + "`"@,
            Error::InvalidFrameFormat => "protocol error; invalid frame format"@,
            Error::InvalidNull => "protocol invalid; invalid frame format"@,
            Error::ExpectedArray => "protocol error; expected array"@,
            Error::ExpectedText => "protocol error; expected simple frame or bulk frame"@,
            Error::InvalidString => "protocol error; invalid string"@,
            Error::ExpectedInteger => "protocol error; expected int frame"@,
            Error::InvalidNumber => "protocol error; invalid number"@,
            Error::TrailingArguments => "protocol error; expected end of frame, but there was more"@,
            Error::ConnectionReset => "connection reset by peer"@,
        }
    }

    /// The error as text.
    pub fn to_string(&self) -> (text: String)
        ensures
            text@ == self.description(),
    {
        match self {
            Error::InvalidFrameType(tag) => {
                let mut out = String::from_str("protocol error; invalid frame type byte `");
                push_decimal(&mut out, *tag as u64);
                out.append("`");
                out
            },
            Error::InvalidFrameFormat => String::from_str("protocol error; invalid frame format"),
            Error::InvalidNull => String::from_str("protocol invalid; invalid frame format"),
            Error::ExpectedArray => String::from_str("protocol error; expected array"),
            Error::ExpectedText => String::from_str(
                "protocol error; expected simple frame or bulk frame",
            ),
            Error::InvalidString => String::from_str("protocol error; invalid string"),
            Error::ExpectedInteger => String::from_str("protocol error; expected int frame"),
            Error::InvalidNumber => String::from_str("protocol error; invalid number"),
            Error::TrailingArguments => String::from_str(
                "protocol error; expected end of frame, but there was more",
            ),
            Error::ConnectionReset => String::from_str("connection reset by peer"),
        }
    }
}

} // verus!

//! The wire grammar, as mathematics.
//!
//! A frame starts with a type tag. What follows is one line, closed by a
//! carriage return and a line feed, and for bulk and array frames a payload
//! whose size the line announces:
//!
//! | tag | frame   | after the tag                                     |
//! |-----|---------|---------------------------------------------------|
//! | `+` | simple  | text, line break                                  |
//! | `-` | error   | text, line break                                  |
//! | `:` | integer | decimal digits, line break                        |
//! | `$` | bulk    | `-1`, line break: null; else length, line break,  |
//! |     |         | that many bytes of any value, line break          |
//! | `*` | array   | count, line break, that many frames               |
//!
//! [`frame_at`] reads one frame off a byte sequence and is what the
//! executable reader and validator are verified against.

use crate::server::frame::Error;
use vstd::prelude::*;
use vstd::utf8::{decode_utf8, valid_utf8};

verus! {

/// What a frame is, apart from how it is stored.
pub enum FrameView {
    Simple(Seq<char>),
    Error(Seq<char>),
    Integer(u64),
    Bulk(Seq<u8>),
    Array(Seq<FrameView>),
    Null,
}

/// The outcome of reading at some offset: how many bytes were passed over,
/// and what was found. On failure `used` counts the bytes passed over
/// before the failure showed.
pub struct Scan<T> {
    pub used: nat,
    pub outcome: Result<T, Error>,
}

/// `+`, the tag of a simple frame.
pub const TAG_SIMPLE: u8 = 43;

/// `-`, the tag of an error frame.
pub const TAG_ERROR: u8 = 45;

/// `:`, the tag of an integer frame.
pub const TAG_INTEGER: u8 = 58;

/// `$`, the tag of a bulk frame.
pub const TAG_BULK: u8 = 36;

/// `*`, the tag of an array frame.
pub const TAG_ARRAY: u8 = 42;

/// The minus sign, which after the bulk tag announces the null frame.
pub const MINUS: u8 = 45;

/// The digit `1`.
pub const ONE: u8 = 49;

/// Carriage return, the first byte of a line break.
pub const CR: u8 = 13;

/// Line feed, the second byte of a line break.
pub const LF: u8 = 10;

/// A line break stands at offset `i` of `s`.
pub open spec fn is_line_break(s: Seq<u8>, i: int) -> bool {
    0 <= i && i + 1 < s.len() && s[i] == CR && s[i + 1] == LF
}

/// Length of the line that starts at `from`: the number of bytes before the
/// first line break at or after `from`. `None` when no line break follows.
pub open spec fn line_len(s: Seq<u8>, from: int) -> Option<nat>
    decreases s.len() - from,
{
    if from < 0 || from + 1 >= s.len() {
        None
    } else if s[from] == CR && s[from + 1] == LF {
        Some(0)
    } else {
        match line_len(s, from + 1) {
            Some(n) => Some(n + 1),
            None => None,
        }
    }
}

/// `b` is an ASCII decimal digit.
pub open spec fn is_digit(b: u8) -> bool {
    48 <= b <= 57
}

/// `t` is a non-empty run of decimal digits.
pub open spec fn is_decimal(t: Seq<u8>) -> bool {
    t.len() > 0 && forall|i: int| 0 <= i < t.len() ==> is_digit(#[trigger] t[i])
}

/// The number that the digits of `t` spell.
pub open spec fn decimal_value(t: Seq<u8>) -> nat
    decreases t.len(),
{
    if t.len() == 0 {
        0
    } else {
        decimal_value(t.drop_last()) * 10 + (t.last() - 48) as nat
    }
}

/// The unsigned 64-bit number that `t` spells; `None` when `t` is not a
/// non-empty run of digits or spells a larger number.
pub open spec fn decimal_of(t: Seq<u8>) -> Option<u64> {
    if is_decimal(t) && decimal_value(t) <= u64::MAX {
        Some(decimal_value(t) as u64)
    } else {
        None
    }
}

/// Bytes between `pos` and the end of `s`.
pub open spec fn rest(s: Seq<u8>, pos: int) -> nat {
    if pos <= s.len() {
        (s.len() - pos) as nat
    } else {
        0
    }
}

/// The line that, after the bulk tag, makes the null frame: `-1`.
pub open spec fn null_line() -> Seq<u8> {
    seq![MINUS, ONE]
}

/// A scan that failed with `error` after `used` bytes.
pub open spec fn failed<T>(used: nat, error: Error) -> Scan<T> {
    Scan { used, outcome: Err(error) }
}

/// The error for a number, a length or a text that is not well formed.
pub open spec fn malformed() -> Error {
    Error::Other(crate::Error::InvalidFrameFormat)
}

/// A line of text that starts at `from`.
pub open spec fn text_at(s: Seq<u8>, from: int) -> Scan<Seq<char>> {
    match line_len(s, from) {
        None => failed(0, Error::Incomplete),
        Some(n) => {
            let line = s.subrange(from, from + n);
            Scan {
                used: n + 2,
                outcome: if valid_utf8(line) {
                    Ok(decode_utf8(line))
                } else {
                    Err(malformed())
                },
            }
        },
    }
}

/// A line of decimal digits that starts at `from`.
pub open spec fn decimal_at(s: Seq<u8>, from: int) -> Scan<u64> {
    match line_len(s, from) {
        None => failed(0, Error::Incomplete),
        Some(n) => Scan {
            used: n + 2,
            outcome: match decimal_of(s.subrange(from, from + n)) {
                Some(value) => Ok(value),
                None => Err(malformed()),
            },
        },
    }
}

/// The body of a bulk frame, which starts at `from`, right after the tag.
pub open spec fn bulk_at(s: Seq<u8>, from: int) -> Scan<FrameView> {
    if from < 0 || from >= s.len() {
        failed(0, Error::Incomplete)
    } else if s[from] == MINUS {
        match line_len(s, from) {
            None => failed(0, Error::Incomplete),
            Some(n) => Scan {
                used: n + 2,
                outcome: if s.subrange(from, from + n) == null_line() {
                    Ok(FrameView::Null)
                } else {
                    Err(Error::Other(crate::Error::InvalidNull))
                },
            },
        }
    } else {
        let head = decimal_at(s, from);
        match head.outcome {
            Err(e) => failed(head.used, e),
            Ok(len) => {
                let start = from + head.used;
                if len > usize::MAX {
                    failed(head.used, malformed())
                } else if rest(s, start) < len + 2 {
                    failed(head.used, Error::Incomplete)
                } else if !is_line_break(s, start + len) {
                    failed(head.used, malformed())
                } else {
                    Scan {
                        used: head.used + len as nat + 2,
                        outcome: Ok(FrameView::Bulk(s.subrange(start, start + len))),
                    }
                }
            },
        }
    }
}

/// The frame that starts at `pos`.
pub open spec fn frame_at(s: Seq<u8>, pos: int) -> Scan<FrameView>
    decreases rest(s, pos), 0nat,
{
    if pos < 0 || pos >= s.len() {
        failed(0, Error::Incomplete)
    } else {
        let tag = s[pos];
        let body = if tag == TAG_SIMPLE {
            let text = text_at(s, pos + 1);
            Scan {
                used: text.used,
                outcome: match text.outcome {
                    Ok(t) => Ok(FrameView::Simple(t)),
                    Err(e) => Err(e),
                },
            }
        } else if tag == TAG_ERROR {
            let text = text_at(s, pos + 1);
            Scan {
                used: text.used,
                outcome: match text.outcome {
                    Ok(t) => Ok(FrameView::Error(t)),
                    Err(e) => Err(e),
                },
            }
        } else if tag == TAG_INTEGER {
            let number = decimal_at(s, pos + 1);
            Scan {
                used: number.used,
                outcome: match number.outcome {
                    Ok(n) => Ok(FrameView::Integer(n)),
                    Err(e) => Err(e),
                },
            }
        } else if tag == TAG_BULK {
            bulk_at(s, pos + 1)
        } else if tag == TAG_ARRAY {
            let head = decimal_at(s, pos + 1);
            match head.outcome {
                Err(e) => failed(head.used, e),
                Ok(count) => {
                    let items = frames_at(s, pos + 1 + head.used, count as nat);
                    Scan {
                        used: head.used + items.used,
                        outcome: match items.outcome {
                            Ok(parts) => Ok(FrameView::Array(parts)),
                            Err(e) => Err(e),
                        },
                    }
                },
            }
        } else {
            failed(0, Error::Other(crate::Error::InvalidFrameType(tag)))
        };
        Scan { used: 1 + body.used, outcome: body.outcome }
    }
}

/// `count` frames in a row, the first of which starts at `pos`.
pub open spec fn frames_at(s: Seq<u8>, pos: int, count: nat) -> Scan<Seq<FrameView>>
    decreases rest(s, pos), count + 1,
{
    if count == 0 {
        Scan { used: 0, outcome: Ok(Seq::empty()) }
    } else {
        let first = frame_at(s, pos);
        match first.outcome {
            Err(e) => failed(first.used, e),
            Ok(frame) => {
                let others = frames_at(s, pos + first.used, (count - 1) as nat);
                Scan {
                    used: first.used + others.used,
                    outcome: match others.outcome {
                        Ok(frames) => Ok(seq![frame] + frames),
                        Err(e) => Err(e),
                    },
                }
            },
        }
    }
}

/// What a validation of the frame at `pos` finds: the extent of
/// [`frame_at`], and its outcome without the value.
pub open spec fn checked_at(s: Seq<u8>, pos: int) -> Scan<()> {
    Scan {
        used: frame_at(s, pos).used,
        outcome: match frame_at(s, pos).outcome {
            Ok(_) => Ok(()),
            Err(e) => Err(e),
        },
    }
}

} // verus!

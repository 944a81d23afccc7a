//! Frames as text, for people to read.
//!
//! This is not the wire form and cannot be read back: an array is its
//! parts with blanks between them, and a simple frame and a bulk frame with
//! the same content look alike.

use crate::server::frame::{lemma_views, views, Frame};
use crate::server::grammar::FrameView;
use crate::server::payload;
use crate::server::payload::escaped;
use crate::server::text;
use crate::server::text::decimal_text;
use vstd::prelude::*;
use vstd::std_specs::vec::axiom_vec_index_decreases;
use vstd::string::StringExecFns;
use vstd::utf8::{decode_utf8, valid_utf8};

verus! {

/// How a frame reads.
///
/// Simple text and numbers stand as they are, an error after `error: `,
/// null as `(nil)`. A payload stands as text where it is UTF-8, and as an
/// escaped byte string where it is not.
pub open spec fn render(frame: FrameView) -> Seq<char>
    decreases frame,
{
    match frame {
        FrameView::Simple(text) => text,
        FrameView::Error(text) => "error: "@ + text,
        FrameView::Integer(value) => decimal_text(value as nat),
        FrameView::Bulk(data) => if valid_utf8(data) {
            decode_utf8(data)
        } else {
            escaped(data)
        },
        FrameView::Null => "(nil)"@,
        FrameView::Array(parts) => render_all(parts),
    }
}

/// How frames in a row read: one after the other, a blank between each
/// two.
pub open spec fn render_all(parts: Seq<FrameView>) -> Seq<char>
    decreases parts,
{
    if parts.len() == 0 {
        Seq::empty()
    } else if parts.len() == 1 {
        render(parts[0])
    } else {
        render_all(parts.drop_last()) + " "@ + render(parts.last())
    }
}

impl Frame {
    /// The frame as text.
    pub fn to_string(&self) -> (text: String)
        ensures
            text@ == render(self@),
        decreases self,
    {
        match self {
            Frame::Simple(response) => response.clone(),
            Frame::Error(msg) => String::from_str("error: ").concat(msg.as_str()),
            Frame::Integer(num) => {
                let mut out = String::new();
                text::push_decimal(&mut out, *num);
                out
            },
            Frame::Bulk(msg) => match text::str_from_utf8(payload::as_slice(msg)) {
                Ok(string) => string.to_owned(),
                Err(_) => payload::debug_text(msg),
            },
            Frame::Null => String::from_str("(nil)"),
            Frame::Array(parts) => {
                let mut out = String::new();
                let mut i: usize = 0;
                proof {
                    lemma_views(parts@);
                }
                while i < parts.len()
                    invariant
                        i <= parts.len(),
                        self == Frame::Array(*parts),
                        views(parts@).len() == parts@.len(),
                        forall|j: int|
                            0 <= j < parts@.len() ==> (#[trigger] views(parts@)[j]) == parts@[j]@,
                        out@ == render_all(views(parts@).take(i as int)),
                    decreases parts.len() - i,
                {
                    let ghost shown = views(parts@).take(i as int);
                    let ghost next = views(parts@).take(i + 1);
                    if i > 0 {
                        out.append(" ");
                    }
                    proof {
                        axiom_vec_index_decreases(*parts, i as int);
                        assert(decreases_to!(*self => self->Array_0));
                    }
                    let part = parts[i].to_string();
                    out.append(part.as_str());
                    proof {
                        assert(next.drop_last() =~= shown);
                        assert(next.last() == parts@[i as int]@);
                        assert(shown.len() == 0 ==> render_all(shown) =~= Seq::<char>::empty());
                    }
                    i = i + 1;
                }
                assert(views(parts@).take(i as int) =~= views(parts@));
                out
            },
        }
    }
}

} // verus!

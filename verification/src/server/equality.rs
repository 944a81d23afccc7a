//! Comparing a frame with a piece of text.

use crate::server::frame::Frame;
use crate::server::grammar::FrameView;
use crate::server::payload;
use vstd::prelude::*;
use vstd::std_specs::cmp::PartialEqSpecImpl;
use vstd::utf8::{encode_utf8, encode_utf8_decode_utf8};

verus! {

/// Whether two slices hold the same bytes.
pub fn same_bytes(a: &[u8], b: &[u8]) -> (same: bool)
    ensures
        same == (a@ == b@),
{
    if a.len() != b.len() {
        return false;
    }
    let mut i: usize = 0;
    while i < a.len()
        invariant
            i <= a.len(),
            a.len() == b.len(),
            forall|j: int| 0 <= j < i ==> a@[j] == b@[j],
        decreases a.len() - i,
    {
        if a[i] != b[i] {
            return false;
        }
        i = i + 1;
    }
    assert(a@ =~= b@);
    true
}

/// Whether a frame reads `text`: a simple frame with that text, or a bulk
/// frame with the bytes of that text. No other frame equals a text.
pub open spec fn reads(frame: FrameView, text: Seq<char>) -> bool {
    match frame {
        FrameView::Simple(own) => own == text,
        FrameView::Bulk(data) => data == encode_utf8(text),
        _ => false,
    }
}

impl PartialEq<&str> for Frame {
    fn eq(&self, other: &&str) -> (same: bool) {
        match self {
            Frame::Simple(own) => {
                proof {
                    encode_utf8_decode_utf8(own@);
                    encode_utf8_decode_utf8(other@);
                }
                same_bytes(own.as_str().as_bytes(), other.as_bytes())
            },
            Frame::Bulk(data) => same_bytes(payload::as_slice(data), other.as_bytes()),
            _ => false,
        }
    }
}

impl PartialEqSpecImpl<&str> for Frame {
    open spec fn obeys_eq_spec() -> bool {
        true
    }

    open spec fn eq_spec(&self, other: &&str) -> bool {
        reads(self@, other@)
    }
}

} // verus!

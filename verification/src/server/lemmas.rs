//! What the grammar guarantees.
//!
//! The facts that make the two-pass reading of a buffer sound: a frame
//! never reaches past the end of its bytes, depends on no byte behind its
//! own, and cannot be mistaken for anything while part of it is missing.

use crate::server::frame::Error;
use crate::server::grammar::{
    bulk_at, checked_at, decimal_at, frame_at, frames_at, is_line_break, line_len, null_line, rest,
    FrameView, CR, LF, MINUS, TAG_ARRAY, TAG_BULK,
};
use vstd::prelude::*;

verus! {

/// Where `line_len` finds a line, its length leads to the first line break
/// at or after `from`; where it finds none, there is no line break from
/// there on.
pub proof fn lemma_line_len(s: Seq<u8>, from: int)
    ensures
        match line_len(s, from) {
            Some(n) => {
                &&& 0 <= from
                &&& is_line_break(s, from + n)
                &&& forall|j: int| from <= j < from + n ==> !is_line_break(s, j)
            },
            None => forall|j: int| 0 <= from <= j ==> !is_line_break(s, j),
        },
    decreases s.len() - from,
{
    if from < 0 || from + 1 >= s.len() {
    } else if s[from] == CR && s[from + 1] == LF {
    } else {
        lemma_line_len(s, from + 1);
    }
}

/// The first line break at or after `from` is where the line ends.
pub proof fn lemma_line_len_found(s: Seq<u8>, from: int, n: nat)
    requires
        0 <= from,
        is_line_break(s, from + n),
        forall|j: int| from <= j < from + n ==> !is_line_break(s, j),
    ensures
        line_len(s, from) == Some(n),
    decreases n,
{
    if n > 0 {
        assert(!is_line_break(s, from));
        lemma_line_len_found(s, from + 1, (n - 1) as nat);
    }
}

/// A line does not depend on what follows its line break.
pub proof fn lemma_line_stable(s: Seq<u8>, t: Seq<u8>, from: int)
    requires
        line_len(s, from) is Some,
        from + line_len(s, from)->0 + 2 <= t.len(),
        forall|i: int| from <= i < from + line_len(s, from)->0 + 2 ==> s[i] == t[i],
    ensures
        line_len(t, from) == line_len(s, from),
        s.subrange(from, from + line_len(s, from)->0) == t.subrange(
            from,
            from + line_len(s, from)->0,
        ),
{
    let n = line_len(s, from)->0;
    lemma_line_len(s, from);
    assert forall|j: int| from <= j < from + n implies !is_line_break(t, j) by {
        assert(!is_line_break(s, j));
    }
    lemma_line_len_found(t, from, n);
    assert(s.subrange(from, from + n) =~= t.subrange(from, from + n));
}

/// A line whose line break is cut off, in part or in whole, is no line.
pub proof fn lemma_line_cut(s: Seq<u8>, from: int, k: int)
    requires
        line_len(s, from) is Some,
        0 <= k < from + line_len(s, from)->0 + 2,
    ensures
        line_len(s.take(k), from) is None,
{
    let n = line_len(s, from)->0;
    let t = s.take(k);
    lemma_line_len(s, from);
    lemma_line_len(t, from);
    assert(k <= s.len());
    if let Some(m) = line_len(t, from) {
        assert(is_line_break(t, from + m));
        assert(is_line_break(s, from + m));
        assert(m < n);
    }
}

/// A scan never passes the end of its bytes.
pub proof fn lemma_frame_within(s: Seq<u8>, pos: int)
    ensures
        frame_at(s, pos).used <= rest(s, pos),
    decreases rest(s, pos), 0nat,
{
    if 0 <= pos < s.len() {
        lemma_line_len(s, pos + 1);
        if s[pos] == TAG_BULK {
            lemma_bulk_within(s, pos + 1);
        }
        let head = decimal_at(s, pos + 1);
        if head.outcome is Ok {
            lemma_frames_within(s, pos + 1 + head.used, head.outcome->Ok_0 as nat);
        }
    }
}

/// A scan of several frames never passes the end of its bytes.
pub proof fn lemma_frames_within(s: Seq<u8>, pos: int, count: nat)
    ensures
        frames_at(s, pos, count).used <= rest(s, pos),
    decreases rest(s, pos), count + 1,
{
    if count > 0 {
        lemma_frame_within(s, pos);
        let first = frame_at(s, pos);
        if first.outcome is Ok {
            lemma_frames_within(s, pos + first.used, (count - 1) as nat);
        }
    }
}

proof fn lemma_bulk_within(s: Seq<u8>, from: int)
    requires
        0 <= from,
    ensures
        bulk_at(s, from).used <= rest(s, from),
{
    lemma_line_len(s, from);
}

/// A frame depends on its own bytes alone: bytes that agree with `s` from
/// `pos` to the end of the frame hold the same frame there, whatever
/// follows.
pub proof fn lemma_frame_stable(s: Seq<u8>, t: Seq<u8>, pos: int)
    requires
        frame_at(s, pos).outcome is Ok,
        pos + frame_at(s, pos).used <= t.len(),
        forall|i: int| pos <= i < pos + frame_at(s, pos).used ==> s[i] == t[i],
    ensures
        frame_at(t, pos) == frame_at(s, pos),
    decreases rest(s, pos), 0nat,
{
    let from = pos + 1;
    assert(s[pos] == t[pos]);
    if s[pos] == TAG_BULK {
        assert(s[from] == t[from]);
        if s[from] == MINUS {
            lemma_line_stable(s, t, from);
        } else {
            let head = decimal_at(s, from);
            lemma_line_stable(s, t, from);
            let start = from + head.used;
            let len = head.outcome->Ok_0 as int;
            assert(s.subrange(start, start + len) =~= t.subrange(start, start + len));
        }
    } else {
        lemma_line_stable(s, t, from);
        if s[pos] == TAG_ARRAY {
            let head = decimal_at(s, from);
            lemma_frames_stable(s, t, from + head.used, head.outcome->Ok_0 as nat);
        }
    }
}

/// Several frames in a row depend on their own bytes alone.
pub proof fn lemma_frames_stable(s: Seq<u8>, t: Seq<u8>, pos: int, count: nat)
    requires
        frames_at(s, pos, count).outcome is Ok,
        pos + frames_at(s, pos, count).used <= t.len(),
        forall|i: int| pos <= i < pos + frames_at(s, pos, count).used ==> s[i] == t[i],
    ensures
        frames_at(t, pos, count) == frames_at(s, pos, count),
    decreases rest(s, pos), count + 1,
{
    if count > 0 {
        let first = frame_at(s, pos);
        lemma_frame_stable(s, t, pos);
        lemma_frames_stable(s, t, pos + first.used, (count - 1) as nat);
    }
}

/// A frame with its end cut off is incomplete, wherever the cut falls, and
/// never malformed.
pub proof fn lemma_frame_cut(s: Seq<u8>, pos: int, k: int)
    requires
        frame_at(s, pos).outcome is Ok,
        0 <= k < pos + frame_at(s, pos).used,
    ensures
        frame_at(s.take(k), pos).outcome == Err::<FrameView, Error>(Error::Incomplete),
        checked_at(s.take(k), pos).outcome == Err::<(), Error>(Error::Incomplete),
    decreases rest(s, pos), 0nat,
{
    let t = s.take(k);
    let from = pos + 1;
    lemma_frame_within(s, pos);
    if pos < k {
        assert(s[pos] == t[pos]);
        if s[pos] == TAG_BULK {
            if from < k {
                assert(s[from] == t[from]);
                if s[from] == MINUS {
                    lemma_line_cut(s, from, k);
                } else {
                    let head = decimal_at(s, from);
                    if k < from + head.used {
                        lemma_line_cut(s, from, k);
                    } else {
                        lemma_line_stable(s, t, from);
                    }
                }
            }
        } else {
            let head = decimal_at(s, from);
            let line = line_len(s, from)->0;
            if k < from + line + 2 {
                lemma_line_cut(s, from, k);
            } else {
                lemma_line_stable(s, t, from);
                if s[pos] == TAG_ARRAY {
                    lemma_frames_cut(s, from + head.used, head.outcome->Ok_0 as nat, k);
                }
            }
        }
    }
}

/// Frames in a row with their end cut off are incomplete.
pub proof fn lemma_frames_cut(s: Seq<u8>, pos: int, count: nat, k: int)
    requires
        frames_at(s, pos, count).outcome is Ok,
        0 <= pos <= k < pos + frames_at(s, pos, count).used,
    ensures
        frames_at(s.take(k), pos, count).outcome == Err::<Seq<FrameView>, Error>(
            Error::Incomplete,
        ),
    decreases rest(s, pos), count + 1,
{
    let t = s.take(k);
    let first = frame_at(s, pos);
    lemma_frames_within(s, pos, count);
    if k < pos + first.used {
        lemma_frame_cut(s, pos, k);
    } else {
        lemma_frame_stable(s, t, pos);
        lemma_frames_cut(s, pos + first.used, (count - 1) as nat, k);
    }
}

/// Validation and decoding agree. Where a frame passes validation, decoding
/// it from the same offset succeeds and ends at the same byte; where one
/// fails, the other fails with the same error.
pub proof fn lemma_check_then_parse(s: Seq<u8>, pos: int)
    ensures
        checked_at(s, pos).outcome is Ok <==> frame_at(s, pos).outcome is Ok,
        checked_at(s, pos).used == frame_at(s, pos).used,
        forall|e: Error|
            checked_at(s, pos).outcome == Err::<(), Error>(e) <==> frame_at(s, pos).outcome
                == Err::<FrameView, Error>(e),
{
}

/// After the bulk tag, a line that starts with a minus sign is the null
/// frame where it reads `-1`, and is malformed where it reads anything
/// else.
pub proof fn lemma_null_sentinel(s: Seq<u8>, pos: int)
    requires
        0 <= pos,
        pos + 1 < s.len(),
        s[pos] == TAG_BULK,
        s[pos + 1] == MINUS,
        line_len(s, pos + 1) is Some,
    ensures
        frame_at(s, pos).used == line_len(s, pos + 1)->0 + 3,
        frame_at(s, pos).outcome == if s.subrange(pos + 1, pos + 1 + line_len(s, pos + 1)->0)
            == null_line() {
            Ok::<FrameView, Error>(FrameView::Null)
        } else {
            Err::<FrameView, Error>(Error::Other(crate::Error::InvalidNull))
        },
{
}

} // verus!

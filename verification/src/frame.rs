//! Byte stuffing and framing: how a canonical payload goes on the wire.
//!
//! Three byte values are reserved. Inside a frame each of them is replaced by
//! the escape byte and a substitute, so that the start and end markers can
//! only be what they say they are.

use crate::crc::{crc8, create_crc8};
use vstd::prelude::*;

verus! {

/// Marks the start of a frame.
pub const FRAME_START: u8 = 0x00;

/// Introduces a substitute for a reserved byte.
pub const ESCAPE: u8 = 0xFF;

/// Marks the end of a frame.
pub const FRAME_END: u8 = 0xCC;

/// Follows [`ESCAPE`] in place of [`FRAME_START`].
pub const SUB_START: u8 = 0xEE;

/// Follows [`ESCAPE`] in place of [`ESCAPE`].
pub const SUB_ESCAPE: u8 = 0xDD;

/// Follows [`ESCAPE`] in place of [`FRAME_END`].
pub const SUB_END: u8 = 0xBB;

/// Whether `b` may not appear as itself inside a frame.
pub open spec fn is_reserved(b: u8) -> bool {
    b == FRAME_START || b == ESCAPE || b == FRAME_END
}

/// Whether `b` is one of the three bytes that may follow [`ESCAPE`].
pub open spec fn is_substitute(b: u8) -> bool {
    b == SUB_START || b == SUB_ESCAPE || b == SUB_END
}

/// What one payload byte becomes on the wire.
pub open spec fn stuff_byte(b: u8) -> Seq<u8> {
    if b == FRAME_START {
        seq![ESCAPE, SUB_START]
    } else if b == ESCAPE {
        seq![ESCAPE, SUB_ESCAPE]
    } else if b == FRAME_END {
        seq![ESCAPE, SUB_END]
    } else {
        seq![b]
    }
}

/// What a payload becomes on the wire: each byte stuffed, in order.
pub open spec fn stuff(payload: Seq<u8>) -> Seq<u8>
    decreases payload.len(),
{
    if payload.len() == 0 {
        Seq::empty()
    } else {
        stuff(payload.drop_last()) + stuff_byte(payload.last())
    }
}

/// The frame of a payload: start marker, stuffed payload, the checksum of the
/// payload as it was before stuffing, end marker.
pub open spec fn frame_of(payload: Seq<u8>) -> Seq<u8> {
    seq![FRAME_START] + stuff(payload) + seq![crc8(payload), FRAME_END]
}

/// Appends to `out` what `b` becomes on the wire.
pub fn push_stuffed(out: &mut Vec<u8>, b: u8)
    ensures
        final(out)@ == old(out)@ + stuff_byte(b),
{
    if b == FRAME_START {
        out.push(ESCAPE);
        out.push(SUB_START);
    } else if b == ESCAPE {
        out.push(ESCAPE);
        out.push(SUB_ESCAPE);
    } else if b == FRAME_END {
        out.push(ESCAPE);
        out.push(SUB_END);
    } else {
        out.push(b);
    }
    assert(out@ =~= old(out)@ + stuff_byte(b));
}

/// Builds the frame of a payload.
///
/// An empty payload is never framed: the one command without a payload is
/// dropped before it gets here.
pub fn frame(payload: &[u8]) -> (wire: Vec<u8>)
    requires
        payload@.len() > 0,
    ensures
        wire@ == frame_of(payload@),
{
    let mut wire: Vec<u8> = Vec::new();
    wire.push(FRAME_START);
    let mut i: usize = 0;
    while i < payload.len()
        invariant
            i <= payload.len(),
            wire@ == seq![FRAME_START] + stuff(payload@.take(i as int)),
        decreases payload.len() - i,
    {
        push_stuffed(&mut wire, payload[i]);
        proof {
            assert(payload@.take(i + 1).drop_last() == payload@.take(i as int));
            assert(wire@ =~= seq![FRAME_START] + stuff(payload@.take(i + 1)));
        }
        i = i + 1;
    }
    proof {
        assert(payload@.take(i as int) == payload@);
    }
    wire.push(create_crc8(payload));
    wire.push(FRAME_END);
    assert(wire@ =~= frame_of(payload@));
    wire
}

/// Stuffing a concatenation is concatenating the stuffed parts.
pub proof fn lemma_stuff_concat(a: Seq<u8>, b: Seq<u8>)
    ensures
        stuff(a + b) == stuff(a) + stuff(b),
    decreases b.len(),
{
    if b.len() == 0 {
        assert(a + b == a);
        assert(stuff(a) + stuff(b) == stuff(a));
    } else {
        lemma_stuff_concat(a, b.drop_last());
        assert((a + b).drop_last() == a + b.drop_last());
        assert((a + b).last() == b.last());
        assert(stuff(a) + (stuff(b.drop_last()) + stuff_byte(b.last())) == (stuff(a) + stuff(
            b.drop_last(),
        )) + stuff_byte(b.last()));
    }
}

/// Stuffing never shortens a payload and at most doubles it.
pub proof fn lemma_stuff_len(payload: Seq<u8>)
    ensures
        payload.len() <= stuff(payload).len() <= 2 * payload.len(),
    decreases payload.len(),
{
    if payload.len() > 0 {
        lemma_stuff_len(payload.drop_last());
    }
}

/// A stuffed payload holds no start marker and no end marker, and every
/// escape byte in it is followed, within it, by one of the three substitutes.
pub proof fn lemma_stuff_unambiguous(payload: Seq<u8>)
    ensures
        forall|i: int|
            0 <= i < stuff(payload).len() ==> {
                &&& #[trigger] stuff(payload)[i] != FRAME_START
                &&& stuff(payload)[i] != FRAME_END
                &&& stuff(payload)[i] == ESCAPE ==> i + 1 < stuff(payload).len() && is_substitute(
                    stuff(payload)[i + 1],
                )
            },
    decreases payload.len(),
{
    if payload.len() > 0 {
        let head = stuff(payload.drop_last());
        let tail = stuff_byte(payload.last());
        lemma_stuff_unambiguous(payload.drop_last());
        assert forall|i: int| 0 <= i < stuff(payload).len() implies {
            &&& #[trigger] stuff(payload)[i] != FRAME_START
            &&& stuff(payload)[i] != FRAME_END
            &&& stuff(payload)[i] == ESCAPE ==> i + 1 < stuff(payload).len() && is_substitute(
                stuff(payload)[i + 1],
            )
        } by {
            if i < head.len() {
                assert(stuff(payload)[i] == head[i]);
                if head[i] == ESCAPE {
                    assert(stuff(payload)[i + 1] == head[i + 1]);
                }
            } else {
                assert(stuff(payload)[i] == tail[i - head.len()]);
                if i + 1 < stuff(payload).len() {
                    assert(stuff(payload)[i + 1] == tail[i + 1 - head.len()]);
                }
            }
        }
    }
}

/// The shape of every frame: it opens with the start marker and closes with
/// the payload's checksum and then the end marker; between them lies the
/// stuffed payload, in which no marker occurs and every escape byte is
/// followed by a substitute.
pub proof fn lemma_frame_shape(payload: Seq<u8>)
    ensures
        frame_of(payload).len() == stuff(payload).len() + 3,
        frame_of(payload).first() == FRAME_START,
        frame_of(payload).last() == FRAME_END,
        frame_of(payload)[frame_of(payload).len() - 2] == crc8(payload),
        frame_of(payload).subrange(1, frame_of(payload).len() - 2) == stuff(payload),
        forall|i: int|
            1 <= i < frame_of(payload).len() - 2 ==> {
                &&& #[trigger] frame_of(payload)[i] != FRAME_START
                &&& frame_of(payload)[i] != FRAME_END
                &&& frame_of(payload)[i] == ESCAPE ==> i + 1 < frame_of(payload).len() - 2
                    && is_substitute(frame_of(payload)[i + 1])
            },
{
    let body = stuff(payload);
    let wire = frame_of(payload);
    lemma_stuff_unambiguous(payload);
    assert(wire.subrange(1, wire.len() - 2) =~= body);
    assert forall|i: int| 1 <= i < wire.len() - 2 implies {
        &&& #[trigger] wire[i] != FRAME_START
        &&& wire[i] != FRAME_END
        &&& wire[i] == ESCAPE ==> i + 1 < wire.len() - 2 && is_substitute(wire[i + 1])
    } by {
        assert(wire[i] == body[i - 1]);
        if body[i - 1] == ESCAPE {
            assert(wire[i + 1] == body[i]);
        }
    }
}

/// Reads a stuffed payload back, front to back: `None` where the bytes are
/// not what stuffing produces.
pub open spec fn unstuff(wire: Seq<u8>) -> Option<Seq<u8>>
    decreases wire.len(),
{
    if wire.len() == 0 {
        Some(Seq::empty())
    } else if wire[0] == ESCAPE {
        if wire.len() < 2 || !is_substitute(wire[1]) {
            None
        } else {
            let b = if wire[1] == SUB_START {
                FRAME_START
            } else if wire[1] == SUB_ESCAPE {
                ESCAPE
            } else {
                FRAME_END
            };
            match unstuff(wire.skip(2)) {
                Some(rest) => Some(seq![b] + rest),
                None => None,
            }
        }
    } else if wire[0] == FRAME_START || wire[0] == FRAME_END {
        None
    } else {
        match unstuff(wire.skip(1)) {
            Some(rest) => Some(seq![wire[0]] + rest),
            None => None,
        }
    }
}

/// Stuffing loses nothing: reading a stuffed payload back gives the payload.
pub proof fn lemma_unstuff_stuff(payload: Seq<u8>)
    ensures
        unstuff(stuff(payload)) == Some(payload),
    decreases payload.len(),
{
    if payload.len() > 0 {
        let b = payload[0];
        let rest = payload.skip(1);
        assert(payload == seq![b] + rest);
        lemma_stuff_concat(seq![b], rest);
        assert(seq![b].drop_last() == Seq::<u8>::empty());
        assert(stuff(seq![b]) == stuff_byte(b)) by {
            reveal_with_fuel(stuff, 2);
            assert(Seq::<u8>::empty() + stuff_byte(b) == stuff_byte(b));
        }
        let wire = stuff_byte(b) + stuff(rest);
        assert(stuff(payload) == wire);
        lemma_unstuff_stuff(rest);
        if is_reserved(b) {
            assert(wire.skip(2) == stuff(rest));
        } else {
            assert(wire.skip(1) == stuff(rest));
        }
    }
}

/// Two payloads with the same stuffed form are the same payload.
pub proof fn lemma_stuff_injective(a: Seq<u8>, b: Seq<u8>)
    requires
        stuff(a) == stuff(b),
    ensures
        a == b,
{
    lemma_unstuff_stuff(a);
    lemma_unstuff_stuff(b);
}

/// A frame determines its payload: two payloads with the same frame are the
/// same payload.
pub proof fn lemma_frame_injective(a: Seq<u8>, b: Seq<u8>)
    requires
        frame_of(a) == frame_of(b),
    ensures
        a == b,
{
    lemma_frame_shape(a);
    lemma_frame_shape(b);
    lemma_stuff_injective(a, b);
}

/// The checksum goes out as it is, unstuffed. Where it is not itself a
/// reserved byte, the markers are unique in the whole frame: the start marker
/// occurs only as the first byte, the end marker only as the last, and every
/// escape byte lies in the stuffed payload, followed by a substitute.
pub proof fn lemma_frame_markers_unique(payload: Seq<u8>)
    requires
        !is_reserved(crc8(payload)),
    ensures
        forall|i: int|
            0 <= i < frame_of(payload).len() ==> {
                &&& #[trigger] frame_of(payload)[i] == FRAME_START ==> i == 0
                &&& frame_of(payload)[i] == FRAME_END ==> i == frame_of(payload).len() - 1
                &&& frame_of(payload)[i] == ESCAPE ==> 1 <= i && i + 1 < frame_of(payload).len() - 2
                    && is_substitute(frame_of(payload)[i + 1])
            },
{
    lemma_frame_shape(payload);
}

} // verus!

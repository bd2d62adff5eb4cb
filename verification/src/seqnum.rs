use vstd::prelude::*;

verus! {

/// Number of distinct sequence numbers (sequence space is arithmetic modulo 2^32).
pub open spec fn seq_space() -> int {
    0x1_0000_0000
}

/// Distance travelled forward, modulo 2^32, from sequence number `from` to `to`.
pub open spec fn seq_dist(from: u32, to: u32) -> int {
    if from <= to {
        to - from
    } else {
        to - from + seq_space()
    }
}

/// `x` lies strictly between `start` and `end` when walking forward
/// around the sequence space from `start`.
pub open spec fn strictly_between(start: u32, x: u32, end: u32) -> bool {
    0 < seq_dist(start, x) < seq_dist(start, end)
}

/// start < x < end, where the comparison follows the sequence space forward
/// from `start`, so that the interval may wrap around zero.
pub fn wrapped_cmp_lt(start: u32, x: u32, end: u32) -> (r: bool)
    ensures
        r == strictly_between(start, x, end),
{
    (start < end && start < x && x < end) || (end < start && (start < x || x < end))
}

/// RFC 793's acceptable acknowledgment: SND.UNA < SEG.ACK =< SND.NXT, read
/// forward around the sequence space from SND.UNA.
pub open spec fn ack_acceptable(una: u32, nxt: u32, ack: u32) -> bool {
    0 < seq_dist(una, ack) <= seq_dist(una, nxt)
}

/// RCV.NXT =< x < RCV.NXT + RCV.WND, read forward around the sequence space.
pub open spec fn in_window(nxt: u32, wnd: u16, x: u32) -> bool {
    seq_dist(nxt, x) < wnd
}

/// RFC 793's four cases for the acceptability of an incoming segment of
/// `len` sequence numbers starting at `seq`, given RCV.NXT and RCV.WND.
pub open spec fn segment_acceptable(nxt: u32, wnd: u16, seq: u32, len: u32) -> bool {
    if wnd == 0 {
        len == 0 && seq == nxt
    } else if len == 0 {
        in_window(nxt, wnd, seq)
    } else {
        in_window(nxt, wnd, seq) || in_window(nxt, wnd, seq.wrapping_add((len - 1) as u32))
    }
}

/// RCV.NXT + RCV.WND, around the sequence space.
pub fn window_end(nxt: u32, wnd: u16) -> (r: u32)
    ensures
        r == nxt.wrapping_add(wnd as u32),
{
    nxt.wrapping_add(wnd as u32)
}

/// The window [nxt, nxt + wnd) is the set of sequence numbers strictly
/// between nxt - 1 and nxt + wnd.
pub proof fn lemma_window_as_between(nxt: u32, wnd: u16, x: u32)
    requires
        wnd > 0,
    ensures
        in_window(nxt, wnd, x) == strictly_between(
            nxt.wrapping_sub(1),
            x,
            nxt.wrapping_add(wnd as u32),
        ),
{
}

/// Sequence-number distance does not change when both ends are moved by
/// the same amount around the sequence space.
pub proof fn lemma_seq_dist_shift(a: u32, b: u32, k: u32)
    ensures
        seq_dist(a.wrapping_add(k), b.wrapping_add(k)) == seq_dist(a, b),
{
}

/// Whether `x` lies strictly between `start` and `end` depends only on where
/// they lie relative to one another: moving all three by the same amount
/// around the sequence space (as across the wrap from 2^32 - 1 to 0) does not
/// change the answer of `wrapped_cmp_lt`.
pub proof fn lemma_strictly_between_shift(start: u32, x: u32, end: u32, k: u32)
    ensures
        strictly_between(start.wrapping_add(k), x.wrapping_add(k), end.wrapping_add(k))
            == strictly_between(start, x, end),
{
    lemma_seq_dist_shift(start, x, k);
    lemma_seq_dist_shift(start, end, k);
}

/// Acknowledgment acceptability is unchanged when SND.UNA, SND.NXT and the
/// acknowledgment number are all moved by the same amount.
pub proof fn lemma_ack_acceptable_shift(una: u32, nxt: u32, ack: u32, k: u32)
    ensures
        ack_acceptable(una.wrapping_add(k), nxt.wrapping_add(k), ack.wrapping_add(k))
            == ack_acceptable(una, nxt, ack),
{
    lemma_seq_dist_shift(una, ack, k);
    lemma_seq_dist_shift(una, nxt, k);
}

/// Segment acceptability is unchanged when RCV.NXT and the segment's
/// sequence number are moved by the same amount: a window that straddles
/// the wrap of the sequence space is treated like any other.
pub proof fn lemma_segment_acceptable_shift(nxt: u32, wnd: u16, seq: u32, len: u32, k: u32)
    ensures
        segment_acceptable(nxt.wrapping_add(k), wnd, seq.wrapping_add(k), len)
            == segment_acceptable(nxt, wnd, seq, len),
{
    lemma_seq_dist_shift(nxt, seq, k);
    if len > 0 {
        let last = seq.wrapping_add((len - 1) as u32);
        lemma_seq_dist_shift(nxt, last, k);
        assert(seq.wrapping_add(k).wrapping_add((len - 1) as u32) == last.wrapping_add(k));
    }
}

/// An acknowledgment of SND.UNA itself acknowledges nothing new and is never
/// acceptable; one of SND.NXT is acceptable exactly when something is
/// outstanding.
pub proof fn lemma_ack_bounds(una: u32, nxt: u32)
    ensures
        !ack_acceptable(una, nxt, una),
        ack_acceptable(una, nxt, nxt) <==> una != nxt,
{
}

/// An open receive window holds RCV.NXT and the wnd - 1 numbers after it, and
/// neither RCV.NXT - 1 nor RCV.NXT + RCV.WND; a closed one holds nothing.
pub proof fn lemma_window_bounds(nxt: u32, wnd: u16)
    ensures
        wnd > 0 ==> in_window(nxt, wnd, nxt),
        wnd > 0 ==> in_window(nxt, wnd, nxt.wrapping_add((wnd - 1) as u32)),
        !in_window(nxt, wnd, nxt.wrapping_add(wnd as u32)),
        !in_window(nxt, wnd, nxt.wrapping_sub(1)),
        forall|x: u32| wnd == 0 ==> !#[trigger] in_window(nxt, wnd, x),
{
}

/// Read as plain integers, `wrapped_cmp_lt` is the ordinary `start < x < end`
/// when the interval does not wrap, however long it is; when it wraps around
/// zero (end < start) it holds the numbers after `start` and those before
/// `end`; an interval whose ends meet is empty.
pub proof fn lemma_strictly_between_as_integers(start: u32, x: u32, end: u32)
    ensures
        start < end ==> (strictly_between(start, x, end) <==> (start < x && x < end)),
        end < start ==> (strictly_between(start, x, end) <==> (start < x || x < end)),
        start == end ==> !strictly_between(start, x, end),
{
}

/// Read as plain integers, an acknowledgment is acceptable exactly when it
/// lies in SND.UNA < ack <= SND.NXT, or, when that range wraps around zero,
/// after SND.UNA or at or before SND.NXT; however much is outstanding.
pub proof fn lemma_ack_acceptable_as_integers(una: u32, nxt: u32, ack: u32)
    ensures
        una <= nxt ==> (ack_acceptable(una, nxt, ack) <==> (una < ack && ack <= nxt)),
        nxt < una ==> (ack_acceptable(una, nxt, ack) <==> (una < ack || ack <= nxt)),
{
}

/// Read as plain integers, with an open window that does not wrap, a
/// sequence number is in the window exactly when RCV.NXT <= x < RCV.NXT + RCV.WND.
pub proof fn lemma_in_window_as_integers(nxt: u32, wnd: u16, x: u32)
    requires
        nxt + wnd <= u32::MAX,
    ensures
        in_window(nxt, wnd, x) <==> (nxt <= x && x < nxt + wnd),
{
}

} // verus!

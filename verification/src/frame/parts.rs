//! Taking a frame apart into clear and hidden bytes, and putting it together
//! again.

use vstd::prelude::*;
use crate::crypto::codec::UnencryptedRange;

verus! {

/// Position `i` lies in `range`.
pub open spec fn in_range(range: UnencryptedRange, i: int) -> bool {
    range.offset <= i < range.offset + range.length
}

/// Position `i` lies in one of `ranges`.
pub open spec fn covered(ranges: Seq<UnencryptedRange>, i: int) -> bool {
    exists|k: int| 0 <= k < ranges.len() && in_range(#[trigger] ranges[k], i)
}

/// The bytes of `frame` inside `ranges`, in order.
pub open spec fn clear_part(frame: Seq<u8>, ranges: Seq<UnencryptedRange>) -> Seq<u8>
    decreases frame.len(),
{
    if frame.len() == 0 {
        Seq::empty()
    } else if covered(ranges, frame.len() - 1) {
        clear_part(frame.drop_last(), ranges).push(frame.last())
    } else {
        clear_part(frame.drop_last(), ranges)
    }
}

/// The bytes of `frame` outside `ranges`, in order.
pub open spec fn hidden_part(frame: Seq<u8>, ranges: Seq<UnencryptedRange>) -> Seq<u8>
    decreases frame.len(),
{
    if frame.len() == 0 {
        Seq::empty()
    } else if covered(ranges, frame.len() - 1) {
        hidden_part(frame.drop_last(), ranges)
    } else {
        hidden_part(frame.drop_last(), ranges).push(frame.last())
    }
}

/// How many of the first `n` positions lie outside `ranges`.
pub open spec fn hidden_count(ranges: Seq<UnencryptedRange>, n: nat) -> nat
    decreases n,
{
    if n == 0 {
        0
    } else if covered(ranges, n - 1) {
        hidden_count(ranges, (n - 1) as nat)
    } else {
        hidden_count(ranges, (n - 1) as nat) + 1
    }
}

/// `frame` with the bytes outside `ranges` replaced by those of `fill`, in
/// order; by zeros where `fill` runs out.
pub open spec fn filled(frame: Seq<u8>, ranges: Seq<UnencryptedRange>, fill: Seq<u8>) -> Seq<u8> {
    Seq::new(
        frame.len(),
        |i: int|
            if covered(ranges, i) {
                frame[i]
            } else if hidden_count(ranges, i as nat) < fill.len() {
                fill[hidden_count(ranges, i as nat) as int]
            } else {
                0u8
            },
    )
}

pub proof fn lemma_part_lengths(frame: Seq<u8>, ranges: Seq<UnencryptedRange>)
    ensures
        hidden_part(frame, ranges).len() == hidden_count(ranges, frame.len()),
        hidden_part(frame, ranges).len() + clear_part(frame, ranges).len() == frame.len(),
    decreases frame.len(),
{
    if frame.len() > 0 {
        lemma_part_lengths(frame.drop_last(), ranges);
    }
}

proof fn lemma_count_monotonic(ranges: Seq<UnencryptedRange>, a: nat, b: nat)
    requires
        a <= b,
    ensures
        hidden_count(ranges, a) <= hidden_count(ranges, b),
    decreases b,
{
    if a < b {
        lemma_count_monotonic(ranges, a, (b - 1) as nat);
    }
}

/// Filling in the hidden bytes leaves the clear ones as they are, and the fill
/// can be taken out again.
pub proof fn parts_of_filled(frame: Seq<u8>, ranges: Seq<UnencryptedRange>, fill: Seq<u8>)
    requires
        fill.len() >= hidden_count(ranges, frame.len()),
    ensures
        clear_part(filled(frame, ranges, fill), ranges) == clear_part(frame, ranges),
        hidden_part(filled(frame, ranges, fill), ranges) == fill.take(
            hidden_count(ranges, frame.len()) as int,
        ),
    decreases frame.len(),
{
    let whole = filled(frame, ranges, fill);
    if frame.len() > 0 {
        let shorter = frame.drop_last();
        lemma_count_monotonic(ranges, shorter.len(), frame.len());
        parts_of_filled(shorter, ranges, fill);
        assert(whole.drop_last() =~= filled(shorter, ranges, fill));
    }
    assert(hidden_part(whole, ranges) =~= fill.take(hidden_count(ranges, frame.len()) as int));
}

/// Filling a frame with its own hidden bytes changes nothing, whatever stood
/// in their place.
pub proof fn filled_with_own_bytes(
    frame: Seq<u8>,
    ranges: Seq<UnencryptedRange>,
    other: Seq<u8>,
)
    ensures
        filled(filled(frame, ranges, other), ranges, hidden_part(frame, ranges)) == frame,
{
    let back = filled(filled(frame, ranges, other), ranges, hidden_part(frame, ranges));
    assert forall|i: int| 0 <= i < frame.len() implies back[i] == frame[i] by {
        lemma_hidden_at(frame, ranges, i);
    }
    assert(back =~= frame);
}

/// Where a hidden byte of a frame stands among the hidden bytes.
proof fn lemma_hidden_at(frame: Seq<u8>, ranges: Seq<UnencryptedRange>, i: int)
    requires
        0 <= i < frame.len(),
    ensures
        !covered(ranges, i) ==> hidden_count(ranges, i as nat) < hidden_part(frame, ranges).len()
            && hidden_part(frame, ranges)[hidden_count(ranges, i as nat) as int] == frame[i],
    decreases frame.len(),
{
    if i < frame.len() - 1 {
        lemma_hidden_at(frame.drop_last(), ranges, i);
    } else {
        lemma_part_lengths(frame.drop_last(), ranges);
    }
}

/// For each of the first `len` positions, whether it lies in one of `ranges`.
fn mark(ranges: &[UnencryptedRange], len: usize) -> (marks: Vec<bool>)
    ensures
        marks@.len() == len,
        forall|i: int| 0 <= i < len ==> marks@[i] == covered(ranges@, i),
{
    let mut marks: Vec<bool> = vec![false; len];
    let mut k: usize = 0;
    while k < ranges.len()
        invariant
            k <= ranges@.len(),
            marks@.len() == len,
            forall|i: int| 0 <= i < len ==> marks@[i] == covered(ranges@.take(k as int), i),
        decreases ranges@.len() - k,
    {
        let range: UnencryptedRange = ranges[k];
        let end: usize = if range.offset >= len || range.length >= len - range.offset {
            len
        } else {
            range.offset + range.length
        };
        let ghost before = marks@;
        let mut i: usize = range.offset;
        while i < end
            invariant
                end <= len,
                range.offset <= i,
                i <= end || i == range.offset,
                marks@.len() == len,
                before.len() == len,
                forall|j: int|
                    0 <= j < len ==> marks@[j] == (before[j] || range.offset <= j < i),
            decreases end - i,
        {
            marks.set(i, true);
            i = i + 1;
        }
        proof {
            let shorter = ranges@.take(k as int);
            let longer = ranges@.take(k + 1);
            assert(longer[k as int] == range);
            assert forall|j: int| 0 <= j < len implies marks@[j] == covered(longer, j) by {
                assert(before[j] == covered(shorter, j));
                assert(in_range(range, j) <==> range.offset <= j < i);
                if covered(shorter, j) {
                    let w = choose|w: int|
                        0 <= w < shorter.len() && in_range(#[trigger] shorter[w], j);
                    assert(longer[w] == shorter[w]);
                    assert(in_range(longer[w], j));
                }
                if in_range(range, j) {
                    assert(in_range(longer[k as int], j));
                }
                if covered(longer, j) {
                    let w = choose|w: int|
                        0 <= w < longer.len() && in_range(#[trigger] longer[w], j);
                    if w < k {
                        assert(longer[w] == shorter[w]);
                        assert(in_range(shorter[w], j));
                    }
                }
            }
        }
        k = k + 1;
    }
    assert(ranges@.take(ranges@.len() as int) =~= ranges@);
    marks
}

/// Split a frame into the bytes outside `ranges` and the bytes inside, each
/// concatenated in order.
pub fn split_frame(frame: &[u8], ranges: &[UnencryptedRange]) -> (parts: (Vec<u8>, Vec<u8>))
    ensures
        parts.0@ == hidden_part(frame@, ranges@),
        parts.1@ == clear_part(frame@, ranges@),
{
    let marks = mark(ranges, frame.len());
    let mut hidden: Vec<u8> = Vec::new();
    let mut clear: Vec<u8> = Vec::new();
    let mut i: usize = 0;
    while i < frame.len()
        invariant
            i <= frame@.len(),
            marks@.len() == frame@.len(),
            forall|j: int| 0 <= j < frame@.len() ==> marks@[j] == covered(ranges@, j),
            hidden@ == hidden_part(frame@.take(i as int), ranges@),
            clear@ == clear_part(frame@.take(i as int), ranges@),
        decreases frame@.len() - i,
    {
        assert(frame@.take(i + 1).drop_last() =~= frame@.take(i as int));
        if marks[i] {
            clear.push(frame[i]);
        } else {
            hidden.push(frame[i]);
        }
        i = i + 1;
    }
    assert(frame@.take(frame@.len() as int) =~= frame@);
    (hidden, clear)
}

/// Put a frame together: positions inside `ranges` keep their byte, the others
/// get the bytes of `fill` in order.
pub fn interleave(frame: &[u8], ranges: &[UnencryptedRange], fill: &[u8]) -> (whole: Vec<u8>)
    ensures
        whole@ == filled(frame@, ranges@, fill@),
{
    let marks = mark(ranges, frame.len());
    let mut whole: Vec<u8> = Vec::new();
    let mut next: usize = 0;
    let mut i: usize = 0;
    while i < frame.len()
        invariant
            i <= frame@.len(),
            marks@.len() == frame@.len(),
            forall|j: int| 0 <= j < frame@.len() ==> marks@[j] == covered(ranges@, j),
            next <= fill@.len(),
            next == hidden_count(ranges@, i as nat) || (next == fill@.len() && next < hidden_count(
                ranges@,
                i as nat,
            )),
            whole@ == filled(frame@, ranges@, fill@).take(i as int),
        decreases frame@.len() - i,
    {
        let ghost before = whole@;
        if marks[i] {
            whole.push(frame[i]);
        } else if next < fill.len() {
            whole.push(fill[next]);
            next = next + 1;
        } else {
            whole.push(0);
        }
        assert(whole@ =~= filled(frame@, ranges@, fill@).take(i + 1));
        i = i + 1;
    }
    whole
}

/// Each byte of a frame goes to one of the two parts, in order: to the clear one
/// if a range reaches its position, that is begins there or before and ends
/// behind it, and else to the hidden one.
pub proof fn bytes_are_split_by_position(
    frame: &[u8],
    longer: &[u8],
    byte: u8,
    ranges: &[UnencryptedRange],
    parts: (Vec<u8>, Vec<u8>),
    longer_parts: (Vec<u8>, Vec<u8>),
)
    requires
        call_ensures(split_frame, (frame, ranges), parts),
        call_ensures(split_frame, (longer, ranges), longer_parts),
        longer@ == frame@.push(byte),
    ensures
        frame@.len() == 0 ==> parts.0@.len() == 0 && parts.1@.len() == 0,
        (exists|k: int|
            0 <= k < ranges@.len() && (#[trigger] ranges@[k]).offset <= frame@.len()
                < ranges@[k].offset + ranges@[k].length) ==> longer_parts.0@ == parts.0@
            && longer_parts.1@ == parts.1@.push(byte),
        (forall|k: int|
            0 <= k < ranges@.len() ==> frame@.len() < (#[trigger] ranges@[k]).offset
                || ranges@[k].offset + ranges@[k].length <= frame@.len()) ==> longer_parts.0@
            == parts.0@.push(byte) && longer_parts.1@ == parts.1@,
{
    assert(longer@.drop_last() =~= frame@);
    let at = frame@.len() as int;
    if exists|k: int|
        0 <= k < ranges@.len() && (#[trigger] ranges@[k]).offset <= frame@.len()
            < ranges@[k].offset + ranges@[k].length {
        let k = choose|k: int|
            0 <= k < ranges@.len() && (#[trigger] ranges@[k]).offset <= frame@.len()
                < ranges@[k].offset + ranges@[k].length;
        assert(in_range(ranges@[k], at));
    }
    if covered(ranges@, at) {
        let k = choose|k: int| 0 <= k < ranges@.len() && in_range(#[trigger] ranges@[k], at);
        assert(ranges@[k].offset <= frame@.len() < ranges@[k].offset + ranges@[k].length);
    }
}

/// A frame that is put together keeps its length and, where a range reaches, its
/// bytes. Split along the same ranges it gives its own clear part and the bytes
/// it was filled with.
pub proof fn interleaving_undoes_splitting(
    frame: &[u8],
    ranges: &[UnencryptedRange],
    parts: (Vec<u8>, Vec<u8>),
    fill: &[u8],
    whole: Vec<u8>,
    again: &[u8],
    again_parts: (Vec<u8>, Vec<u8>),
    i: int,
    k: int,
)
    requires
        call_ensures(split_frame, (frame, ranges), parts),
        fill@.len() == parts.0@.len(),
        call_ensures(interleave, (frame, ranges, fill), whole),
        again@ == whole@,
        call_ensures(split_frame, (again, ranges), again_parts),
    ensures
        whole@.len() == frame@.len(),
        0 <= i < frame@.len() && 0 <= k < ranges@.len() && ranges@[k].offset <= i
            < ranges@[k].offset + ranges@[k].length ==> whole@[i] == frame@[i],
        again_parts.0@ == fill@,
        again_parts.1@ == parts.1@,
        fill@ == parts.0@ ==> whole@ == frame@,
{
    lemma_part_lengths(frame@, ranges@);
    parts_of_filled(frame@, ranges@, fill@);
    assert(fill@.take(fill@.len() as int) =~= fill@);
    if 0 <= i < frame@.len() && 0 <= k < ranges@.len() && ranges@[k].offset <= i
        < ranges@[k].offset + ranges@[k].length {
        assert(in_range(ranges@[k], i));
        assert(covered(ranges@, i));
    }
    if fill@ == parts.0@ {
        filled_with_own_bytes(frame@, ranges@, fill@);
        assert forall|j: int| 0 <= j < frame@.len() implies whole@[j] == frame@[j] by {
            lemma_hidden_at(frame@, ranges@, j);
        }
        assert(whole@ =~= frame@);
    }
}

} // verus!

//! Codec-specific unencrypted range handling for DAVE frame encryption.
//!
//! The DAVE protocol encrypting transform is codec-aware: certain byte ranges
//! in media frames must remain unencrypted so they pass through WebRTC's
//! codec-specific packetizer and depacketizer unmodified.

use vstd::prelude::*;
use vstd::string::*;
use crate::crypto::uleb128::{
    self, encode_then_decode_forward, lemma_len_at, lemma_len_beyond, lemma_pow128_monotonic,
    lemma_pow128_values, lemma_value_bound, lemma_value_push, pow128, uleb_bytes, uleb_len,
    uleb_value,
};
use crate::error::SigilError;

verus! {

/// A byte range within a media frame that must remain unencrypted.
#[derive(Debug, Clone, Copy, PartialEq, Eq, Structural)]
pub struct UnencryptedRange {
    /// Byte offset from the start of the frame.
    pub offset: usize,
    /// Number of unencrypted bytes starting at `offset`.
    pub length: usize,
}

/// Supported media codecs for DAVE frame encryption.
#[derive(Debug, Clone, Copy, PartialEq, Eq, Structural)]
pub enum Codec {
    /// Opus audio — fully encrypted.
    Opus,
    /// VP8 video — 1 or 10 bytes unencrypted depending on keyframe flag.
    Vp8,
    /// VP9 video — fully encrypted.
    Vp9,
    /// H.264 video — NAL unit iteration to determine unencrypted ranges.
    H264,
    /// H.265 / HEVC — NAL unit iteration to determine unencrypted ranges.
    H265,
    /// AV1 video — OBU header iteration to determine unencrypted ranges.
    Av1,
}

/// The range from `begin` up to but not including `end`.
pub open spec fn range_between(begin: int, end: int) -> UnencryptedRange {
    UnencryptedRange { offset: begin as usize, length: (end - begin) as usize }
}

/// A start code `00 00 01` ends just before position `data`, where the NAL
/// unit's own bytes begin.
pub open spec fn start_code_ends_at(frame: Seq<u8>, data: int) -> bool {
    3 <= data <= frame.len() && frame[data - 3] == 0 && frame[data - 2] == 0 && frame[data - 1] == 1
}

/// Where the start code that ends before `data` begins: a zero byte ahead of
/// the three-byte code belongs to it.
pub open spec fn start_code_begin(frame: Seq<u8>, data: int) -> int {
    if data >= 4 && frame[data - 4] == 0 {
        data - 4
    } else {
        data - 3
    }
}

/// All positions up to `upto` where a NAL unit's own bytes begin, ascending.
pub open spec fn nalu_starts(frame: Seq<u8>, upto: nat) -> Seq<int>
    decreases upto,
{
    if upto == 0 {
        Seq::empty()
    } else {
        let before = nalu_starts(frame, (upto - 1) as nat);
        if start_code_ends_at(frame, upto as int) {
            before.push(upto as int)
        } else {
            before
        }
    }
}

/// Where the `i`-th NAL unit ends: at the next start code or at the frame's
/// end.
pub open spec fn nalu_end(frame: Seq<u8>, i: int) -> int {
    let starts = nalu_starts(frame, frame.len());
    if i + 1 < starts.len() {
        start_code_begin(frame, starts[i + 1])
    } else {
        frame.len() as int
    }
}

/// The H.264 NAL unit types that carry coded slices.
pub open spec fn h264_vcl(header: u8) -> bool {
    1 <= header % 32 <= 5
}

/// The H.265 NAL unit types that carry coded slices.
pub open spec fn h265_vcl(header: u8) -> bool {
    (header / 2) % 64 <= 31
}

/// What stays in the clear of the first `k` H.264 NAL units: all of a unit
/// without coded slice, start code and one header byte of one with it, nothing
/// of a unit without a byte.
pub open spec fn h264_unit_ranges(frame: Seq<u8>, k: nat) -> Seq<UnencryptedRange>
    decreases k,
{
    if k == 0 {
        Seq::empty()
    } else {
        let before = h264_unit_ranges(frame, (k - 1) as nat);
        let data = nalu_starts(frame, frame.len())[k - 1];
        let begin = start_code_begin(frame, data);
        let end = nalu_end(frame, k - 1);
        if data >= end {
            before
        } else if h264_vcl(frame[data]) {
            before.push(range_between(begin, data + 1))
        } else {
            before.push(range_between(begin, end))
        }
    }
}

/// What stays in the clear of an H.264 frame. A frame without start code is
/// one NAL unit.
pub open spec fn h264_clear(frame: Seq<u8>) -> Seq<UnencryptedRange> {
    let starts = nalu_starts(frame, frame.len());
    if starts.len() > 0 {
        h264_unit_ranges(frame, starts.len())
    } else if frame.len() == 0 {
        Seq::empty()
    } else if h264_vcl(frame[0]) {
        seq![range_between(0, 1)]
    } else {
        seq![range_between(0, frame.len() as int)]
    }
}

/// What stays in the clear of the first `k` H.265 NAL units: start code and
/// two header bytes of one with a coded slice, all of any other, and all of
/// one too short for its header.
pub open spec fn h265_unit_ranges(frame: Seq<u8>, k: nat) -> Seq<UnencryptedRange>
    decreases k,
{
    if k == 0 {
        Seq::empty()
    } else {
        let before = h265_unit_ranges(frame, (k - 1) as nat);
        let data = nalu_starts(frame, frame.len())[k - 1];
        let begin = start_code_begin(frame, data);
        let end = nalu_end(frame, k - 1);
        if data + 1 < end && h265_vcl(frame[data]) {
            before.push(range_between(begin, data + 2))
        } else {
            before.push(range_between(begin, end))
        }
    }
}

/// What stays in the clear of an H.265 frame. A frame without start code is
/// one NAL unit.
pub open spec fn h265_clear(frame: Seq<u8>) -> Seq<UnencryptedRange> {
    let starts = nalu_starts(frame, frame.len());
    if starts.len() > 0 {
        h265_unit_ranges(frame, starts.len())
    } else if frame.len() >= 2 && h265_vcl(frame[0]) {
        seq![range_between(0, 2)]
    } else {
        seq![range_between(0, frame.len() as int)]
    }
}

/// How many bytes the header and the extension header of the OBU at `pos`
/// take. The extension is there if its flag is set and the frame goes on.
pub open spec fn obu_fixed_len(frame: Seq<u8>, pos: nat) -> nat {
    if (frame[pos as int] / 4) % 2 == 1 && pos + 1 < frame.len() {
        2
    } else {
        1
    }
}

/// The OBU at `pos` has a size field.
pub open spec fn obu_has_size(frame: Seq<u8>, pos: nat) -> bool {
    (frame[pos as int] / 2) % 2 == 1
}

/// How many bytes the size field at the start of `rest` takes: one that does
/// not end takes all there are.
pub open spec fn size_field_len(rest: Seq<u8>) -> nat {
    match uleb_len(rest) {
        Some(n) => n,
        None => rest.len(),
    }
}

/// The number in the size field at the start of `rest`.
pub open spec fn size_field_value(rest: Seq<u8>) -> nat {
    uleb_value(rest.take(size_field_len(rest) as int))
}

/// The size field at the start of `rest` has ten bytes with continuation bit, or
/// its number does not fit into 64 bits.
pub open spec fn size_field_too_large(rest: Seq<u8>) -> bool {
    match uleb_len(rest) {
        Some(n) => n > 10 || size_field_value(rest) > u64::MAX,
        None => rest.len() >= 10,
    }
}

/// What stays in the clear of the OBUs from `pos` on: each one's header,
/// extension header and size field. `None` if a size field is too large.
pub open spec fn av1_clear_from(frame: Seq<u8>, pos: nat) -> Option<Seq<UnencryptedRange>>
    decreases
        if pos < frame.len() {
            frame.len() - pos
        } else {
            0
        },
{
    if pos >= frame.len() {
        Some(Seq::empty())
    } else {
        let after_fixed = pos + obu_fixed_len(frame, pos);
        let rest = frame.skip(after_fixed as int);
        if !obu_has_size(frame, pos) {
            Some(seq![range_between(pos as int, after_fixed as int)])
        } else if size_field_too_large(rest) {
            None
        } else {
            let payload = after_fixed + size_field_len(rest);
            match av1_clear_from(frame, payload + size_field_value(rest)) {
                Some(later) => Some(seq![range_between(pos as int, payload as int)] + later),
                None => None,
            }
        }
    }
}

/// What stays in the clear of a non-empty VP8 frame: ten bytes of a keyframe,
/// one of any other.
pub open spec fn vp8_clear(frame: Seq<u8>) -> Seq<UnencryptedRange> {
    if frame[0] % 2 == 0 && frame.len() >= 10 {
        seq![range_between(0, 10)]
    } else if frame[0] % 2 == 0 {
        seq![range_between(0, frame.len() as int)]
    } else {
        seq![range_between(0, 1)]
    }
}

/// What stays in the clear of `frame` under `codec`; `None` if the frame
/// cannot be parsed.
pub open spec fn clear_ranges(codec: Codec, frame: Seq<u8>) -> Option<Seq<UnencryptedRange>> {
    match codec {
        Codec::Opus => Some(Seq::empty()),
        Codec::Vp8 => if frame.len() == 0 {
            None
        } else {
            Some(vp8_clear(frame))
        },
        Codec::Vp9 => Some(Seq::empty()),
        Codec::H264 => Some(h264_clear(frame)),
        Codec::H265 => Some(h265_clear(frame)),
        Codec::Av1 => av1_clear_from(frame, 0),
    }
}

/// The ranges come in ascending order, do not overlap, and end at `len` at
/// the latest.
pub open spec fn ordered_within(ranges: Seq<UnencryptedRange>, len: int) -> bool {
    &&& forall|i: int|
        0 <= i < ranges.len() ==> (#[trigger] ranges[i]).offset + ranges[i].length <= len
    &&& forall|i: int, j: int|
        0 <= i < j < ranges.len() ==> (#[trigger] ranges[i]).offset + ranges[i].length <= (
        #[trigger] ranges[j]).offset
}

proof fn lemma_starts(frame: Seq<u8>, upto: nat)
    requires
        upto <= frame.len(),
    ensures
        forall|i: int|
            0 <= i < nalu_starts(frame, upto).len() ==> start_code_ends_at(
                frame,
                #[trigger] nalu_starts(frame, upto)[i],
            ) && nalu_starts(frame, upto)[i] <= upto,
        forall|i: int, j: int|
            0 <= i < j < nalu_starts(frame, upto).len() ==> (#[trigger] nalu_starts(frame, upto)[i])
                < (#[trigger] nalu_starts(frame, upto)[j]),
    decreases upto,
{
    if upto > 0 {
        let before = nalu_starts(frame, (upto - 1) as nat);
        let all = nalu_starts(frame, upto);
        lemma_starts(frame, (upto - 1) as nat);
        assert forall|i: int| 0 <= i < all.len() implies start_code_ends_at(
            frame,
            #[trigger] all[i],
        ) && all[i] <= upto by {
            if i < before.len() {
                assert(all[i] == before[i]);
            }
        }
        assert forall|i: int, j: int| 0 <= i < j < all.len() implies (#[trigger] all[i]) < (
        #[trigger] all[j]) by {
            assert(all[i] == before[i]);
            if j < before.len() {
                assert(all[j] == before[j]);
            }
        }
    }
}

/// Start codes do not overlap: a NAL unit's data begins before the next start
/// code does.
proof fn lemma_units_in_order(frame: Seq<u8>, i: int)
    requires
        0 <= i < nalu_starts(frame, frame.len()).len(),
    ensures
        ({
            let data = nalu_starts(frame, frame.len())[i];
            &&& start_code_ends_at(frame, data)
            &&& 0 <= start_code_begin(frame, data) <= data - 3
            &&& data <= nalu_end(frame, i) <= frame.len()
        }),
{
    lemma_starts(frame, frame.len());
}

/// Between two positions without start code, the list does not grow.
proof fn lemma_starts_same(frame: Seq<u8>, from: nat, to: nat)
    requires
        from <= to <= frame.len(),
        forall|d: int| from < d <= to ==> !start_code_ends_at(frame, d),
    ensures
        nalu_starts(frame, to) == nalu_starts(frame, from),
    decreases to,
{
    if from < to {
        lemma_starts_same(frame, from, (to - 1) as nat);
    }
}

/// The position `n` bytes on, or the frame's end where that comes first.
spec fn at_most(n: int, len: nat) -> nat {
    if n <= len {
        n as nat
    } else {
        len
    }
}

proof fn lemma_h264_units_ordered(frame: Seq<u8>, k: nat)
    requires
        frame.len() <= usize::MAX,
        k <= nalu_starts(frame, frame.len()).len(),
    ensures
        ordered_within(h264_unit_ranges(frame, k), nalu_end(frame, k - 1)),
    decreases k,
{
    if k > 0 {
        lemma_h264_units_ordered(frame, (k - 1) as nat);
        lemma_units_in_order(frame, k - 1);
    }
}

proof fn lemma_h265_units_ordered(frame: Seq<u8>, k: nat)
    requires
        frame.len() <= usize::MAX,
        k <= nalu_starts(frame, frame.len()).len(),
    ensures
        ordered_within(h265_unit_ranges(frame, k), nalu_end(frame, k - 1)),
    decreases k,
{
    if k > 0 {
        lemma_h265_units_ordered(frame, (k - 1) as nat);
        lemma_units_in_order(frame, k - 1);
    }
}

proof fn lemma_av1_ordered(frame: Seq<u8>, pos: nat)
    requires
        frame.len() <= usize::MAX,
    ensures
        av1_clear_from(frame, pos) matches Some(ranges) ==> {
            &&& ordered_within(ranges, frame.len() as int)
            &&& forall|i: int| 0 <= i < ranges.len() ==> pos <= (#[trigger] ranges[i]).offset
        },
    decreases
        if pos < frame.len() {
            frame.len() - pos
        } else {
            0
        },
{
    if pos < frame.len() {
        let after_fixed = pos + obu_fixed_len(frame, pos);
        let rest = frame.skip(after_fixed as int);
        if obu_has_size(frame, pos) && !size_field_too_large(rest) {
            lemma_len_beyond(rest, 0);
            let payload = after_fixed + size_field_len(rest);
            lemma_av1_ordered(frame, payload + size_field_value(rest));
        }
    }
}

/// In an H.264 frame with start codes and no empty NAL unit there is one range for
/// each unit, in order, which starts at its start code. It goes up to and with
/// the header byte of a unit of type 1 to 5, whose payload is encrypted, and to the
/// end of any other.
pub proof fn h264_range_of_unit(frame: Seq<u8>, i: int)
    requires
        frame.len() <= usize::MAX,
        0 <= i < nalu_starts(frame, frame.len()).len(),
        forall|k: int|
            0 <= k < nalu_starts(frame, frame.len()).len() ==> (#[trigger] nalu_starts(
                frame,
                frame.len(),
            )[k]) < nalu_end(frame, k),
    ensures
        ({
            let starts = nalu_starts(frame, frame.len());
            let data = starts[i];
            &&& clear_ranges(Codec::H264, frame) matches Some(ranges)
            &&& ranges.len() == starts.len()
            &&& ranges[i].offset == start_code_begin(frame, data)
            &&& ranges[i].offset + ranges[i].length == if 1 <= frame[data] % 32 <= 5 {
                data + 1
            } else {
                nalu_end(frame, i)
            }
        }),
{
    let starts = nalu_starts(frame, frame.len());
    lemma_h264_unit(frame, starts.len(), i);
    lemma_units_in_order(frame, i);
}

proof fn lemma_h264_unit(frame: Seq<u8>, k: nat, i: int)
    requires
        0 <= i < k <= nalu_starts(frame, frame.len()).len(),
        forall|j: int|
            0 <= j < nalu_starts(frame, frame.len()).len() ==> (#[trigger] nalu_starts(
                frame,
                frame.len(),
            )[j]) < nalu_end(frame, j),
    ensures
        h264_unit_ranges(frame, k).len() == k,
        h264_unit_ranges(frame, k)[i] == ({
            let data = nalu_starts(frame, frame.len())[i];
            range_between(
                start_code_begin(frame, data),
                if h264_vcl(frame[data]) {
                    data + 1
                } else {
                    nalu_end(frame, i)
                },
            )
        }),
    decreases k,
{
    let last = nalu_starts(frame, frame.len())[k - 1];
    assert(last < nalu_end(frame, k - 1));
    if i < k - 1 {
        lemma_h264_unit(frame, (k - 1) as nat, i);
    } else if k > 1 {
        lemma_h264_unit(frame, (k - 1) as nat, 0);
    }
}

/// In an H.265 frame with start codes there is one range for each NAL unit, in
/// order, which starts at its start code. It goes up to and with the two header
/// bytes of a unit of type 0 to 31, whose first byte is below 64, or at least 128
/// and below 192, and to the end of any other, and of one too short for its
/// header.
pub proof fn h265_range_of_unit(frame: Seq<u8>, i: int)
    requires
        frame.len() <= usize::MAX,
        0 <= i < nalu_starts(frame, frame.len()).len(),
    ensures
        ({
            let starts = nalu_starts(frame, frame.len());
            let data = starts[i];
            let end = nalu_end(frame, i);
            &&& clear_ranges(Codec::H265, frame) matches Some(ranges)
            &&& ranges.len() == starts.len()
            &&& ranges[i].offset == start_code_begin(frame, data)
            &&& ranges[i].offset + ranges[i].length == if end - data >= 2 && (frame[data] < 64
                || 128 <= frame[data] < 192) {
                data + 2
            } else {
                end
            }
        }),
{
    let starts = nalu_starts(frame, frame.len());
    lemma_h265_unit(frame, starts.len(), i);
    lemma_units_in_order(frame, i);
}

proof fn lemma_h265_unit(frame: Seq<u8>, k: nat, i: int)
    requires
        0 <= i < k <= nalu_starts(frame, frame.len()).len(),
    ensures
        h265_unit_ranges(frame, k).len() == k,
        h265_unit_ranges(frame, k)[i] == ({
            let data = nalu_starts(frame, frame.len())[i];
            let end = nalu_end(frame, i);
            range_between(
                start_code_begin(frame, data),
                if data + 1 < end && h265_vcl(frame[data]) {
                    data + 2
                } else {
                    end
                },
            )
        }),
    decreases k,
{
    if i < k - 1 {
        lemma_h265_unit(frame, (k - 1) as nat, i);
    } else if k > 1 {
        lemma_h265_unit(frame, (k - 1) as nat, 0);
    } else {
        assert(h265_unit_ranges(frame, 0).len() == 0);
    }
}

/// The bytes 0, 0 and 1 stand at `at`.
pub open spec fn start_code_at(frame: Seq<u8>, at: int) -> bool {
    0 <= at && at + 3 <= frame.len() && frame[at] == 0 && frame[at + 1] == 0 && frame[at + 2] == 1
}

/// A NAL unit of a frame: its start code begins at `begin`, with the bytes 0, 0
/// and 1 or with one more zero in front of them; its own bytes stand from `data`
/// up to `end`, where the frame ends or the next start code begins.
pub open spec fn nal_unit(frame: Seq<u8>, begin: int, data: int, end: int) -> bool {
    &&& start_code_at(frame, data - 3)
    &&& begin == if data >= 4 && frame[data - 4] == 0 {
        data - 4
    } else {
        data - 3
    }
    &&& data <= end <= frame.len()
    &&& forall|at: int| data - 3 < at < end ==> !#[trigger] start_code_at(frame, at)
    &&& end < frame.len() ==> start_code_at(frame, end) && frame[end - 1] != 0 || (frame[end] == 0
        && start_code_at(frame, end + 1))
}

proof fn lemma_starts_prefix(frame: Seq<u8>, a: nat, b: nat)
    requires
        a <= b,
    ensures
        nalu_starts(frame, a).len() <= nalu_starts(frame, b).len(),
        forall|i: int|
            0 <= i < nalu_starts(frame, a).len() ==> #[trigger] nalu_starts(frame, a)[i]
                == nalu_starts(frame, b)[i],
    decreases b,
{
    if a < b {
        lemma_starts_prefix(frame, a, (b - 1) as nat);
        let before = nalu_starts(frame, (b - 1) as nat);
        assert(forall|i: int|
            0 <= i < before.len() ==> #[trigger] before[i] == nalu_starts(frame, b)[i]);
    }
}

/// A NAL unit is among those that the start codes divide the frame into.
proof fn lemma_unit_index(frame: Seq<u8>, begin: int, data: int, end: int) -> (i: int)
    requires
        nal_unit(frame, begin, data, end),
    ensures
        0 <= i < nalu_starts(frame, frame.len()).len(),
        nalu_starts(frame, frame.len())[i] == data,
        start_code_begin(frame, data) == begin,
        nalu_end(frame, i) == end,
{
    let starts = nalu_starts(frame, frame.len());
    let upto = nalu_starts(frame, data as nat);
    let i = nalu_starts(frame, (data - 1) as nat).len() as int;
    assert(start_code_ends_at(frame, data));
    assert(upto.len() == i + 1 && upto[i] == data);
    lemma_starts_prefix(frame, data as nat, frame.len());
    if end == frame.len() {
        assert forall|d: int| data < d <= frame.len() implies !start_code_ends_at(frame, d) by {
            assert(!start_code_at(frame, d - 3));
        }
        lemma_starts_same(frame, data as nat, frame.len());
    } else {
        let next = if frame[end - 1] != 0 && start_code_at(frame, end) {
            end + 3
        } else {
            end + 4
        };
        assert(start_code_ends_at(frame, next)) by {
            assert(start_code_at(frame, next - 3));
        }
        assert forall|d: int| data < d <= next - 1 implies !start_code_ends_at(frame, d) by {
            if d - 3 < end {
                assert(!start_code_at(frame, d - 3));
            }
        }
        lemma_starts_same(frame, data as nat, (next - 1) as nat);
        assert(nalu_starts(frame, next as nat) == upto.push(next));
        assert(nalu_starts(frame, next as nat)[i + 1] == next);
        lemma_starts_prefix(frame, next as nat, frame.len());
    }
    i
}

/// The other way round: what the start codes divide the frame into are NAL units.
proof fn lemma_index_is_unit(frame: Seq<u8>, i: int)
    requires
        0 <= i < nalu_starts(frame, frame.len()).len(),
    ensures
        ({
            let data = nalu_starts(frame, frame.len())[i];
            nal_unit(frame, start_code_begin(frame, data), data, nalu_end(frame, i))
        }),
{
    let starts = nalu_starts(frame, frame.len());
    let data = starts[i];
    let end = nalu_end(frame, i);
    lemma_units_in_order(frame, i);
    lemma_starts(frame, frame.len());
    assert forall|at: int| data - 3 < at < end implies !#[trigger] start_code_at(frame, at) by {
        if start_code_at(frame, at) {
            let d = at + 3;
            assert(start_code_ends_at(frame, d));
            let k = nalu_starts(frame, (d - 1) as nat).len() as int;
            assert(nalu_starts(frame, d as nat)[k] == d);
            lemma_starts_prefix(frame, d as nat, frame.len());
            assert(starts[k] == d);
            if k <= i {
                assert(k < i ==> starts[k] < starts[i]);
            } else if k > i + 1 {
                assert(starts[i + 1] < starts[k]);
                assert(start_code_ends_at(frame, starts[i + 1]));
            }
        }
    }
    if i + 1 < starts.len() {
        let next = starts[i + 1];
        assert(start_code_ends_at(frame, next));
        assert(start_code_at(frame, next - 3));
        assert(end == next - 4 || frame[next - 4] != 0);
    }
}

/// The range of every NAL unit of an H.265 frame begins with its start code. It
/// ends two bytes into a unit of at least two bytes whose first is below 64, or
/// at least 128 and below 192, and with the unit otherwise.
pub proof fn h265_headers_stay_clear(
    frame: &[u8],
    found: Vec<UnencryptedRange>,
    begin: int,
    data: int,
    end: int,
)
    requires
        call_ensures(
            Codec::unencrypted_ranges,
            (&Codec::H265, frame),
            Ok::<Vec<UnencryptedRange>, SigilError>(found),
        ),
        nal_unit(frame@, begin, data, end),
    ensures
        exists|j: int|
            {
                &&& 0 <= j < found@.len()
                &&& (#[trigger] found@[j]).offset == begin
                &&& begin + found@[j].length == if end - data >= 2 && (frame@[data] < 64 || 128
                    <= frame@[data] < 192) {
                    data + 2
                } else {
                    end
                }
            },
{
    assert(frame@.len() == frame.len());
    let i = lemma_unit_index(frame@, begin, data, end);
    h265_range_of_unit(frame@, i);
    assert(found@[i].offset == begin);
}

/// In an H.265 frame with a start code there is no range but those of its NAL
/// units.
pub proof fn h265_ranges_are_units(
    frame: &[u8],
    found: Vec<UnencryptedRange>,
    at: int,
    k: int,
)
    requires
        call_ensures(
            Codec::unencrypted_ranges,
            (&Codec::H265, frame),
            Ok::<Vec<UnencryptedRange>, SigilError>(found),
        ),
        start_code_at(frame@, at),
        0 <= k < found@.len(),
    ensures
        exists|d: int, e: int| #[trigger]
            nal_unit(frame@, found@[k].offset as int, d, e) && found@[k].offset
                + found@[k].length == if e - d >= 2 && (frame@[d] < 64 || 128 <= frame@[d] < 192) {
                d + 2
            } else {
                e
            },
{
    assert(frame@.len() == frame.len());
    lemma_has_start(frame@, at);
    h265_range_of_unit(frame@, 0);
    h265_range_of_unit(frame@, k);
    lemma_index_is_unit(frame@, k);
    let d = nalu_starts(frame@, frame@.len())[k];
    assert(nal_unit(frame@, found@[k].offset as int, d, nalu_end(frame@, k)));
}

/// The range of every NAL unit of an H.264 frame that has a byte of its own
/// begins with its start code. It ends one byte into a unit whose first byte
/// leaves 1 to 5 as remainder of 32, and with the unit otherwise.
pub proof fn h264_headers_stay_clear(
    frame: &[u8],
    found: Vec<UnencryptedRange>,
    begin: int,
    data: int,
    end: int,
)
    requires
        call_ensures(
            Codec::unencrypted_ranges,
            (&Codec::H264, frame),
            Ok::<Vec<UnencryptedRange>, SigilError>(found),
        ),
        nal_unit(frame@, begin, data, end),
        data < end,
    ensures
        exists|j: int|
            {
                &&& 0 <= j < found@.len()
                &&& (#[trigger] found@[j]).offset == begin
                &&& begin + found@[j].length == if 1 <= frame@[data] % 32 <= 5 {
                    data + 1
                } else {
                    end
                }
            },
{
    assert(frame@.len() == frame.len());
    let starts = nalu_starts(frame@, frame@.len());
    let i = lemma_unit_index(frame@, begin, data, end);
    let j = lemma_h264_has_unit(frame@, starts.len(), i);
    assert(found@[j].offset == begin);
}

/// In an H.264 frame with a start code there is no range but those of its NAL
/// units with a byte of their own.
pub proof fn h264_ranges_are_units(
    frame: &[u8],
    found: Vec<UnencryptedRange>,
    at: int,
    k: int,
)
    requires
        call_ensures(
            Codec::unencrypted_ranges,
            (&Codec::H264, frame),
            Ok::<Vec<UnencryptedRange>, SigilError>(found),
        ),
        start_code_at(frame@, at),
        0 <= k < found@.len(),
    ensures
        exists|d: int, e: int| #[trigger]
            nal_unit(frame@, found@[k].offset as int, d, e) && d < e && found@[k].offset
                + found@[k].length == if 1 <= frame@[d] % 32 <= 5 {
                d + 1
            } else {
                e
            },
{
    assert(frame@.len() == frame.len());
    let starts = nalu_starts(frame@, frame@.len());
    lemma_has_start(frame@, at);
    let u = lemma_h264_is_unit(frame@, starts.len(), k);
    lemma_index_is_unit(frame@, u);
    lemma_units_in_order(frame@, u);
    assert(nal_unit(frame@, found@[k].offset as int, starts[u], nalu_end(frame@, u)));
}

proof fn lemma_has_start(frame: Seq<u8>, at: int)
    requires
        start_code_at(frame, at),
    ensures
        nalu_starts(frame, frame.len()).len() > 0,
{
    assert(start_code_ends_at(frame, at + 3));
    lemma_starts_prefix(frame, (at + 3) as nat, frame.len());
}

/// What stays in the clear of one H.264 NAL unit with a byte of its own.
spec fn h264_unit_range(frame: Seq<u8>, i: int) -> UnencryptedRange {
    let data = nalu_starts(frame, frame.len())[i];
    range_between(
        start_code_begin(frame, data),
        if h264_vcl(frame[data]) {
            data + 1
        } else {
            nalu_end(frame, i)
        },
    )
}

proof fn lemma_h264_has_unit(frame: Seq<u8>, k: nat, i: int) -> (j: int)
    requires
        0 <= i < k <= nalu_starts(frame, frame.len()).len(),
        nalu_starts(frame, frame.len())[i] < nalu_end(frame, i),
    ensures
        0 <= j < h264_unit_ranges(frame, k).len(),
        h264_unit_ranges(frame, k)[j] == h264_unit_range(frame, i),
    decreases k,
{
    if i < k - 1 {
        lemma_h264_has_unit(frame, (k - 1) as nat, i)
    } else {
        h264_unit_ranges(frame, k).len() - 1
    }
}

proof fn lemma_h264_is_unit(frame: Seq<u8>, k: nat, j: int) -> (i: int)
    requires
        k <= nalu_starts(frame, frame.len()).len(),
        0 <= j < h264_unit_ranges(frame, k).len(),
    ensures
        0 <= i < k,
        nalu_starts(frame, frame.len())[i] < nalu_end(frame, i),
        h264_unit_ranges(frame, k)[j] == h264_unit_range(frame, i),
    decreases k,
{
    if k > 0 && j < h264_unit_ranges(frame, (k - 1) as nat).len() {
        lemma_h264_is_unit(frame, (k - 1) as nat, j)
    } else {
        k - 1
    }
}

/// A frame without start code is one NAL unit. Of an H.264 frame the first byte
/// stays in the clear if it leaves 1 to 5 as remainder of 32, and else all of it;
/// of an H.265 frame of two bytes or more the first two, if the first is below
/// 64, or at least 128 and below 192, and else all of it, even if that is
/// nothing.
pub proof fn frame_without_start_code(
    frame: &[u8],
    h264: Vec<UnencryptedRange>,
    h265: Vec<UnencryptedRange>,
)
    requires
        call_ensures(
            Codec::unencrypted_ranges,
            (&Codec::H264, frame),
            Ok::<Vec<UnencryptedRange>, SigilError>(h264),
        ),
        call_ensures(
            Codec::unencrypted_ranges,
            (&Codec::H265, frame),
            Ok::<Vec<UnencryptedRange>, SigilError>(h265),
        ),
        forall|at: int| !#[trigger] start_code_at(frame@, at),
    ensures
        frame@.len() == 0 ==> h264@.len() == 0,
        frame@.len() > 0 ==> h264@.len() == 1 && h264@[0].offset == 0 && h264@[0].length == if 1
            <= frame@[0] % 32 <= 5 {
            1
        } else {
            frame@.len() as int
        },
        h265@.len() == 1,
        h265@[0].offset == 0,
        h265@[0].length == if frame@.len() >= 2 && (frame@[0] < 64 || 128 <= frame@[0] < 192) {
            2
        } else {
            frame@.len() as int
        },
{
    assert(frame@.len() == frame.len());
    assert forall|d: int| 0 < d <= frame@.len() implies !start_code_ends_at(frame@, d) by {
        assert(!start_code_at(frame@, d - 3));
    }
    lemma_starts_same(frame@, 0, frame@.len());
}

/// The frames of all codecs but VP8 and AV1 always parse.
pub proof fn other_codecs_always_parse(
    codec: &Codec,
    frame: &[u8],
    r: Result<Vec<UnencryptedRange>, SigilError>,
)
    requires
        call_ensures(Codec::unencrypted_ranges, (codec, frame), r),
    ensures
        *codec == Codec::H264 || *codec == Codec::H265 || *codec == Codec::Opus || *codec
            == Codec::Vp9 ==> r is Ok,
        r is Err ==> *codec == Codec::Vp8 || *codec == Codec::Av1,
{
}

/// Nothing of an Opus or a VP9 frame stays in the clear.
pub proof fn opus_and_vp9_are_hidden(
    codec: &Codec,
    frame: &[u8],
    r: Result<Vec<UnencryptedRange>, SigilError>,
)
    requires
        call_ensures(Codec::unencrypted_ranges, (codec, frame), r),
        *codec == Codec::Opus || *codec == Codec::Vp9,
    ensures
        r matches Ok(found) && found@.len() == 0,
{
}

/// Of a VP8 frame the front stays in the clear: ten bytes, or all of them if
/// there are fewer, if the first byte is even, and one if it is odd. An empty one
/// does not parse.
pub proof fn vp8_front_stays_clear(
    frame: &[u8],
    r: Result<Vec<UnencryptedRange>, SigilError>,
)
    requires
        call_ensures(Codec::unencrypted_ranges, (&Codec::Vp8, frame), r),
    ensures
        r is Err <==> frame@.len() == 0,
        r matches Ok(found) ==> {
            &&& found@.len() == 1
            &&& found@[0].offset == 0
            &&& frame@[0] % 2 == 1 ==> found@[0].length == 1
            &&& frame@[0] % 2 == 0 && frame@.len() >= 10 ==> found@[0].length == 10
            &&& frame@[0] % 2 == 0 && frame@.len() < 10 ==> found@[0].length == frame@.len()
        },
{
    assert(frame@.len() == frame.len());
}

/// Shifting a frame shifts what stays in the clear of it.
proof fn lemma_av1_shift(frame: Seq<u8>, by: nat, pos: nat)
    requires
        frame.len() <= usize::MAX,
        by <= pos,
        by <= frame.len(),
    ensures
        match (
            av1_clear_from(frame, pos),
            av1_clear_from(frame.skip(by as int), (pos - by) as nat),
        ) {
            (Some(a), Some(b)) => a.len() == b.len() && forall|i: int|
                0 <= i < a.len() ==> (#[trigger] a[i]).offset == by + b[i].offset && a[i].length
                    == b[i].length,
            (None, None) => true,
            _ => false,
        },
    decreases
        if pos < frame.len() {
            frame.len() - pos
        } else {
            0
        },
{
    let shifted = frame.skip(by as int);
    let at = (pos - by) as nat;
    if pos < frame.len() {
        assert(shifted[at as int] == frame[pos as int]);
        let after_fixed = pos + obu_fixed_len(frame, pos);
        let rest = frame.skip(after_fixed as int);
        assert(shifted.skip(after_fixed - by) =~= rest);
        if obu_has_size(frame, pos) && !size_field_too_large(rest) {
            lemma_len_beyond(rest, 0);
            let payload = after_fixed + size_field_len(rest);
            lemma_av1_shift(frame, by, payload + size_field_value(rest));
            assert((payload + size_field_value(rest) - by) as nat == (payload - by) as nat
                + size_field_value(rest));
        }
    }
}

/// The first OBU of an AV1 frame has its header byte, the extension byte that bit
/// 2 of it announces, and the size field that bit 1 announces, in the clear.
/// Behind an OBU with a size field comes what stays in the clear of the rest of
/// the frame; one without is the last.
pub proof fn av1_headers_stay_clear(
    frame: &[u8],
    found: Vec<UnencryptedRange>,
    extension: Seq<u8>,
    size: u64,
    payload: Seq<u8>,
    rest: &[u8],
    rest_found: Vec<UnencryptedRange>,
)
    requires
        call_ensures(
            Codec::unencrypted_ranges,
            (&Codec::Av1, frame),
            Ok::<Vec<UnencryptedRange>, SigilError>(found),
        ),
        call_ensures(
            Codec::unencrypted_ranges,
            (&Codec::Av1, rest),
            Ok::<Vec<UnencryptedRange>, SigilError>(rest_found),
        ),
        frame@.len() > 0,
        (frame@[0] / 4) % 2 == 1 ==> extension.len() == 1,
        (frame@[0] / 4) % 2 == 0 ==> extension.len() == 0,
        (frame@[0] / 2) % 2 == 1 ==> payload.len() == size && frame@ == seq![frame@[0]] + extension
            + uleb_bytes(size as nat) + payload + rest@,
        (frame@[0] / 2) % 2 == 0 ==> frame@ == seq![frame@[0]] + extension + payload,
    ensures
        found@.len() >= 1,
        found@[0].offset == 0,
        (frame@[0] / 2) % 2 == 0 ==> found@.len() == 1 && found@[0].length == 1
            + extension.len(),
        (frame@[0] / 2) % 2 == 1 ==> {
            let header = 1 + extension.len() + uleb_bytes(size as nat).len();
            &&& found@[0].length == header
            &&& found@.len() == 1 + rest_found@.len()
            &&& forall|i: int|
                0 <= i < rest_found@.len() ==> (#[trigger] rest_found@[i]).length == found@[i
                    + 1].length && found@[i + 1].offset == header + size + rest_found@[i].offset
        },
{
    assert(frame@.len() == frame.len());
    let fixed = obu_fixed_len(frame@, 0);
    let behind = frame@.skip(fixed as int);
    if (frame@[0] / 2) % 2 == 1 {
        let field = uleb_bytes(size as nat);
        assert(behind =~= field + (payload + rest@));
        encode_then_decode_forward(size, payload + rest@);
        assert(size_field_value(behind) == size);
        assert(size_field_len(behind) == field.len());
        let after = fixed + field.len();
        let next = after + size as nat;
        assert(frame@.skip(next as int) =~= rest@);
        lemma_av1_shift(frame@, next, next);
        let later = av1_clear_from(frame@, next);
        assert(later is Some);
        assert(found@ == seq![range_between(0, after as int)] + later->0);
        assert(forall|i: int| 0 <= i < later->0.len() ==> #[trigger] later->0[i] == found@[i + 1]);
        assert forall|i: int| 0 <= i < rest_found@.len() implies (#[trigger] rest_found@[i]).length
            == found@[i + 1].length && found@[i + 1].offset == next + rest_found@[i].offset by {
            assert(later->0[i] == found@[i + 1]);
        }
    }
}

/// An AV1 frame without a byte has nothing that stays in the clear.
pub proof fn empty_av1_frame(frame: &[u8], r: Result<Vec<UnencryptedRange>, SigilError>)
    requires
        call_ensures(Codec::unencrypted_ranges, (&Codec::Av1, frame), r),
        frame@.len() == 0,
    ensures
        r matches Ok(found) && found@.len() == 0,
{
}

/// `e` is the error for a frame that cannot be parsed under `codec`.
pub open spec fn unparsable(codec: Codec, e: SigilError) -> bool {
    e matches SigilError::UnsupportedCodec(text) && text@ == if codec == Codec::Vp8 {
        "VP8 frame is empty"@
    } else {
        "AV1 size field is too large"@
    }
}

/// The unencrypted ranges of a frame are ordered by ascending offset, do not
/// overlap, and lie within the frame.
pub proof fn clear_ranges_are_ordered(codec: Codec, frame: Seq<u8>)
    requires
        frame.len() <= usize::MAX,
    ensures
        clear_ranges(codec, frame) matches Some(ranges) ==> ordered_within(
            ranges,
            frame.len() as int,
        ),
{
    let starts = nalu_starts(frame, frame.len());
    if codec == Codec::H264 && starts.len() > 0 {
        lemma_h264_units_ordered(frame, starts.len());
    }
    if codec == Codec::H265 && starts.len() > 0 {
        lemma_h265_units_ordered(frame, starts.len());
    }
    if codec == Codec::Av1 {
        lemma_av1_ordered(frame, 0);
    }
}

impl Codec {
    /// Determine which byte ranges of `frame` must remain unencrypted
    /// for this codec.
    ///
    /// The returned ranges are ordered by ascending offset.
    ///
    /// # Errors
    ///
    /// Returns [`SigilError::UnsupportedCodec`] if the frame cannot be
    /// parsed for the given codec: a VP8 frame that is empty, or an AV1 frame
    /// with a size field whose number does not fit into 64 bits. (An AV1 header
    /// that the frame's end cuts off counts up to there.)
    pub fn unencrypted_ranges(&self, frame: &[u8]) -> (r: Result<Vec<UnencryptedRange>, SigilError>)
        ensures
            match clear_ranges(*self, frame@) {
                Some(ranges) => r matches Ok(found) && found@ == ranges && ordered_within(
                    found@,
                    frame@.len() as int,
                ),
                None => r matches Err(e) && unparsable(*self, e),
            },
    {
        proof {
            assert(frame@.len() == frame.len());
            clear_ranges_are_ordered(*self, frame@);
        }
        match self {
            Codec::Opus => Ok(Vec::new()),
            Codec::Vp8 => Self::vp8_ranges(frame),
            Codec::Vp9 => Ok(Vec::new()),
            Codec::H264 => Ok(Self::h264_ranges(frame)),
            Codec::H265 => Ok(Self::h265_ranges(frame)),
            Codec::Av1 => Self::av1_ranges(frame),
        }
    }

    /// VP8: parse the payload header to determine the unencrypted range.
    ///
    /// ```text
    /// Byte 0:  |Size0|H| VER |P|
    ///          P=0 → keyframe → 10 bytes unencrypted
    ///          P=1 → delta   → 1 byte unencrypted
    /// ```
    fn vp8_ranges(frame: &[u8]) -> (r: Result<Vec<UnencryptedRange>, SigilError>)
        ensures
            if frame@.len() == 0 {
                r matches Err(e) && unparsable(Codec::Vp8, e)
            } else {
                r matches Ok(found) && found@ == vp8_clear(frame@)
            },
    {
        if frame.len() == 0 {
            return Err(SigilError::UnsupportedCodec("VP8 frame is empty".to_owned()));
        }
        let mut ranges: Vec<UnencryptedRange> = Vec::new();
        if frame[0] % 2 == 0 {
            let length: usize = if frame.len() < 10 {
                frame.len()
            } else {
                10
            };
            ranges.push(UnencryptedRange { offset: 0, length });
        } else {
            ranges.push(UnencryptedRange { offset: 0, length: 1 });
        }
        assert(ranges@ =~= vp8_clear(frame@));
        Ok(ranges)
    }

    /// Find NAL unit positions in an H.264/H.265 byte stream.
    ///
    /// Returns a list of (start_code_offset, nalu_data_offset) pairs.
    /// Recognizes both 3-byte (0x000001) and 4-byte (0x00000001) start codes.
    fn find_nalu_positions(frame: &[u8]) -> (positions: Vec<(usize, usize)>)
        ensures
            positions@.len() == nalu_starts(frame@, frame@.len()).len(),
            forall|k: int|
                #![trigger positions@[k]]
                0 <= k < positions@.len() ==> positions@[k].1 == nalu_starts(
                    frame@,
                    frame@.len(),
                )[k] && positions@[k].0 == start_code_begin(frame@, positions@[k].1 as int),
    {
        let mut positions: Vec<(usize, usize)> = Vec::new();
        let mut i: usize = 0;
        proof {
            lemma_starts_same(frame@, 0, at_most(2, frame@.len()));
        }
        while frame.len() - i > 2
            invariant
                i <= frame@.len(),
                positions@.len() == nalu_starts(frame@, at_most(i + 2, frame@.len())).len(),
                forall|k: int|
                    #![trigger positions@[k]]
                    0 <= k < positions@.len() ==> positions@[k].1 == nalu_starts(
                        frame@,
                        at_most(i + 2, frame@.len()),
                    )[k] && positions@[k].0 == start_code_begin(frame@, positions@[k].1 as int),
                0 < i && i + 2 < frame@.len() ==> !(frame@[i - 1] == 0 && frame@[i as int] == 0
                    && frame@[i + 1] == 0 && frame@[i + 2] == 1),
            decreases frame@.len() - i,
        {
            let ghost len = frame@.len();
            if frame[i] == 0 && frame[i + 1] == 0 {
                if frame[i + 2] == 1 {
                    proof {
                        assert(start_code_ends_at(frame@, i + 3));
                        assert(nalu_starts(frame@, (i + 3) as nat) == nalu_starts(
                            frame@,
                            (i + 2) as nat,
                        ).push(i + 3));
                        lemma_starts_same(frame@, (i + 3) as nat, at_most(i + 5, len));
                    }
                    positions.push((i, i + 3));
                    i = i + 3;
                    continue ;
                } else if frame.len() - i > 3 && frame[i + 2] == 0 && frame[i + 3] == 1 {
                    proof {
                        assert(start_code_ends_at(frame@, i + 4));
                        assert(!start_code_ends_at(frame@, i + 3));
                        assert(nalu_starts(frame@, (i + 4) as nat) == nalu_starts(
                            frame@,
                            (i + 3) as nat,
                        ).push(i + 4));
                        lemma_starts_same(frame@, (i + 4) as nat, at_most(i + 6, len));
                    }
                    positions.push((i, i + 4));
                    i = i + 4;
                    continue ;
                }
            }
            proof {
                lemma_starts_same(frame@, (i + 2) as nat, (i + 3) as nat);
            }
            i = i + 1;
        }
        positions
    }

    /// H.264: iterate NAL units to determine unencrypted ranges.
    ///
    /// Scans for start codes (0x000001 or 0x00000001) to find NAL unit
    /// boundaries. For each NAL unit, the NAL header (1 byte for H.264)
    /// plus any non-VCL NAL unit data are left unencrypted, while VCL
    /// NAL unit payloads are encrypted.
    fn h264_ranges(frame: &[u8]) -> (ranges: Vec<UnencryptedRange>)
        ensures
            ranges@ == h264_clear(frame@),
    {
        let mut ranges: Vec<UnencryptedRange> = Vec::new();
        let positions = Self::find_nalu_positions(frame);
        if positions.len() == 0 {
            if frame.len() > 0 {
                let length: usize = if Self::is_h264_vcl(frame[0] % 32) {
                    1
                } else {
                    frame.len()
                };
                ranges.push(UnencryptedRange { offset: 0, length });
            }
            assert(ranges@ =~= h264_clear(frame@));
            return ranges;
        }
        let mut i: usize = 0;
        while i < positions.len()
            invariant
                i <= positions@.len(),
                positions@.len() == nalu_starts(frame@, frame@.len()).len(),
                forall|k: int|
                    #![trigger positions@[k]]
                    0 <= k < positions@.len() ==> positions@[k].1 == nalu_starts(
                        frame@,
                        frame@.len(),
                    )[k] && positions@[k].0 == start_code_begin(frame@, positions@[k].1 as int),
                ranges@ == h264_unit_ranges(frame@, i as nat),
            decreases positions@.len() - i,
        {
            let (begin, data) = positions[i];
            proof {
                lemma_units_in_order(frame@, i as int);
            }
            let end: usize = if i + 1 < positions.len() {
                positions[i + 1].0
            } else {
                frame.len()
            };
            if data < end {
                if Self::is_h264_vcl(frame[data] % 32) {
                    ranges.push(UnencryptedRange { offset: begin, length: data - begin + 1 });
                } else {
                    ranges.push(UnencryptedRange { offset: begin, length: end - begin });
                }
            }
            i = i + 1;
        }
        ranges
    }

    /// H.265: iterate NAL units to determine unencrypted ranges.
    ///
    /// Similar to H.264 but with a 2-byte NAL unit header.
    /// NAL unit type is in bits 1..6 of the first header byte.
    fn h265_ranges(frame: &[u8]) -> (ranges: Vec<UnencryptedRange>)
        ensures
            ranges@ == h265_clear(frame@),
    {
        let mut ranges: Vec<UnencryptedRange> = Vec::new();
        let positions = Self::find_nalu_positions(frame);
        if positions.len() == 0 {
            let length: usize = if frame.len() >= 2 && Self::is_h265_vcl((frame[0] / 2) % 64) {
                2
            } else {
                frame.len()
            };
            ranges.push(UnencryptedRange { offset: 0, length });
            assert(ranges@ =~= h265_clear(frame@));
            return ranges;
        }
        let mut i: usize = 0;
        while i < positions.len()
            invariant
                i <= positions@.len(),
                positions@.len() == nalu_starts(frame@, frame@.len()).len(),
                forall|k: int|
                    #![trigger positions@[k]]
                    0 <= k < positions@.len() ==> positions@[k].1 == nalu_starts(
                        frame@,
                        frame@.len(),
                    )[k] && positions@[k].0 == start_code_begin(frame@, positions@[k].1 as int),
                ranges@ == h265_unit_ranges(frame@, i as nat),
            decreases positions@.len() - i,
        {
            let (begin, data) = positions[i];
            proof {
                lemma_units_in_order(frame@, i as int);
            }
            let end: usize = if i + 1 < positions.len() {
                positions[i + 1].0
            } else {
                frame.len()
            };
            if end - data > 1 && Self::is_h265_vcl((frame[data] / 2) % 64) {
                ranges.push(UnencryptedRange { offset: begin, length: data - begin + 2 });
            } else {
                ranges.push(UnencryptedRange { offset: begin, length: end - begin });
            }
            i = i + 1;
        }
        ranges
    }

    /// Check if an H.264 NAL unit type is VCL (Video Coding Layer).
    /// VCL types are 1-5 (coded slice types).
    fn is_h264_vcl(nal_type: u8) -> (vcl: bool)
        ensures
            vcl == (1 <= nal_type <= 5),
    {
        1 <= nal_type && nal_type <= 5
    }

    /// Check if an H.265 NAL unit type is VCL (Video Coding Layer).
    /// VCL types are 0-31 in H.265/HEVC.
    fn is_h265_vcl(nal_type: u8) -> (vcl: bool)
        ensures
            vcl == (nal_type <= 31),
    {
        nal_type <= 31
    }

    /// The OBU size field at `pos`: its number and the position after it. `None`
    /// if it is too large.
    fn obu_size(frame: &[u8], pos: usize) -> (r: Option<(u64, usize)>)
        requires
            pos <= frame@.len(),
        ensures
            match r {
                Some((size, after)) => {
                    let rest = frame@.skip(pos as int);
                    &&& !size_field_too_large(rest)
                    &&& size == size_field_value(rest)
                    &&& after == pos + size_field_len(rest)
                    &&& after <= frame@.len()
                },
                None => size_field_too_large(frame@.skip(pos as int)),
            },
    {
        let ghost rest = frame@.skip(pos as int);
        let mut size: u64 = 0;
        let mut scale: u64 = 1;
        let mut i: usize = 0;
        proof {
            lemma_pow128_values();
            assert(rest.take(0) =~= Seq::<u8>::empty());
        }
        while i < frame.len() - pos
            invariant
                pos <= frame@.len(),
                rest == frame@.skip(pos as int),
                i <= rest.len(),
                i <= 9,
                scale == pow128(i as nat),
                size == uleb_value(rest.take(i as int)),
                forall|j: int| 0 <= j < i ==> rest[j] >= 128,
            decreases rest.len() - i,
        {
            let byte: u8 = frame[pos + i];
            let low_bits: u64 = (byte % 128) as u64;
            proof {
                assert(byte == rest[i as int]);
                lemma_pow128_values();
                lemma_pow128_monotonic(i as nat, 9);
                lemma_value_push(rest.take(i as int), byte);
                assert(rest.take(i + 1) =~= rest.take(i as int).push(byte));
                lemma_value_bound(rest.take(i as int));
                lemma_value_bound(rest.take(i + 1));
            }
            if i == 9 {
                proof {
                    if byte >= 128 {
                        lemma_len_beyond(rest, 10);
                    } else {
                        lemma_len_at(rest, 9);
                    }
                    assert(scale * low_bits == 0x8000_0000_0000_0000 * low_bits);
                }
                if byte > 1 {
                    return None;
                }
                return Some((size + 0x8000_0000_0000_0000 * low_bits, pos + 10));
            }
            proof {
                lemma_pow128_monotonic((i + 1) as nat, 9);
                assert(scale * low_bits <= scale * 127) by (nonlinear_arith)
                    requires
                        low_bits <= 127,
                ;
            }
            size = size + scale * low_bits;
            if byte < 128 {
                proof {
                    lemma_len_at(rest, i as int);
                }
                return Some((size, pos + i + 1));
            }
            scale = scale * 128;
            i = i + 1;
        }
        proof {
            lemma_len_beyond(rest, rest.len() as int);
            assert(rest.take(rest.len() as int) =~= rest);
        }
        Some((size, frame.len()))
    }

    /// AV1: iterate OBU (Open Bitstream Unit) headers.
    ///
    /// For each OBU:
    /// - 1-byte OBU header is unencrypted
    /// - 1-byte optional extension header is unencrypted (if extension flag set)
    /// - Optional LEB128 payload size is unencrypted
    /// - OBU payload is encrypted
    fn av1_ranges(frame: &[u8]) -> (r: Result<Vec<UnencryptedRange>, SigilError>)
        ensures
            match av1_clear_from(frame@, 0) {
                Some(ranges) => r matches Ok(found) && found@ == ranges,
                None => r matches Err(e) && unparsable(Codec::Av1, e),
            },
    {
        let mut ranges: Vec<UnencryptedRange> = Vec::new();
        let mut pos: usize = 0;
        while pos < frame.len()
            invariant
                pos <= frame@.len(),
                match av1_clear_from(frame@, pos as nat) {
                    Some(later) => av1_clear_from(frame@, 0) == Some(ranges@ + later),
                    None => av1_clear_from(frame@, 0) is None,
                },
            decreases frame@.len() - pos,
        {
            let ghost before = ranges@;
            let ghost later = av1_clear_from(frame@, pos as nat);
            let header: u8 = frame[pos];
            let after_fixed: usize = if (header / 4) % 2 == 1 && frame.len() - pos > 1 {
                pos + 2
            } else {
                pos + 1
            };
            if (header / 2) % 2 == 1 {
                match Self::obu_size(frame, after_fixed) {
                    Some((size, payload)) => {
                        ranges.push(UnencryptedRange { offset: pos, length: payload - pos });
                        let ghost next: nat = (payload + size) as nat;
                        proof {
                            if let Some(tail) = av1_clear_from(frame@, next) {
                                assert(before + (seq![range_between(pos as int, payload as int)]
                                    + tail) =~= ranges@ + tail);
                            }
                        }
                        if size >= (frame.len() - payload) as u64 {
                            pos = frame.len();
                        } else {
                            pos = payload + size as usize;
                        }
                    },
                    None => return Err(
                        SigilError::UnsupportedCodec("AV1 size field is too large".to_owned()),
                    ),
                }
            } else {
                ranges.push(UnencryptedRange { offset: pos, length: after_fixed - pos });
                pos = frame.len();
                assert(ranges@ =~= before + seq![ranges@.last()]);
                assert(ranges@ + Seq::<UnencryptedRange>::empty() =~= ranges@);
            }
        }
        assert(ranges@ + Seq::<UnencryptedRange>::empty() =~= ranges@);
        Ok(ranges)
    }
}

/// An AV1 header that the frame's end cuts off counts up to there: the byte of a
/// frame of one byte, and a size field of fewer than ten bytes that does not end.
/// One of ten bytes or more that does not end is refused.
pub proof fn cut_off_av1_header(
    frame: &[u8],
    r: Result<Vec<UnencryptedRange>, SigilError>,
    fixed: int,
)
    requires
        call_ensures(Codec::unencrypted_ranges, (&Codec::Av1, frame), r),
        frame@.len() > 0,
        fixed == if (frame@[0] / 4) % 2 == 1 && frame@.len() > 1 {
            2int
        } else {
            1
        },
        frame@.len() == 1 || ((frame@[0] / 2) % 2 == 1 && forall|i: int|
            fixed <= i < frame@.len() ==> #[trigger] frame@[i] >= 128),
    ensures
        frame@.len() - fixed < 10 ==> (r matches Ok(found) && found@.len() == 1 && found@[0].offset
            == 0 && found@[0].length == frame@.len()),
        frame@.len() - fixed >= 10 ==> r is Err,
{
    assert(frame@.len() == frame.len());
    let rest = frame@.skip(fixed);
    assert forall|j: int| 0 <= j < rest.len() implies rest[j] >= 128 by {
        assert(frame@[fixed + j] >= 128);
    }
    lemma_len_beyond(rest, rest.len() as int);
    let next = (fixed + rest.len() + size_field_value(rest)) as nat;
    assert(av1_clear_from(frame@, next) == Some(Seq::<UnencryptedRange>::empty()));
}

/// The size field of an AV1 header counts as far as its number goes. One that
/// ends, but holds no number of 64 bits in ten bytes, is refused.
pub proof fn av1_size_fields_are_numbers(
    frame: &[u8],
    r: Result<Vec<UnencryptedRange>, SigilError>,
    behind: &[u8],
    number: Result<(u64, usize), SigilError>,
    i: int,
)
    requires
        call_ensures(Codec::unencrypted_ranges, (&Codec::Av1, frame), r),
        frame@.len() > 0,
        (frame@[0] / 2) % 2 == 1,
        behind@ == frame@.skip(
            if (frame@[0] / 4) % 2 == 1 && frame@.len() > 1 {
                2
            } else {
                1
            },
        ),
        call_ensures(uleb128::decode_forward, (behind,), number),
        0 <= i < behind@.len(),
        behind@[i] < 128,
    ensures
        number is Err ==> r is Err,
        number matches Ok((_, n)) ==> (r matches Ok(found) ==> found@.len() >= 1
            && found@[0].offset == 0 && found@[0].length == frame@.len() - behind@.len() + n),
{
    assert(frame@.len() == frame.len());
    if uleb_len(behind@) is None {
        lemma_no_end(behind@, i);
    }
    if let Ok((_, n)) = number {
        lemma_len_beyond(behind@, 0);
    }
}

proof fn lemma_no_end(buf: Seq<u8>, i: int)
    requires
        0 <= i < buf.len(),
        buf[i] < 128,
    ensures
        uleb_len(buf) is Some,
    decreases buf.len(),
{
    if i > 0 && buf[0] >= 128 {
        lemma_no_end(buf.skip(1), i - 1);
    }
}

} // verus!

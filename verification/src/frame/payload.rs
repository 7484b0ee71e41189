//! DAVE frame footer builder and parser.
//!
//! The footer is appended to every encrypted DAVE frame and contains:
//!
//! ```text
//! [interleaved media frame]
//! [truncated tag (8 bytes)]
//! [ULEB128 nonce]
//! [ULEB128 unencrypted range offset/length pairs]
//! [supplemental size (1 byte)]
//! [magic marker 0xFAFA (2 bytes)]
//! ```
//!
//! The supplemental size covers everything from the tag through the magic marker.

use vstd::prelude::*;
use crate::crypto::codec::UnencryptedRange;
use crate::crypto::uleb128::{
    self, encode_then_decode_forward, lemma_decode_bounds, uleb_bytes, uleb_decode,
};
use crate::error::SigilError;
use crate::types::{MAGIC_MARKER, TRUNCATED_TAG_LENGTH};

verus! {

/// The offset/length pairs of `ranges`, each number in ULEB128.
pub open spec fn range_bytes(ranges: Seq<UnencryptedRange>) -> Seq<u8>
    decreases ranges.len(),
{
    if ranges.len() == 0 {
        Seq::empty()
    } else {
        uleb_bytes(ranges[0].offset as nat) + uleb_bytes(ranges[0].length as nat) + range_bytes(
            ranges.skip(1),
        )
    }
}

/// What a footer holds before its size byte.
pub open spec fn footer_body(tag: Seq<u8>, nonce: u32, ranges: Seq<UnencryptedRange>) -> Seq<u8> {
    tag + uleb_bytes(nonce as nat) + range_bytes(ranges)
}

/// A whole footer. The size byte holds the low eight bits of its length.
pub open spec fn footer_bytes(tag: Seq<u8>, nonce: u32, ranges: Seq<UnencryptedRange>) -> Seq<u8> {
    let body = footer_body(tag, nonce, ranges);
    body + seq![((body.len() + 3) % 256) as u8, 0xFAu8, 0xFAu8]
}

/// The offset/length pairs that `data` spells. A last offset without length
/// is dropped. `None` if a number cannot be decoded.
pub open spec fn decoded_ranges(data: Seq<u8>) -> Option<Seq<UnencryptedRange>>
    decreases data.len(),
{
    if data.len() == 0 {
        Some(Seq::empty())
    } else {
        proof {
            lemma_decode_bounds(data);
        }
        match uleb_decode(data) {
            None => None,
            Some((offset, n)) => {
                let after = data.skip(n as int);
                proof {
                    lemma_decode_bounds(after);
                }
                if after.len() == 0 {
                    Some(Seq::empty())
                } else {
                    match uleb_decode(after) {
                        None => None,
                        Some((length, m)) => match decoded_ranges(after.skip(m as int)) {
                            None => None,
                            Some(later) => Some(
                                seq![
                                    UnencryptedRange {
                                        offset: offset as usize,
                                        length: length as usize,
                                    },
                                ] + later,
                            ),
                        },
                    }
                }
            },
        }
    }
}

/// What a footer says about its frame.
pub struct FooterContents {
    pub tag: Seq<u8>,
    pub nonce: u32,
    pub ranges: Seq<UnencryptedRange>,
    /// Where the media data ends and the footer begins.
    pub data_end: nat,
}

/// What parsing the end of `frame` as a footer yields.
pub open spec fn parsed_footer(frame: Seq<u8>) -> Result<FooterContents, SigilError> {
    let len = frame.len();
    let size = frame[len - 3] as nat;
    if len < 12 {
        Err(SigilError::FrameTooShort { need: 12, got: len as usize })
    } else if frame[len - 2] != 0xFA || frame[len - 1] != 0xFA {
        Err(SigilError::InvalidMagic)
    } else if size > len {
        Err(SigilError::FrameTooShort { need: size as usize, got: len as usize })
    } else if size < 8 {
        Err(SigilError::FrameTooShort { need: 8, got: size as usize })
    } else if size < 11 {
        Err(SigilError::FrameTooShort { need: 11, got: size as usize })
    } else {
        let numbers = frame.subrange(len - size + 8, len - 3);
        match uleb_decode(numbers) {
            None => Err(SigilError::Uleb128Overflow),
            Some((nonce, n)) => match decoded_ranges(numbers.skip(n as int)) {
                None => Err(SigilError::Uleb128Overflow),
                Some(ranges) => Ok(
                    FooterContents {
                        tag: frame.subrange(len - size, len - size + 8),
                        nonce: (nonce % 0x1_0000_0000) as u32,
                        ranges,
                        data_end: (len - size) as nat,
                    },
                ),
            },
        }
    }
}

proof fn lemma_ranges_round_trip(ranges: Seq<UnencryptedRange>)
    ensures
        decoded_ranges(range_bytes(ranges)) == Some(ranges),
    decreases ranges.len(),
{
    if ranges.len() > 0 {
        let data = range_bytes(ranges);
        let later = range_bytes(ranges.skip(1));
        let offset = ranges[0].offset as u64;
        let length = ranges[0].length as u64;
        let first = uleb_bytes(offset as nat);
        let second = uleb_bytes(length as nat);
        encode_then_decode_forward(offset, second + later);
        encode_then_decode_forward(length, later);
        lemma_decode_bounds(first + (second + later));
        lemma_decode_bounds(second + later);
        assert(data =~= first + (second + later));
        assert(data.skip(first.len() as int) =~= second + later);
        assert((second + later).skip(second.len() as int) =~= later);
        lemma_ranges_round_trip(ranges.skip(1));
        assert(seq![ranges[0]] + ranges.skip(1) =~= ranges);
    } else {
        assert(ranges =~= Seq::empty());
    }
}

/// A footer of at most 255 bytes that `build_footer` appended to a frame is
/// read back by `parse_footer` as it was.
pub proof fn footer_round_trip(
    data: Seq<u8>,
    tag: Seq<u8>,
    nonce: u32,
    ranges: Seq<UnencryptedRange>,
)
    requires
        tag.len() == 8,
        footer_bytes(tag, nonce, ranges).len() <= 255,
    ensures
        parsed_footer(data + footer_bytes(tag, nonce, ranges)) == Ok::<FooterContents, SigilError>(
            FooterContents { tag, nonce, ranges, data_end: data.len() },
        ),
{
    let body = footer_body(tag, nonce, ranges);
    let frame = data + footer_bytes(tag, nonce, ranges);
    let len = frame.len();
    let size = body.len() + 3;
    let first = uleb_bytes(nonce as nat);
    let later = range_bytes(ranges);
    encode_then_decode_forward(nonce as u64, later);
    lemma_decode_bounds(first + later);
    assert(frame[len - 3] == size);
    assert(frame.subrange(len - size, len - size + 8) =~= tag);
    assert(frame.subrange(len - size + 8, len - 3) =~= first + later);
    assert((first + later).skip(first.len() as int) =~= later);
    lemma_ranges_round_trip(ranges);
}

/// Build a DAVE frame footer.
///
/// Returns the raw bytes to be appended after the interleaved media frame data.
///
/// # Layout
///
/// `[tag(8)] [nonce(ULEB128)] [range_pairs(ULEB128)...] [suppl_size(1)] [0xFAFA]`
pub fn build_footer(
    truncated_tag: &[u8; TRUNCATED_TAG_LENGTH],
    truncated_nonce: u32,
    ranges: &[UnencryptedRange],
) -> (footer: Vec<u8>)
    ensures
        footer@ == footer_bytes(truncated_tag@, truncated_nonce, ranges@),
{
    let mut footer: Vec<u8> = Vec::new();
    footer.extend_from_slice(truncated_tag.as_slice());
    let nonce_bytes = uleb128::encode(truncated_nonce as u64);
    footer.extend_from_slice(nonce_bytes.as_slice());
    let ghost body = footer_body(truncated_tag@, truncated_nonce, ranges@);
    let mut i: usize = 0;
    assert(ranges@.skip(0) =~= ranges@);
    assert(footer@ + range_bytes(ranges@) =~= body);
    while i < ranges.len()
        invariant
            i <= ranges@.len(),
            footer@ + range_bytes(ranges@.skip(i as int)) == body,
        decreases ranges@.len() - i,
    {
        let ghost before = footer@;
        let range: UnencryptedRange = ranges[i];
        let offset_bytes = uleb128::encode(range.offset as u64);
        let length_bytes = uleb128::encode(range.length as u64);
        footer.extend_from_slice(offset_bytes.as_slice());
        footer.extend_from_slice(length_bytes.as_slice());
        proof {
            assert(ranges@.skip(i as int).skip(1) =~= ranges@.skip(i + 1));
            assert(before + range_bytes(ranges@.skip(i as int)) =~= footer@ + range_bytes(
                ranges@.skip(i + 1),
            ));
        }
        i = i + 1;
    }
    assert(footer@ =~= body);
    let size: u8 = ((footer.len() % 256 + 3) % 256) as u8;
    footer.push(size);
    footer.push(MAGIC_MARKER[0]);
    footer.push(MAGIC_MARKER[1]);
    footer
}

/// Parse a DAVE frame footer from a complete frame (media data + footer).
///
/// Returns `(truncated_tag, truncated_nonce, unencrypted_ranges, frame_data_end_index)`.
///
/// `frame_data_end_index` is the byte offset where the interleaved media frame
/// data ends (i.e., the start of the footer within the buffer).
///
/// # Errors
///
/// - [`SigilError::InvalidMagic`] if the last 2 bytes are not `0xFAFA`
/// - [`SigilError::FrameTooShort`] if the frame is too small to contain a valid footer
/// - [`SigilError::Uleb128Overflow`] if a number in the footer cannot be decoded
pub fn parse_footer(frame: &[u8]) -> (r: Result<
    ([u8; TRUNCATED_TAG_LENGTH], u32, Vec<UnencryptedRange>, usize),
    SigilError,
>)
    ensures
        match parsed_footer(frame@) {
            Ok(footer) => r matches Ok((tag, nonce, ranges, data_end)) && tag@ == footer.tag
                && nonce == footer.nonce && ranges@ == footer.ranges && data_end == footer.data_end,
            Err(e) => r == Err::<
                ([u8; TRUNCATED_TAG_LENGTH], u32, Vec<UnencryptedRange>, usize),
                SigilError,
            >(e),
        },
        r matches Ok((tag, nonce, ranges, data_end)) ==> data_end + 11 <= frame@.len(),
{
    let len: usize = frame.len();
    let min_footer: usize = TRUNCATED_TAG_LENGTH + 1 + 1 + 2;
    if len < min_footer {
        return Err(SigilError::FrameTooShort { need: min_footer, got: len });
    }
    if frame[len - 2] != MAGIC_MARKER[0] || frame[len - 1] != MAGIC_MARKER[1] {
        return Err(SigilError::InvalidMagic);
    }
    let size: usize = frame[len - 3] as usize;
    if size > len {
        return Err(SigilError::FrameTooShort { need: size, got: len });
    }
    if size < TRUNCATED_TAG_LENGTH {
        return Err(SigilError::FrameTooShort { need: TRUNCATED_TAG_LENGTH, got: size });
    }
    if size < TRUNCATED_TAG_LENGTH + 3 {
        return Err(SigilError::FrameTooShort { need: TRUNCATED_TAG_LENGTH + 3, got: size });
    }
    let start: usize = len - size;
    let tag = [
        frame[start],
        frame[start + 1],
        frame[start + 2],
        frame[start + 3],
        frame[start + 4],
        frame[start + 5],
        frame[start + 6],
        frame[start + 7],
    ];
    assert(tag@ =~= frame@.subrange(start as int, start + 8));
    let numbers = &frame[start + TRUNCATED_TAG_LENGTH..len - 3];
    let (nonce_value, consumed) = match uleb128::decode_forward(numbers) {
        Ok(found) => found,
        Err(e) => return Err(e),
    };
    proof {
        lemma_decode_bounds(numbers@);
    }
    let nonce: u32 = (nonce_value % 0x1_0000_0000) as u32;
    let mut ranges: Vec<UnencryptedRange> = Vec::new();
    let mut pos: usize = consumed;
    let ghost wanted = decoded_ranges(numbers@.skip(consumed as int));
    while pos < numbers.len()
        invariant
            pos <= numbers@.len(),
            match decoded_ranges(numbers@.skip(pos as int)) {
                Some(later) => wanted == Some(ranges@ + later),
                None => wanted is None,
            },
            wanted == decoded_ranges(numbers@.skip(consumed as int)),
            uleb_decode(numbers@) matches Some((v, n)) && n == consumed,
            size == frame@[frame@.len() - 3],
            11 <= size <= frame@.len(),
            frame@.len() >= 12,
            frame@[frame@.len() - 2] == 0xFA,
            frame@[frame@.len() - 1] == 0xFA,
            numbers@ == frame@.subrange(frame@.len() - size + 8, frame@.len() - 3),
        ensures
            wanted == Some(ranges@),
        decreases numbers@.len() - pos,
    {
        let ghost before = ranges@;
        let ghost data = numbers@.skip(pos as int);
        let tail = &numbers[pos..numbers.len()];
        assert(tail@ =~= data);
        let (offset, n) = match uleb128::decode_forward(tail) {
            Ok(found) => found,
            Err(e) => return Err(e),
        };
        proof {
            lemma_decode_bounds(data);
        }
        pos = pos + n;
        if pos >= numbers.len() {
            assert(ranges@ + Seq::<UnencryptedRange>::empty() =~= ranges@);
            break ;
        }
        let ghost after = data.skip(n as int);
        let tail = &numbers[pos..numbers.len()];
        assert(tail@ =~= after);
        let (length, m) = match uleb128::decode_forward(tail) {
            Ok(found) => found,
            Err(e) => return Err(e),
        };
        proof {
            lemma_decode_bounds(after);
            assert(after.skip(m as int) =~= numbers@.skip(pos + m));
            let first = UnencryptedRange { offset: offset as usize, length: length as usize };
            if let Some(later) = decoded_ranges(numbers@.skip(pos + m)) {
                assert(before + (seq![first] + later) =~= before.push(first) + later);
            }
        }
        pos = pos + m;
        ranges.push(UnencryptedRange { offset: offset as usize, length: length as usize });
    }
    Ok((tag, nonce, ranges, start))
}

/// A footer begins with the eight bytes of the tag and the encoded nonce, and
/// ends with one byte for its own length, modulo 256, and two bytes 0xFA. In
/// between stand the ranges: nothing where there is none, and else the encoded
/// offset and the encoded length of the first, and behind them those of the
/// others.
pub proof fn footer_layout(
    tag: &[u8; TRUNCATED_TAG_LENGTH],
    nonce: u32,
    nonce_bytes: Vec<u8>,
    ranges: &[UnencryptedRange],
    footer: Vec<u8>,
    later: &[UnencryptedRange],
    later_footer: Vec<u8>,
    offset_bytes: Vec<u8>,
    length_bytes: Vec<u8>,
)
    requires
        call_ensures(build_footer, (tag, nonce, ranges), footer),
        call_ensures(uleb128::encode, (nonce as u64,), nonce_bytes),
        call_ensures(build_footer, (tag, nonce, later), later_footer),
        ranges@.len() > 0 ==> later@ == ranges@.skip(1) && call_ensures(
            uleb128::encode,
            (ranges@[0].offset as u64,),
            offset_bytes,
        ) && call_ensures(uleb128::encode, (ranges@[0].length as u64,), length_bytes),
    ensures
        footer@.len() >= 11 + nonce_bytes@.len(),
        footer@.take(8) == tag@,
        footer@.subrange(8, 8 + nonce_bytes@.len() as int) == nonce_bytes@,
        footer@[footer@.len() - 3] == footer@.len() % 256,
        footer@[footer@.len() - 2] == 250,
        footer@[footer@.len() - 1] == 250,
        ranges@.len() == 0 ==> footer@.len() == 11 + nonce_bytes@.len(),
        ranges@.len() > 0 ==> footer@.subrange(
            8 + nonce_bytes@.len() as int,
            footer@.len() - 3,
        ) == offset_bytes@ + length_bytes@ + later_footer@.subrange(
            8 + nonce_bytes@.len() as int,
            later_footer@.len() - 3,
        ),
{
    let n = nonce_bytes@.len() as int;
    let body = footer_body(tag@, nonce, ranges@);
    assert(tag@.len() == 8);
    assert(footer@.take(8) =~= tag@);
    assert(footer@.subrange(8, 8 + n) =~= nonce_bytes@);
    assert(footer@.subrange(8 + n, footer@.len() - 3) =~= range_bytes(ranges@));
    assert(later_footer@.subrange(8 + n, later_footer@.len() - 3) =~= range_bytes(later@));
    assert(footer@.len() == body.len() + 3);
}

/// A footer of at most 255 bytes behind a frame's data is read back as it was
/// built: tag, nonce, ranges, and where the data ends.
pub proof fn footer_is_read_back(
    tag: &[u8; TRUNCATED_TAG_LENGTH],
    nonce: u32,
    ranges: &[UnencryptedRange],
    footer: Vec<u8>,
    data: Seq<u8>,
    frame: &[u8],
    r: Result<([u8; TRUNCATED_TAG_LENGTH], u32, Vec<UnencryptedRange>, usize), SigilError>,
)
    requires
        call_ensures(build_footer, (tag, nonce, ranges), footer),
        footer@.len() <= 255,
        frame@ == data + footer@,
        call_ensures(parse_footer, (frame,), r),
    ensures
        r matches Ok((found_tag, found_nonce, found_ranges, data_end)) && found_tag@ == tag@
            && found_nonce == nonce && found_ranges@ == ranges@ && data_end == data.len(),
{
    footer_round_trip(data, tag@, nonce, ranges@);
}

/// What is parsed has at least twelve bytes, ends with two bytes 0xFA, and gives
/// in the byte before them how long the footer is: eleven bytes or more, and no
/// more than there are. The tag is the first eight bytes of the footer. Each way
/// to fall short of that has its error.
pub proof fn footer_limits(
    frame: &[u8],
    r: Result<([u8; TRUNCATED_TAG_LENGTH], u32, Vec<UnencryptedRange>, usize), SigilError>,
)
    requires
        call_ensures(parse_footer, (frame,), r),
    ensures
        frame@.len() < 12 ==> (r matches Err(SigilError::FrameTooShort { need, got }) && need == 12
            && got == frame@.len()),
        frame@.len() >= 12 && (frame@[frame@.len() - 2] != 250 || frame@[frame@.len() - 1] != 250)
            ==> (r matches Err(SigilError::InvalidMagic)),
        frame@.len() >= 12 && frame@[frame@.len() - 2] == 250 && frame@[frame@.len() - 1] == 250
            ==> {
            let size = frame@[frame@.len() - 3];
            &&& size > frame@.len() ==> (r matches Err(SigilError::FrameTooShort { need, got })
                && need == size && got == frame@.len())
            &&& size <= frame@.len() && size < 8 ==> (r matches Err(
                SigilError::FrameTooShort { need, got },
            ) && need == 8 && got == size)
            &&& size <= frame@.len() && 8 <= size < 11 ==> (r matches Err(
                SigilError::FrameTooShort { need, got },
            ) && need == 11 && got == size)
            &&& size <= frame@.len() && size >= 11 ==> match r {
                Ok((tag, nonce, ranges, data_end)) => data_end == frame@.len() - size && tag@
                    == frame@.subrange(data_end as int, data_end + 8),
                Err(e) => e == SigilError::Uleb128Overflow,
            }
        },
{
}

/// The nonce in a footer is the first number behind the tag, modulo 2^32. The
/// numbers behind it are ranges, two each; where there is none, or a single one,
/// there is no range.
pub proof fn footer_numbers(
    frame: &[u8],
    tag: [u8; TRUNCATED_TAG_LENGTH],
    nonce: u32,
    ranges: Vec<UnencryptedRange>,
    data_end: usize,
    numbers: &[u8],
    first: Result<(u64, usize), SigilError>,
    tail: &[u8],
    second: Result<(u64, usize), SigilError>,
)
    requires
        call_ensures(
            parse_footer,
            (frame,),
            Ok::<([u8; TRUNCATED_TAG_LENGTH], u32, Vec<UnencryptedRange>, usize), SigilError>(
                (tag, nonce, ranges, data_end),
            ),
        ),
        numbers@ == frame@.subrange(data_end + 8, frame@.len() - 3),
        call_ensures(uleb128::decode_forward, (numbers,), first),
        first matches Ok((_, n)) ==> tail@ == numbers@.skip(n as int),
        call_ensures(uleb128::decode_forward, (tail,), second),
    ensures
        first matches Ok((value, _)) && nonce == value % 4294967296,
        tail@.len() == 0 ==> ranges@.len() == 0,
        tail@.len() > 0 ==> second is Ok,
        second matches Ok((_, n)) ==> (n == tail@.len() ==> ranges@.len() == 0) && (n < tail@.len()
            ==> ranges@.len() >= 1),
        second matches Ok((offset, n)) ==> (n < tail@.len() && offset <= usize::MAX
            ==> ranges@[0].offset == offset),
{
    lemma_decode_bounds(numbers@);
    lemma_decode_bounds(tail@);
}

} // verus!

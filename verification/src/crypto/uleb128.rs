//! ULEB128 (Unsigned Little-Endian Base 128) encoder/decoder.
//!
//! Used by the DAVE protocol to compactly encode nonces and
//! unencrypted range offset/length pairs in frame footers.

use vstd::prelude::*;
use crate::error::SigilError;

verus! {

/// The ULEB128 bytes of `value`: seven bits per byte, least significant
/// group first, the high bit set on every byte but the last.
pub open spec fn uleb_bytes(value: nat) -> Seq<u8>
    decreases value,
{
    if value < 128 {
        seq![value as u8]
    } else {
        seq![(128 + value % 128) as u8] + uleb_bytes(value / 128)
    }
}

/// `128` raised to the power `n`.
pub open spec fn pow128(n: nat) -> nat
    decreases n,
{
    if n == 0 {
        1
    } else {
        128 * pow128((n - 1) as nat)
    }
}

/// The number that the seven-bit groups of `bytes` spell, least significant
/// group first.
pub open spec fn uleb_value(bytes: Seq<u8>) -> nat
    decreases bytes.len(),
{
    if bytes.len() == 0 {
        0
    } else {
        (bytes[0] % 128) as nat + 128 * uleb_value(bytes.skip(1))
    }
}

/// How many bytes the encoding at the start of `buf` takes: up to and with the
/// first byte whose high bit is clear. `None` if there is no such byte.
pub open spec fn uleb_len(buf: Seq<u8>) -> Option<nat>
    decreases buf.len(),
{
    if buf.len() == 0 {
        None
    } else if buf[0] < 128 {
        Some(1)
    } else {
        match uleb_len(buf.skip(1)) {
            Some(n) => Some(n + 1),
            None => None,
        }
    }
}

/// What decoding the start of `buf` yields: the value and the number of bytes
/// it took. `None` if the encoding does not end, takes more than ten bytes, or
/// spells a number beyond 64 bits.
pub open spec fn uleb_decode(buf: Seq<u8>) -> Option<(u64, nat)> {
    match uleb_len(buf) {
        Some(n) => if n <= 10 && uleb_value(buf.take(n as int)) <= u64::MAX {
            Some((uleb_value(buf.take(n as int)) as u64, n))
        } else {
            None
        },
        None => None,
    }
}

/// The position reached from `pos` by stepping back over bytes whose high bit
/// is set.
pub open spec fn step_back(buf: Seq<u8>, pos: nat) -> nat
    decreases pos,
{
    if pos > 0 && buf[pos - 1] >= 128 {
        step_back(buf, (pos - 1) as nat)
    } else {
        pos
    }
}

pub proof fn lemma_pow128_values()
    ensures
        pow128(0) == 1,
        pow128(9) == 0x8000_0000_0000_0000,
{
    reveal_with_fuel(pow128, 10);
}

pub proof fn lemma_pow128_monotonic(i: nat, j: nat)
    requires
        i <= j,
    ensures
        pow128(i) <= pow128(j),
    decreases j,
{
    if i < j {
        lemma_pow128_monotonic(i, (j - 1) as nat);
    }
}

pub proof fn lemma_value_push(s: Seq<u8>, b: u8)
    ensures
        uleb_value(s.push(b)) == uleb_value(s) + pow128(s.len()) * (b % 128),
    decreases s.len(),
{
    if s.len() == 0 {
        assert(s.push(b).skip(1) =~= Seq::<u8>::empty());
        assert(uleb_value(Seq::<u8>::empty()) == 0);
        assert(pow128(0) * (b % 128) == b % 128) by (nonlinear_arith)
            requires
                pow128(0) == 1,
        ;
    } else {
        assert(s.push(b)[0] == s[0]);
        assert(s.push(b).skip(1) =~= s.skip(1).push(b));
        lemma_value_push(s.skip(1), b);
        let p: nat = pow128(s.skip(1).len());
        let d: nat = (b % 128) as nat;
        assert(pow128(s.len()) == 128 * p);
        assert(pow128(s.len()) * (b % 128) == 128 * (p * d)) by (nonlinear_arith)
            requires
                pow128(s.len()) == 128 * p,
                d == b % 128,
        ;
    }
}

pub proof fn lemma_value_bound(s: Seq<u8>)
    ensures
        uleb_value(s) < pow128(s.len()),
    decreases s.len(),
{
    if s.len() > 0 {
        lemma_value_bound(s.skip(1));
    }
}

/// The length of an encoding in terms of where its continuation bits end.
pub proof fn lemma_len_at(buf: Seq<u8>, i: int)
    requires
        0 <= i < buf.len(),
        forall|j: int| 0 <= j < i ==> buf[j] >= 128,
        buf[i] < 128,
    ensures
        uleb_len(buf) == Some((i + 1) as nat),
    decreases i,
{
    if i > 0 {
        let rest = buf.skip(1);
        assert forall|j: int| 0 <= j < i - 1 implies rest[j] >= 128 by {
            assert(rest[j] == buf[j + 1]);
        }
        lemma_len_at(rest, i - 1);
    }
}

pub proof fn lemma_len_beyond(buf: Seq<u8>, i: int)
    requires
        0 <= i <= buf.len(),
        forall|j: int| 0 <= j < i ==> buf[j] >= 128,
    ensures
        uleb_len(buf) matches Some(n) ==> i < n <= buf.len(),
        i == buf.len() ==> uleb_len(buf) is None,
    decreases buf.len(),
{
    if buf.len() > 0 {
        let rest = buf.skip(1);
        if i > 0 {
            assert forall|j: int| 0 <= j < i - 1 implies rest[j] >= 128 by {
                assert(rest[j] == buf[j + 1]);
            }
            lemma_len_beyond(rest, i - 1);
        } else {
            lemma_len_beyond(rest, 0);
        }
    }
}

/// A decoded encoding takes at least one byte and no more than there are.
pub proof fn lemma_decode_bounds(buf: Seq<u8>)
    ensures
        uleb_decode(buf) matches Some((v, n)) ==> 1 <= n <= buf.len() && n <= 10,
{
    lemma_len_beyond(buf, 0);
}

/// What `encode` writes, `decode_forward` reads back, whatever follows it.
pub proof fn encode_then_decode_forward(value: u64, rest: Seq<u8>)
    ensures
        uleb_decode(uleb_bytes(value as nat) + rest) == Some(
            (value, uleb_bytes(value as nat).len()),
        ),
{
    lemma_len_of_bytes(value as nat, rest);
    lemma_value_of_bytes(value as nat);
    lemma_bytes_len(value as nat, 10);
    let bytes = uleb_bytes(value as nat);
    assert((bytes + rest).take(bytes.len() as int) =~= bytes);
}

/// What `encode` writes after a byte without continuation bit, or at the very
/// start, `decode_reverse` reads back from its end.
pub proof fn encode_then_decode_reverse(prefix: Seq<u8>, value: u64)
    requires
        prefix.len() > 0 ==> prefix.last() < 128,
    ensures
        ({
            let buf = prefix + uleb_bytes(value as nat);
            uleb_decode_before(buf, buf.len()) == Some((value, prefix.len()))
        }),
{
    let bytes = uleb_bytes(value as nat);
    let buf = prefix + bytes;
    lemma_len_of_bytes(value as nat, Seq::empty());
    lemma_continuation_bits(value as nat);
    lemma_step_back(buf, prefix.len(), (buf.len() - 1) as nat);
    assert(buf.subrange(prefix.len() as int, buf.len() as int) =~= bytes + Seq::<u8>::empty());
    encode_then_decode_forward(value, Seq::empty());
}

proof fn lemma_step_back(buf: Seq<u8>, start: nat, pos: nat)
    requires
        start <= pos <= buf.len(),
        forall|j: int| start <= j < pos ==> buf[j] >= 128,
        start > 0 ==> buf[start - 1] < 128,
    ensures
        step_back(buf, pos) == start,
    decreases pos,
{
    if pos > start {
        lemma_step_back(buf, start, (pos - 1) as nat);
    }
}

proof fn lemma_continuation_bits(value: nat)
    ensures
        uleb_bytes(value).len() >= 1,
        uleb_bytes(value).last() < 128,
        forall|j: int| 0 <= j < uleb_bytes(value).len() - 1 ==> uleb_bytes(value)[j] >= 128,
    decreases value,
{
    if value >= 128 {
        lemma_continuation_bits(value / 128);
        assert forall|j: int| 0 <= j < uleb_bytes(value).len() - 1 implies uleb_bytes(value)[j]
            >= 128 by {
            if j > 0 {
                assert(uleb_bytes(value)[j] == uleb_bytes(value / 128)[j - 1]);
            }
        }
    }
}

proof fn lemma_len_of_bytes(value: nat, rest: Seq<u8>)
    ensures
        uleb_len(uleb_bytes(value) + rest) == Some(uleb_bytes(value).len()),
{
    lemma_continuation_bits(value);
    lemma_len_at(uleb_bytes(value) + rest, uleb_bytes(value).len() - 1);
}

proof fn lemma_value_of_bytes(value: nat)
    ensures
        uleb_value(uleb_bytes(value)) == value,
    decreases value,
{
    if value >= 128 {
        lemma_value_of_bytes(value / 128);
        assert(uleb_bytes(value).skip(1) =~= uleb_bytes(value / 128));
    } else {
        assert(uleb_bytes(value).skip(1) =~= Seq::<u8>::empty());
        assert(uleb_value(Seq::<u8>::empty()) == 0);
    }
}

/// A number below `2^(7n)` takes at most `n` bytes; one below `2^64`, ten.
pub proof fn lemma_bytes_len(value: nat, n: nat)
    requires
        n >= 1,
        value < pow128(n) || (n == 10 && value <= u64::MAX),
    ensures
        1 <= uleb_bytes(value).len() <= n,
    decreases n,
{
    if n == 10 {
        reveal_with_fuel(pow128, 11);
    }
    if value >= 128 {
        if n == 1 {
            assert(pow128(1) == 128) by {
                reveal_with_fuel(pow128, 2);
            }
        } else {
            assert(value / 128 < pow128((n - 1) as nat));
            lemma_bytes_len(value / 128, (n - 1) as nat);
        }
    }
}

/// Encode a `u64` value as ULEB128 bytes.
pub fn encode(value: u64) -> (buf: Vec<u8>)
    ensures
        buf@ == uleb_bytes(value as nat),
{
    let mut buf: Vec<u8> = Vec::new();
    let mut rest: u64 = value;
    while rest >= 128
        invariant
            uleb_bytes(value as nat) == buf@ + uleb_bytes(rest as nat),
        decreases rest,
    {
        let ghost before = buf@;
        buf.push((128 + rest % 128) as u8);
        assert(before + uleb_bytes(rest as nat) =~= buf@ + uleb_bytes((rest / 128) as nat));
        rest = rest / 128;
    }
    buf.push(rest as u8);
    buf
}

/// Decode a ULEB128-encoded value from the start of `buf`.
///
/// Returns the decoded value and the number of bytes consumed.
///
/// # Errors
///
/// Returns [`SigilError::Uleb128Overflow`] if the encoded value would overflow
/// a `u64`, takes more than ten bytes, or does not end within `buf`.
pub fn decode_forward(buf: &[u8]) -> (r: Result<(u64, usize), SigilError>)
    ensures
        match uleb_decode(buf@) {
            Some((value, consumed)) => r matches Ok((v, n)) && v == value && n == consumed,
            None => r == Err::<(u64, usize), SigilError>(SigilError::Uleb128Overflow),
        },
{
    let mut result: u64 = 0;
    let mut scale: u64 = 1;
    let mut i: usize = 0;
    proof {
        lemma_pow128_values();
        assert(buf@.take(0) =~= Seq::<u8>::empty());
    }
    while i < buf.len()
        invariant
            i <= buf.len(),
            i <= 10,
            i <= 9 ==> scale == pow128(i as nat),
            result == uleb_value(buf@.take(i as int)),
            forall|j: int| 0 <= j < i ==> buf@[j] >= 128,
        decreases buf.len() - i,
    {
        if i == 10 {
            proof {
                lemma_len_beyond(buf@, 10);
            }
            return Err(SigilError::Uleb128Overflow);
        }
        let byte: u8 = buf[i];
        let low_bits: u64 = (byte % 128) as u64;
        proof {
            lemma_pow128_values();
            lemma_pow128_monotonic(i as nat, 9);
            lemma_value_push(buf@.take(i as int), byte);
            assert(buf@.take(i + 1) =~= buf@.take(i as int).push(byte));
            lemma_value_bound(buf@.take(i as int));
        }
        if i == 9 && low_bits > 1 {
            proof {
                let whole: nat = uleb_value(buf@.take(10));
                assert(whole > u64::MAX) by {
                    assert(pow128(9) * low_bits >= pow128(9) * 2) by (nonlinear_arith)
                        requires
                            low_bits >= 2,
                    ;
                }
                lemma_len_beyond(buf@, 9);
                if let Some(n) = uleb_len(buf@) {
                    if n != 10 {
                        assert(n > 10);
                    }
                }
            }
            return Err(SigilError::Uleb128Overflow);
        }
        proof {
            if i < 9 {
                lemma_pow128_monotonic((i + 1) as nat, 9);
                assert(scale * low_bits <= scale * 127) by (nonlinear_arith)
                    requires
                        low_bits <= 127,
                ;
            } else {
                assert(scale * low_bits <= scale * 1) by (nonlinear_arith)
                    requires
                        low_bits <= 1,
                ;
            }
        }
        result = result + scale * low_bits;
        if byte < 128 {
            proof {
                lemma_len_at(buf@, i as int);
            }
            return Ok((result, i + 1));
        }
        if i < 9 {
            scale = scale * 128;
        }
        i = i + 1;
    }
    proof {
        lemma_len_beyond(buf@, buf@.len() as int);
    }
    Err(SigilError::Uleb128Overflow)
}

/// Decode a ULEB128-encoded value from the end of `buf`, reading backwards.
///
/// `pos` is an in/out parameter: on entry it points one past the last byte
/// of the encoded value. On success it points to the first byte of the
/// encoded value; on failure it is left alone.
///
/// # Errors
///
/// Returns [`SigilError::Uleb128Overflow`] if there is no byte before `pos`,
/// if the byte before `pos` does not end an encoding, or if the encoded value
/// would overflow a `u64`.
pub fn decode_reverse(buf: &[u8], pos: &mut usize) -> (r: Result<u64, SigilError>)
    requires
        *old(pos) <= buf@.len(),
    ensures
        match uleb_decode_before(buf@, *old(pos) as nat) {
            Some((value, start)) => r matches Ok(v) && v == value && *final(pos) == start,
            None => r == Err::<u64, SigilError>(SigilError::Uleb128Overflow) && *final(pos) == *old(
                pos,
            ),
        },
{
    if *pos == 0 {
        return Err(SigilError::Uleb128Overflow);
    }
    let end: usize = *pos;
    let mut start: usize = end - 1;
    while start > 0 && buf[start - 1] >= 128
        invariant
            start < end <= buf@.len(),
            step_back(buf@, (end - 1) as nat) == step_back(buf@, start as nat),
        decreases start,
    {
        start = start - 1;
    }
    let (value, consumed) = match decode_forward(&buf[start..end]) {
        Ok(found) => found,
        Err(e) => return Err(e),
    };
    if consumed != end - start {
        return Err(SigilError::Uleb128Overflow);
    }
    *pos = start;
    Ok(value)
}

/// The value whose encoding ends just before `end`, with the position of its
/// first byte.
pub open spec fn uleb_decode_before(buf: Seq<u8>, end: nat) -> Option<(u64, nat)> {
    if end == 0 {
        None
    } else {
        let start = step_back(buf, (end - 1) as nat);
        match uleb_decode(buf.subrange(start as int, end as int)) {
            Some((value, n)) => if n == end - start {
                Some((value, start))
            } else {
                None
            },
            None => None,
        }
    }
}

/// A number below 128 is encoded in one byte, itself. Any other is encoded as its
/// seven low bits with the high bit set, and behind that the encoding of what is
/// left of it.
pub proof fn low_groups_come_first(value: u64, buf: Vec<u8>, later: Vec<u8>)
    requires
        call_ensures(encode, (value,), buf),
        call_ensures(encode, ((value / 128) as u64,), later),
    ensures
        value < 128 ==> buf@ == seq![value as u8],
        value >= 128 ==> buf@.len() == 1 + later@.len() && buf@[0] == 128 + value % 128
            && buf@.skip(1) == later@,
{
    if value >= 128 {
        assert(buf@.skip(1) =~= later@);
    }
}

/// A byte below 128 is a number of its own. A byte of 128 or more stands for what
/// it is above 128, plus 128 times the number behind it; together they may take
/// ten bytes and 64 bits, and nothing is decoded beyond that. Without a byte
/// there is no number.
pub proof fn high_bit_continues(
    buf: &[u8],
    r: Result<(u64, usize), SigilError>,
    later: &[u8],
    later_r: Result<(u64, usize), SigilError>,
)
    requires
        call_ensures(decode_forward, (buf,), r),
        call_ensures(decode_forward, (later,), later_r),
        buf@.len() > 0 ==> later@ == buf@.skip(1),
    ensures
        buf@.len() == 0 ==> r is Err,
        buf@.len() > 0 && buf@[0] < 128 ==> r == Ok::<(u64, usize), SigilError>(
            (buf@[0] as u64, 1usize),
        ),
        buf@.len() > 0 && buf@[0] >= 128 ==> match later_r {
            Err(_) => r is Err,
            Ok((value, consumed)) => if consumed < 10 && buf@[0] - 128 + 128 * value
                <= 18446744073709551615 {
                r matches Ok((v, n)) && v == buf@[0] - 128 + 128 * value && n == consumed + 1
            } else {
                r is Err
            },
        },
{
    if buf@.len() > 0 {
        let first = buf@[0];
        if first < 128 {
            assert(buf@.take(1).skip(1) =~= Seq::<u8>::empty());
            assert(uleb_value(buf@.take(1)) == first) by {
                reveal_with_fuel(uleb_value, 2);
            }
        } else {
            if let Some(n) = uleb_len(later@) {
                lemma_len_beyond(later@, 0);
                assert(buf@.take(n as int + 1).skip(1) =~= later@.take(n as int));
                assert(buf@.take(n as int + 1)[0] == first);
                assert(uleb_value(buf@.take(n as int + 1)) == (first % 128) as nat + 128
                    * uleb_value(later@.take(n as int)));
                assert(first % 128 == first - 128);
            }
        }
    }
}

/// What was encoded is decoded from its front, whatever follows it, and from its
/// end, as long as no byte with the high bit set stands before it.
pub proof fn encoding_is_read_from_both_ends(
    value: u64,
    encoded: Vec<u8>,
    front: &[u8],
    rest: Seq<u8>,
    forward: Result<(u64, usize), SigilError>,
    back: &[u8],
    prefix: Seq<u8>,
    pos: &mut usize,
    reverse: Result<u64, SigilError>,
)
    requires
        call_ensures(encode, (value,), encoded),
        front@ == encoded@ + rest,
        call_ensures(decode_forward, (front,), forward),
        back@ == prefix + encoded@,
        prefix.len() > 0 ==> prefix.last() < 128,
        *old(pos) == back@.len(),
        call_ensures(decode_reverse, (back, pos), reverse),
    ensures
        forward matches Ok((v, n)) && v == value && n == encoded@.len(),
        reverse == Ok::<u64, SigilError>(value),
        *final(pos) == prefix.len(),
{
    encode_then_decode_forward(value, rest);
    encode_then_decode_reverse(prefix, value);
}

/// From its end a number is read as it is from its front: it begins behind the
/// last byte without high bit that stands before its own last byte, or at the
/// very start. What is no number leaves the position where it was.
pub proof fn reverse_agrees_with_forward(
    buf: &[u8],
    prefix: Seq<u8>,
    group: &[u8],
    forward: Result<(u64, usize), SigilError>,
    pos: &mut usize,
    reverse: Result<u64, SigilError>,
)
    requires
        prefix.len() + group@.len() <= buf@.len(),
        buf@.take(prefix.len() as int + group@.len()) == prefix + group@,
        group@.len() > 0,
        prefix.len() > 0 ==> prefix.last() < 128,
        forall|j: int| 0 <= j < group@.len() - 1 ==> #[trigger] group@[j] >= 128,
        call_ensures(decode_forward, (group,), forward),
        *old(pos) == prefix.len() + group@.len(),
        call_ensures(decode_reverse, (buf, pos), reverse),
    ensures
        forward matches Ok((value, _)) ==> reverse == Ok::<u64, SigilError>(value)
            && *final(pos) == prefix.len(),
        forward is Err ==> reverse is Err && *final(pos) == *old(pos),
{
    let p = prefix.len() as int;
    let whole = buf@.take(p + group@.len());
    assert forall|j: int| p <= j < p + group@.len() - 1 implies buf@[j] >= 128 by {
        assert(whole[j] == group@[j - p]);
    }
    if p > 0 {
        assert(whole[p - 1] == prefix.last());
    }
    lemma_step_back(buf@, prefix.len(), (p + group@.len() - 1) as nat);
    lemma_len_beyond(group@, group@.len() - 1);
    assert(buf@.subrange(p, p + group@.len()) =~= group@) by {
        assert forall|j: int| 0 <= j < group@.len() implies buf@.subrange(p, p + group@.len())[j]
            == group@[j] by {
            assert(whole[p + j] == group@[j]);
        }
    }
}

} // verus!

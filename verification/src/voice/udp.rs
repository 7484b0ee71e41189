//! IP discovery, RTP headers, and transport encryption between bot and
//! Discord's SFU.

use aes_gcm::aead::{Aead, KeyInit, Payload};
use aes_gcm::{Aes256Gcm, Key, Nonce};
use vstd::prelude::*;
use vstd::utf8::{decode_utf8, valid_utf8};
use crate::crypto::frame_crypto::{gcm_accepts, GCM_MAX_LENGTH};

verus! {

/// Length of an IP discovery packet in bytes.
pub const DISCOVERY_LENGTH: usize = 74;

/// Length of an RTP header in bytes.
pub const RTP_HEADER_LENGTH: usize = 12;

/// Length of a transport key in bytes.
pub const TRANSPORT_KEY_LENGTH: usize = 32;

/// Why a packet was not encrypted or decrypted.
#[derive(Debug, Clone, Copy, PartialEq, Eq, Structural)]
pub struct TransportError;

/// The byte at `index` of the counter-mode keystream that `Aes256Gcm::encrypt`
/// lays over a message.
pub uninterp spec fn aes256_gcm_keystream(key: Seq<u8>, nonce: Seq<u8>, index: nat) -> u8;

/// The tag that `Aes256Gcm::encrypt` appends, in terms of the ciphertext before
/// it.
pub uninterp spec fn aes256_gcm_tag(
    key: Seq<u8>,
    nonce: Seq<u8>,
    aad: Seq<u8>,
    ciphertext: Seq<u8>,
) -> [u8; 16];

/// The text that `String::from_utf8_lossy` makes of bytes.
pub uninterp spec fn lossy_utf8(bytes: Seq<u8>) -> Seq<char>;

/// `data` with the keystream of `key` and `nonce` laid over it.
pub open spec fn transport_keystream_over(
    key: Seq<u8>,
    nonce: Seq<u8>,
    data: Seq<u8>,
) -> Seq<u8> {
    Seq::new(data.len(), |i: int| data[i] ^ aes256_gcm_keystream(key, nonce, i as nat))
}

/// Calls `Aes256Gcm::encrypt`. Claimed of it: it fails exactly if the message
/// or the associated data is longer than 2^36 bytes; otherwise it returns the
/// message with the keystream over it, followed by the 16-byte tag of that.
/// The key must have 32 bytes.
#[verifier::external_body]
fn aes256_gcm_encrypt(
    key: &[u8],
    nonce: &[u8; 12],
    msg: &[u8],
    aad: &[u8],
) -> (r: Result<Vec<u8>, aes_gcm::Error>)
    requires
        key@.len() == 32,
    ensures
        r is Ok <==> gcm_accepts(msg@.len(), aad@.len()),
        r matches Ok(sealed) ==> sealed@.len() == msg@.len() + 16 && forall|i: int|
            0 <= i < msg@.len() ==> #[trigger] sealed@[i] == msg@[i] ^ aes256_gcm_keystream(
                key@,
                nonce@,
                i as nat,
            ),
        r matches Ok(sealed) ==> sealed@.skip(msg@.len() as int) == aes256_gcm_tag(
            key@,
            nonce@,
            aad@,
            sealed@.take(msg@.len() as int),
        )@,
{
    let cipher = Aes256Gcm::new(Key::<Aes256Gcm>::from_slice(key));
    cipher.encrypt(Nonce::from_slice(nonce), Payload { msg, aad })
}

/// Calls `Aes256Gcm::decrypt`. Claimed of it: it succeeds exactly if the last 16
/// bytes of the message are the tag of those before, which are no more than
/// 2^36 + 16, and then returns those with the keystream over them. The key must
/// have 32 bytes.
#[verifier::external_body]
fn aes256_gcm_decrypt(
    key: &[u8],
    nonce: &[u8; 12],
    msg: &[u8],
    aad: &[u8],
) -> (r: Result<Vec<u8>, aes_gcm::Error>)
    requires
        key@.len() == 32,
    ensures
        r is Ok <==> tag_is_right(key@, nonce@, msg@, aad@),
        r matches Ok(plain) ==> plain@ == transport_keystream_over(
            key@,
            nonce@,
            msg@.take(msg@.len() - 16),
        ),
{
    let cipher = Aes256Gcm::new(Key::<Aes256Gcm>::from_slice(key));
    cipher.decrypt(Nonce::from_slice(nonce), Payload { msg, aad })
}

/// Calls `String::from_utf8_lossy`. Claimed of it: the text depends on the bytes
/// alone, and valid UTF-8 comes out as the text that it encodes.
#[verifier::external_body]
pub(crate) fn text_from_utf8_lossy(bytes: &[u8]) -> (text: String)
    ensures
        text@ == lossy_utf8(bytes@),
        valid_utf8(bytes@) ==> text@ == decode_utf8(bytes@),
{
    String::from_utf8_lossy(bytes).into_owned()
}

/// The message is a ciphertext followed by its tag, within what AES-GCM takes.
pub open spec fn tag_is_right(
    key: Seq<u8>,
    nonce: Seq<u8>,
    msg: Seq<u8>,
    aad: Seq<u8>,
) -> bool {
    &&& msg.len() >= 16
    &&& msg.len() - 16 <= GCM_MAX_LENGTH + 16
    &&& aad.len() <= GCM_MAX_LENGTH
    &&& msg.skip(msg.len() - 16) == aes256_gcm_tag(
        key,
        nonce,
        aad,
        msg.take(msg.len() - 16),
    )@
}

/// A 32-bit number in four big-endian bytes.
pub open spec fn be_u32(n: u32) -> Seq<u8> {
    seq![
        (n / 0x100_0000) as u8,
        (n / 0x1_0000 % 0x100) as u8,
        (n / 0x100 % 0x100) as u8,
        (n % 0x100) as u8,
    ]
}

/// A 16-bit number in two big-endian bytes.
pub open spec fn be_u16(n: u16) -> Seq<u8> {
    seq![(n / 0x100) as u8, (n % 0x100) as u8]
}

/// The IP discovery request for an SSRC: type 1, length 70, the SSRC, zeros.
pub open spec fn discovery_request(ssrc: u32) -> Seq<u8> {
    seq![0u8, 1u8, 0u8, 70u8] + be_u32(ssrc) + Seq::new(66, |i: int| 0u8)
}

/// Where the zero-terminated address in a discovery response ends, looked for
/// from `from` on: at a zero byte, or at the port at the latest.
pub open spec fn address_end(response: Seq<u8>, from: int) -> int
    decreases 72 - from,
{
    if from < 72 && response[from] != 0 {
        address_end(response, from + 1)
    } else {
        from
    }
}

/// The address bytes in a discovery response.
pub open spec fn discovered_address(response: Seq<u8>) -> Seq<u8> {
    response.subrange(8, address_end(response, 8))
}

/// The port in a discovery response.
pub open spec fn discovered_port(response: Seq<u8>) -> u16 {
    (256 * response[72] + response[73]) as u16
}

/// Build the 74-byte IP Discovery packet for Discord's UDP socket.
/// Format:
/// - 2 bytes: Type (0x00 0x01)
/// - 2 bytes: Length (70)
/// - 4 bytes: SSRC
/// - 66 bytes: 0-padding
pub fn build_ip_discovery(ssrc: u32) -> (packet: Vec<u8>)
    ensures
        packet@ == discovery_request(ssrc),
        packet@.len() == DISCOVERY_LENGTH,
{
    let mut packet: Vec<u8> = vec![0u8; 74];
    packet.set(1, 1);
    packet.set(3, 70);
    packet.set(4, (ssrc / 0x100_0000) as u8);
    packet.set(5, (ssrc / 0x1_0000 % 0x100) as u8);
    packet.set(6, (ssrc / 0x100 % 0x100) as u8);
    packet.set(7, (ssrc % 0x100) as u8);
    assert(packet@ =~= discovery_request(ssrc));
    packet
}

/// The address bytes and the port in a 74-byte IP Discovery response. The
/// address starts at offset 8 and is null-terminated.
pub fn discovery_fields(response: &[u8; 74]) -> (fields: (Vec<u8>, u16))
    ensures
        fields.0@ == discovered_address(response@),
        fields.1 == discovered_port(response@),
{
    let mut address: Vec<u8> = Vec::new();
    let mut end: usize = 8;
    while end < 72 && response[end] != 0
        invariant
            8 <= end <= 72,
            address@ == response@.subrange(8, end as int),
            address_end(response@, 8) == address_end(response@, end as int),
        decreases 72 - end,
    {
        address.push(response[end]);
        assert(address@ =~= response@.subrange(8, end + 1));
        end = end + 1;
    }
    let port: u16 = 256 * response[72] as u16 + response[73] as u16;
    (address, port)
}

/// Parse the 74-byte IP Discovery response block.
/// Discord sends back our public IP and the UDP port we are routing from.
pub fn parse_ip_discovery(response: &[u8; 74]) -> (found: (String, u16))
    ensures
        found.0@ == lossy_utf8(discovered_address(response@)),
        valid_utf8(discovered_address(response@)) ==> found.0@ == decode_utf8(
            discovered_address(response@),
        ),
        found.1 == discovered_port(response@),
{
    let (address, port) = discovery_fields(response);
    (text_from_utf8_lossy(address.as_slice()), port)
}

/// The RTP header of an Opus packet: version 2, payload type 120, sequence
/// number, timestamp and SSRC.
pub open spec fn rtp_header(seq: u16, timestamp: u32, ssrc: u32) -> Seq<u8> {
    seq![0x80u8, 0x78u8] + be_u16(seq) + be_u32(timestamp) + be_u32(ssrc)
}

/// Standard RTP Header used by Discord:
/// - Version 2, no padding, no extensions, no CSRC
/// - Payload type: 0x78 (120) for Opus
pub fn build_rtp_header(seq: u16, timestamp: u32, ssrc: u32) -> (header: [u8; 12])
    ensures
        header@ == rtp_header(seq, timestamp, ssrc),
{
    let header = [
        0x80,
        0x78,
        (seq / 0x100) as u8,
        (seq % 0x100) as u8,
        (timestamp / 0x100_0000) as u8,
        (timestamp / 0x1_0000 % 0x100) as u8,
        (timestamp / 0x100 % 0x100) as u8,
        (timestamp % 0x100) as u8,
        (ssrc / 0x100_0000) as u8,
        (ssrc / 0x1_0000 % 0x100) as u8,
        (ssrc / 0x100 % 0x100) as u8,
        (ssrc % 0x100) as u8,
    ];
    assert(header@ =~= rtp_header(seq, timestamp, ssrc));
    header
}

/// The AES-GCM nonce of a transport packet: eight zero bytes and the four bytes
/// that end the packet.
pub open spec fn transport_nonce(suffix: Seq<u8>) -> Seq<u8> {
    Seq::new(8, |i: int| 0u8) + suffix
}

/// A transport packet: header, encrypted payload with tag, and the nonce
/// counter in big-endian order.
pub open spec fn transport_packet(
    key: Seq<u8>,
    header: Seq<u8>,
    payload: Seq<u8>,
    nonce_counter: u32,
) -> Seq<u8> {
    let suffix = be_u32(nonce_counter);
    let nonce = transport_nonce(suffix);
    let ciphertext = transport_keystream_over(key, nonce, payload);
    header + ciphertext + aes256_gcm_tag(key, nonce, header, ciphertext)@ + suffix
}

/// What decrypting a transport packet yields: nothing if it is shorter than
/// header, tag and nonce together, or if its tag is wrong.
pub open spec fn transport_payload(key: Seq<u8>, packet: Seq<u8>) -> Option<Seq<u8>> {
    let len = packet.len();
    let header = packet.take(12);
    let nonce = transport_nonce(packet.skip(len - 4));
    let sealed = packet.subrange(12, len - 4);
    if len >= 32 && tag_is_right(key, nonce, sealed, header) {
        Some(transport_keystream_over(key, nonce, sealed.take(sealed.len() - 16)))
    } else {
        None
    }
}

/// A packet that was encrypted is decrypted under the same key to its payload.
pub proof fn transport_round_trip(
    key: Seq<u8>,
    header: Seq<u8>,
    payload: Seq<u8>,
    nonce_counter: u32,
)
    requires
        header.len() == 12,
        payload.len() <= GCM_MAX_LENGTH,
    ensures
        transport_payload(key, transport_packet(key, header, payload, nonce_counter)) == Some(
            payload,
        ),
{
    let packet = transport_packet(key, header, payload, nonce_counter);
    let len = packet.len();
    let suffix = be_u32(nonce_counter);
    let nonce = transport_nonce(suffix);
    let ciphertext = transport_keystream_over(key, nonce, payload);
    let tag = aes256_gcm_tag(key, nonce, header, ciphertext)@;
    let sealed = packet.subrange(12, len - 4);
    assert(packet.take(12) =~= header);
    assert(packet.skip(len - 4) =~= suffix);
    assert(sealed =~= ciphertext + tag);
    assert(sealed.take(sealed.len() - 16) =~= ciphertext);
    assert(sealed.skip(sealed.len() - 16) =~= tag);
    let twice = transport_keystream_over(key, nonce, ciphertext);
    assert forall|i: int| 0 <= i < payload.len() implies twice[i] == payload[i] by {
        let d = payload[i];
        let k = aes256_gcm_keystream(key, nonce, i as nat);
        assert(d ^ k ^ k == d) by (bit_vector);
    }
    assert(twice =~= payload);
}

/// Encrypts an RTP block using `aead_aes256_gcm_rtpsize` mode.
///
/// This is the **transport-level** encryption between bot and Discord's SFU.
/// Separate from DAVE E2EE frame encryption.
///
/// - Nonce: A 32-bit incrementing integer, **big-endian** padded to 96 bits.
///   Discord expects BE for transport nonces (unlike DAVE frame nonces which are LE).
/// - AAD: The 12-byte RTP header.
/// - Output: `[12-byte RTP Header] + [Encrypted Payload + 16-byte MAC Tag] + [4-byte Nonce BE]`
///
/// # Errors
///
/// Fails if the payload is longer than AES-GCM takes.
pub fn transport_encrypt_rtpsize(
    key: &[u8],
    rtp_header: &[u8; 12],
    payload: &[u8],
    nonce_counter: u32,
) -> (r: Result<Vec<u8>, TransportError>)
    requires
        key@.len() == TRANSPORT_KEY_LENGTH,
    ensures
        if payload@.len() <= GCM_MAX_LENGTH {
            r matches Ok(packet) && packet@ == transport_packet(
                key@,
                rtp_header@,
                payload@,
                nonce_counter,
            )
        } else {
            r is Err
        },
{
    let suffix: [u8; 4] = [
        (nonce_counter / 0x100_0000) as u8,
        (nonce_counter / 0x1_0000 % 0x100) as u8,
        (nonce_counter / 0x100 % 0x100) as u8,
        (nonce_counter % 0x100) as u8,
    ];
    assert(suffix@ =~= be_u32(nonce_counter));
    let nonce: [u8; 12] = [
        0,
        0,
        0,
        0,
        0,
        0,
        0,
        0,
        suffix[0],
        suffix[1],
        suffix[2],
        suffix[3],
    ];
    assert(nonce@ =~= transport_nonce(suffix@));
    let sealed = match aes256_gcm_encrypt(key, &nonce, payload, rtp_header.as_slice()) {
        Ok(sealed) => sealed,
        Err(_) => return Err(TransportError),
    };
    let mut out: Vec<u8> = Vec::new();
    out.extend_from_slice(rtp_header.as_slice());
    out.extend_from_slice(sealed.as_slice());
    out.extend_from_slice(suffix.as_slice());
    proof {
        let ciphertext = transport_keystream_over(key@, nonce@, payload@);
        assert(sealed@.take(payload@.len() as int) =~= ciphertext);
        assert(sealed@ =~= ciphertext + sealed@.skip(payload@.len() as int));
        assert(out@ =~= transport_packet(key@, rtp_header@, payload@, nonce_counter));
    }
    Ok(out)
}

/// Decrypts an RTP block using `aead_aes256_gcm_rtpsize` mode.
///
/// Expects: `[12-byte RTP Header] + [Encrypted Payload + 16-byte MAC Tag] + [4-byte Nonce BE]`
///
/// # Errors
///
/// Fails if the packet is too short or its tag is wrong.
pub fn transport_decrypt_rtpsize(key: &[u8], packet: &[u8]) -> (r: Result<
    Vec<u8>,
    TransportError,
>)
    requires
        key@.len() == TRANSPORT_KEY_LENGTH,
    ensures
        match transport_payload(key@, packet@) {
            Some(payload) => r matches Ok(found) && found@ == payload,
            None => r is Err,
        },
{
    let len: usize = packet.len();
    if len < 32 {
        return Err(TransportError);
    }
    let header = &packet[0..12];
    let sealed = &packet[12..len - 4];
    let nonce: [u8; 12] = [
        0,
        0,
        0,
        0,
        0,
        0,
        0,
        0,
        packet[len - 4],
        packet[len - 3],
        packet[len - 2],
        packet[len - 1],
    ];
    proof {
        assert(header@ =~= packet@.take(12));
        assert(nonce@ =~= transport_nonce(packet@.skip(len - 4)));
    }
    match aes256_gcm_decrypt(key, &nonce, sealed, header) {
        Ok(payload) => Ok(payload),
        Err(_) => Err(TransportError),
    }
}

/// Four big-endian bytes, weighted by their places, give the number back.
pub proof fn be_u32_is_positional(n: u32)
    ensures
        be_u32(n).len() == 4,
        16777216 * be_u32(n)[0] + 65536 * be_u32(n)[1] + 256 * be_u32(n)[2] + be_u32(n)[3] == n,
{
}

/// Only those four bytes do.
proof fn lemma_be_u32_is_unique(bytes: Seq<u8>, n: u32)
    requires
        bytes.len() == 4,
        16777216 * bytes[0] + 65536 * bytes[1] + 256 * bytes[2] + bytes[3] == n,
    ensures
        bytes == be_u32(n),
{
    assert(n % 256 == bytes[3]);
    assert(n / 256 == 65536 * bytes[0] + 256 * bytes[1] + bytes[2]);
    assert(n / 256 % 256 == bytes[2]);
    assert(n / 65536 == 256 * bytes[0] + bytes[1]);
    assert(n / 65536 % 256 == bytes[1]);
    assert(n / 16777216 == bytes[0]);
    assert(bytes =~= be_u32(n));
}

/// An RTP header says version 2 and payload type 120, and spells sequence number,
/// timestamp and SSRC in this order, the most significant byte first.
pub proof fn rtp_header_fields(seq: u16, timestamp: u32, ssrc: u32, header: [u8; 12])
    requires
        call_ensures(build_rtp_header, (seq, timestamp, ssrc), header),
    ensures
        header@[0] == 128,
        header@[1] == 120,
        256 * header@[2] + header@[3] == seq,
        16777216 * header@[4] + 65536 * header@[5] + 256 * header@[6] + header@[7] == timestamp,
        16777216 * header@[8] + 65536 * header@[9] + 256 * header@[10] + header@[11] == ssrc,
{
    lemma_header_parts(seq, timestamp, ssrc);
}

pub proof fn lemma_header_parts(seq: u16, timestamp: u32, ssrc: u32)
    ensures
        rtp_header(seq, timestamp, ssrc).len() == 12,
        rtp_header(seq, timestamp, ssrc)[0] == 128,
        rtp_header(seq, timestamp, ssrc)[1] == 120,
        256 * rtp_header(seq, timestamp, ssrc)[2] + rtp_header(seq, timestamp, ssrc)[3] == seq,
        ({
            let h = rtp_header(seq, timestamp, ssrc);
            16777216 * h[4] + 65536 * h[5] + 256 * h[6] + h[7] == timestamp
        }),
        ({
            let h = rtp_header(seq, timestamp, ssrc);
            16777216 * h[8] + 65536 * h[9] + 256 * h[10] + h[11] == ssrc
        }),
{
    let h = rtp_header(seq, timestamp, ssrc);
    be_u32_is_positional(timestamp);
    be_u32_is_positional(ssrc);
    assert(h.subrange(2, 4) =~= be_u16(seq));
    assert(h.subrange(4, 8) =~= be_u32(timestamp));
    assert(h.subrange(8, 12) =~= be_u32(ssrc));
    assert(h[2] == h.subrange(2, 4)[0] && h[3] == h.subrange(2, 4)[1]);
    assert(forall|i: int| 4 <= i < 8 ==> #[trigger] h[i] == h.subrange(4, 8)[i - 4]);
    assert(forall|i: int| 8 <= i < 12 ==> #[trigger] h[i] == h.subrange(8, 12)[i - 8]);
}

/// A discovery request has 74 bytes: type 1 and length 70 in two big-endian bytes
/// each, the SSRC in four, and zeros.
pub proof fn discovery_request_fields(ssrc: u32, packet: Vec<u8>, i: int)
    requires
        call_ensures(build_ip_discovery, (ssrc,), packet),
        8 <= i < 74,
    ensures
        packet@.len() == 74,
        256 * packet@[0] + packet@[1] == 1,
        256 * packet@[2] + packet@[3] == 70,
        16777216 * packet@[4] + 65536 * packet@[5] + 256 * packet@[6] + packet@[7] == ssrc,
        packet@[i] == 0,
{
    be_u32_is_positional(ssrc);
    assert(packet@.subrange(4, 8) =~= be_u32(ssrc));
    assert(forall|i: int| 4 <= i < 8 ==> #[trigger] packet@[i] == packet@.subrange(4, 8)[i - 4]);
}

/// The address in a discovery response is what stands from byte 8 up to the first
/// zero byte, and up to the port if there is none; the port stands in the last two
/// bytes, the more significant first.
pub proof fn discovery_response_fields(response: &[u8; 74], fields: (Vec<u8>, u16), n: int)
    requires
        call_ensures(discovery_fields, (response,), fields),
        0 <= n <= 64,
        forall|i: int| 8 <= i < 8 + n ==> #[trigger] response@[i] != 0,
        n == 64 || response@[8 + n] == 0,
    ensures
        fields.0@.len() == n,
        forall|i: int| 0 <= i < n ==> #[trigger] fields.0@[i] == response@[8 + i],
        fields.1 == 256 * response@[72] + response@[73],
{
    lemma_address_end(response@, 8, 8 + n);
}

/// The text that is found in a discovery response is that of the address bytes,
/// and the port is theirs too.
pub proof fn discovery_response_text(
    response: &[u8; 74],
    fields: (Vec<u8>, u16),
    found: (String, u16),
)
    requires
        call_ensures(discovery_fields, (response,), fields),
        call_ensures(parse_ip_discovery, (response,), found),
    ensures
        found.0@ == lossy_utf8(fields.0@),
        valid_utf8(fields.0@) ==> found.0@ == decode_utf8(fields.0@),
        found.1 == 256 * response@[72] + response@[73],
{
}

proof fn lemma_address_end(response: Seq<u8>, from: int, end: int)
    requires
        from <= end <= 72,
        forall|i: int| from <= i < end ==> #[trigger] response[i] != 0,
        end == 72 || response[end] == 0,
    ensures
        address_end(response, from) == end,
    decreases end - from,
{
    if from < end {
        assert(response[from] != 0);
        lemma_address_end(response, from + 1, end);
    }
}

/// A transport packet is the header as it is, one byte of ciphertext for each byte
/// of the payload, the 16-byte tag, and the nonce counter in four big-endian bytes.
/// The nonce is eight zero bytes and those four; the header is authenticated.
pub proof fn transport_packet_layout(
    key: &[u8],
    header: &[u8; 12],
    payload: &[u8],
    nonce_counter: u32,
    packet: Vec<u8>,
    nonce: Seq<u8>,
    i: int,
)
    requires
        call_ensures(
            transport_encrypt_rtpsize,
            (key, header, payload, nonce_counter),
            Ok::<Vec<u8>, TransportError>(packet),
        ),
        nonce.len() == 12,
        forall|j: int| 0 <= j < 8 ==> #[trigger] nonce[j] == 0,
        16777216 * nonce[8] + 65536 * nonce[9] + 256 * nonce[10] + nonce[11] == nonce_counter,
    ensures
        packet@.len() == 12 + payload@.len() + 16 + 4,
        packet@.take(12) == header@,
        0 <= i < payload@.len() ==> packet@[12 + i] == payload@[i] ^ aes256_gcm_keystream(
            key@,
            nonce,
            i as nat,
        ),
        packet@.subrange(packet@.len() - 20, packet@.len() - 4) == aes256_gcm_tag(
            key@,
            nonce,
            header@,
            packet@.subrange(12, packet@.len() - 20),
        )@,
        packet@.skip(packet@.len() - 4) == nonce.skip(8),
{
    let suffix = be_u32(nonce_counter);
    lemma_be_u32_is_unique(nonce.skip(8), nonce_counter);
    assert(nonce =~= transport_nonce(suffix));
    let ciphertext = transport_keystream_over(key@, nonce, payload@);
    assert(packet@.take(12) =~= header@);
    assert(packet@.subrange(12, packet@.len() - 20) =~= ciphertext);
    assert(0 <= i < payload@.len() ==> packet@[12 + i] == packet@.subrange(
        12,
        packet@.len() - 20,
    )[i]);
    assert(packet@.subrange(packet@.len() - 20, packet@.len() - 4) =~= aes256_gcm_tag(
        key@,
        nonce,
        header@,
        ciphertext,
    )@);
    assert(packet@.skip(packet@.len() - 4) =~= suffix);
}

/// A payload is encrypted for transport exactly if it has no more than 2^36 bytes.
pub proof fn transport_takes_payloads(
    key: &[u8],
    header: &[u8; 12],
    payload: &[u8],
    nonce_counter: u32,
    r: Result<Vec<u8>, TransportError>,
)
    requires
        call_ensures(transport_encrypt_rtpsize, (key, header, payload, nonce_counter), r),
    ensures
        r is Ok <==> payload@.len() <= 68719476736,
{
}

/// What was encrypted for transport is decrypted under the same key to the payload
/// that it was.
pub proof fn transport_gives_payload_back(
    key: &[u8],
    header: &[u8; 12],
    payload: &[u8],
    nonce_counter: u32,
    packet: Vec<u8>,
    sent: &[u8],
    r: Result<Vec<u8>, TransportError>,
)
    requires
        call_ensures(
            transport_encrypt_rtpsize,
            (key, header, payload, nonce_counter),
            Ok::<Vec<u8>, TransportError>(packet),
        ),
        sent@ == packet@,
        call_ensures(transport_decrypt_rtpsize, (key, sent), r),
    ensures
        r matches Ok(found) && found@ == payload@,
{
    transport_round_trip(key@, header@, payload@, nonce_counter);
}

/// Whatever is decrypted had at least 32 bytes, and its tag was right for its
/// header, its ciphertext and the nonce at its end.
pub proof fn only_authentic_packets_are_opened(
    key: &[u8],
    packet: &[u8],
    payload: Vec<u8>,
    nonce: Seq<u8>,
)
    requires
        call_ensures(
            transport_decrypt_rtpsize,
            (key, packet),
            Ok::<Vec<u8>, TransportError>(payload),
        ),
        nonce.len() == 12,
        forall|j: int| 0 <= j < 8 ==> #[trigger] nonce[j] == 0,
        nonce.skip(8) == packet@.skip(packet@.len() - 4),
    ensures
        packet@.len() >= 32,
        packet@.subrange(packet@.len() - 20, packet@.len() - 4) == aes256_gcm_tag(
            key@,
            nonce,
            packet@.take(12),
            packet@.subrange(12, packet@.len() - 20),
        )@,
        payload@.len() == packet@.len() - 32,
{
    let len = packet@.len();
    assert(nonce =~= transport_nonce(nonce.skip(8)));
    let sealed = packet@.subrange(12, len - 4);
    assert(sealed.take(sealed.len() - 16) =~= packet@.subrange(12, len - 20));
    assert(sealed.skip(sealed.len() - 16) =~= packet@.subrange(len - 20, len - 4));
}

} // verus!

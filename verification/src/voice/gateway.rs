//! The voice gateway handshake: its messages, and what is expected when.

use vstd::prelude::*;
use vstd::string::*;
use crate::text::{
    chars_of, counted_text, decimal, has_suffix, lemma_numeral_is_parsed, numbered_text, parse_u64,
    parsed_u64, text_of,
};
use crate::voice::udp::TRANSPORT_KEY_LENGTH;

verus! {

/// OP 0: who wants to connect.
#[derive(Debug, Clone)]
pub struct Identify {
    pub server_id: String,
    pub user_id: String,
    pub session_id: String,
    pub token: String,
    pub max_dave_protocol_version: Option<u8>,
}

/// OP 1: how audio will be sent.
#[derive(Debug, Clone)]
pub struct SelectProtocol {
    pub protocol: String,
    pub data: ProtocolData,
}

/// Our public address and the encryption mode.
#[derive(Debug, Clone)]
pub struct ProtocolData {
    pub address: String,
    pub port: u16,
    pub mode: String,
}

/// OP 2: where to send audio.
#[derive(Debug, Clone)]
pub struct Ready {
    pub ssrc: u32,
    pub ip: String,
    pub port: u16,
    pub modes: Vec<String>,
}

/// OP 4: the encryption mode and the transport key.
#[derive(Debug, Clone)]
pub struct SessionDescription {
    pub mode: String,
    pub secret_key: Vec<u8>,
}

/// OP 5: who is speaking.
#[derive(Debug, Clone)]
pub struct Speaking {
    pub speaking: u8,
    pub delay: u32,
    pub ssrc: u32,
    pub user_id: Option<String>,
}

/// `s` without `:80` at its end, however often it stands there.
pub open spec fn without_port_80(s: Seq<char>) -> Seq<char>
    decreases s.len(),
{
    if s.len() >= 3 && ":80"@.is_suffix_of(s) {
        without_port_80(s.take(s.len() - 3))
    } else {
        s
    }
}

/// The WebSocket URL (v8) of a voice endpoint.
pub fn gateway_url(endpoint: &str) -> (url: String)
    ensures
        url@ == "wss://"@ + without_port_80(endpoint@) + "/?v=8"@,
{
    let mut host: String = text_of(chars_of(endpoint).as_slice());
    proof {
        reveal_strlit(":80");
    }
    while has_suffix(host.as_str(), ":80")
        invariant
            without_port_80(endpoint@) == without_port_80(host@),
            ":80"@.len() == 3,
        decreases host@.len(),
    {
        let chars = chars_of(host.as_str());
        host = text_of(&chars.as_slice()[0..chars.len() - 3]);
        assert(host@ =~= chars@.take(chars@.len() - 3));
    }
    let mut url: String = "wss://".to_owned();
    url.append(host.as_str());
    url.append("/?v=8");
    url
}

/// A packet that the handshake waits for.
#[derive(Debug, Clone, Copy, PartialEq, Eq, Structural)]
pub enum HandshakeStep {
    /// OP 8, before we identify.
    Hello,
    /// OP 2, after we identified.
    Ready,
}

/// The opcode of the packet that a step waits for.
pub open spec fn awaited_opcode(step: HandshakeStep) -> u8 {
    match step {
        HandshakeStep::Hello => 8,
        HandshakeStep::Ready => 2,
    }
}

/// What is wrong with the packet that came in a step: nothing if it has the
/// awaited opcode. `None` stands for a connection that closed.
pub open spec fn handshake_fault(step: HandshakeStep, op: Option<u8>) -> Option<Seq<char>> {
    match op {
        None => Some(
            match step {
                HandshakeStep::Hello => "Connection closed before Hello"@,
                HandshakeStep::Ready => "Connection closed before Ready"@,
            },
        ),
        Some(op) => if op == awaited_opcode(step) {
            None
        } else {
            Some(
                match step {
                    HandshakeStep::Hello => "Expected Hello (8), got "@ + decimal(op as nat),
                    HandshakeStep::Ready => "Expected Ready (2), got "@ + decimal(op as nat),
                },
            )
        },
    }
}

/// Hold the opcode of the packet that came against what the step waits for.
///
/// # Errors
///
/// Returns what is wrong with it.
pub fn check_handshake(step: HandshakeStep, op: Option<u8>) -> (r: Result<(), String>)
    ensures
        match handshake_fault(step, op) {
            Some(fault) => r matches Err(text) && text@ == fault,
            None => r is Ok,
        },
{
    match op {
        None => match step {
            HandshakeStep::Hello => Err("Connection closed before Hello".to_owned()),
            HandshakeStep::Ready => Err("Connection closed before Ready".to_owned()),
        },
        Some(op) => match step {
            HandshakeStep::Hello => if op == 8 {
                Ok(())
            } else {
                Err(numbered_text("Expected Hello (8), got ", op as u64))
            },
            HandshakeStep::Ready => if op == 2 {
                Ok(())
            } else {
                Err(numbered_text("Expected Ready (2), got ", op as u64))
            },
        },
    }
}

/// The Identify message: we support version 1 of the DAVE protocol.
pub fn identify(server_id: String, user_id: String, session_id: String, token: String) -> (message:
    Identify)
    ensures
        message == (Identify {
            server_id,
            user_id,
            session_id,
            token,
            max_dave_protocol_version: Some(1),
        }),
{
    Identify { server_id, user_id, session_id, token, max_dave_protocol_version: Some(1) }
}

/// The Select Protocol message for our public address.
pub fn select_protocol(address: String, port: u16) -> (message: SelectProtocol)
    ensures
        message.protocol@ == "udp"@,
        message.data.address == address,
        message.data.port == port,
        message.data.mode@ == "aead_aes256_gcm_rtpsize"@,
{
    SelectProtocol {
        protocol: "udp".to_owned(),
        data: ProtocolData { address, port, mode: "aead_aes256_gcm_rtpsize".to_owned() },
    }
}

/// The address that audio is sent to.
pub fn socket_address(ip: &str, port: u16) -> (address: String)
    ensures
        address@ == ip@ + ":"@ + decimal(port as nat),
{
    let mut address: String = text_of(chars_of(ip).as_slice());
    let tail = numbered_text(":", port as u64);
    address.append(tail.as_str());
    assert(address@ =~= ip@ + ":"@ + decimal(port as nat));
    address
}

/// Read our user ID.
///
/// # Errors
///
/// Returns the text `Invalid user_id: ` followed by what is no number.
pub fn parse_user_id(user_id: &str) -> (r: Result<u64, String>)
    ensures
        match parsed_u64(user_id@) {
            Some(id) => r == Ok::<u64, String>(id),
            None => r matches Err(text) && text@ == "Invalid user_id: "@ + user_id@,
        },
{
    match parse_u64(user_id) {
        Some(id) => Ok(id),
        None => {
            let mut text: String = "Invalid user_id: ".to_owned();
            text.append(user_id);
            Err(text)
        },
    }
}

/// Hold the transport key against the length that the encryption mode needs.
///
/// # Errors
///
/// Returns what is wrong with it.
pub fn check_secret_key(secret_key: &[u8]) -> (r: Result<(), String>)
    ensures
        if secret_key@.len() == TRANSPORT_KEY_LENGTH {
            r is Ok
        } else {
            r matches Err(text) && text@ == "Wrong secret_key length: "@ + decimal(
                secret_key@.len(),
            ) + " (expected 32 for aead_aes256_gcm_rtpsize)"@
        },
{
    if secret_key.len() == TRANSPORT_KEY_LENGTH {
        Ok(())
    } else {
        Err(
            counted_text(
                "Wrong secret_key length: ",
                secret_key.len() as u64,
                " (expected 32 for aead_aes256_gcm_rtpsize)",
            ),
        )
    }
}

/// The URL of an endpoint is that of its host, with `wss://` in front and `/?v=8`
/// behind. A port 80 at the end of an endpoint changes nothing, and any other end
/// stays.
pub proof fn port_80_is_dropped(
    endpoint: &str,
    url: String,
    with_port: &str,
    url_with_port: String,
)
    requires
        call_ensures(gateway_url, (endpoint,), url),
        with_port@ == endpoint@ + seq![':', '8', '0'],
        call_ensures(gateway_url, (with_port,), url_with_port),
    ensures
        url_with_port@ == url@,
        !(endpoint@.len() >= 3 && endpoint@.skip(endpoint@.len() - 3) == seq![':', '8', '0'])
            ==> url@ == "wss://"@ + endpoint@ + "/?v=8"@,
{
    reveal_strlit(":80");
    let port = seq![':', '8', '0'];
    assert(":80"@ =~= port);
    assert(with_port@.take(with_port@.len() - 3) =~= endpoint@);
    assert(with_port@.subrange(with_port@.len() - 3, with_port@.len() as int) =~= port);
    assert(":80"@.is_suffix_of(with_port@));
    if endpoint@.len() >= 3 {
        assert(endpoint@.skip(endpoint@.len() - 3) =~= endpoint@.subrange(
            endpoint@.len() - 3,
            endpoint@.len() as int,
        ));
    }
}

/// The handshake goes on exactly if the first packet has opcode 8 and the one
/// behind our Identify has opcode 2.
pub proof fn handshake_awaits_8_then_2(
    op: Option<u8>,
    hello: Result<(), String>,
    ready: Result<(), String>,
)
    requires
        call_ensures(check_handshake, (HandshakeStep::Hello, op), hello),
        call_ensures(check_handshake, (HandshakeStep::Ready, op), ready),
    ensures
        hello is Ok <==> op == Some(8u8),
        ready is Ok <==> op == Some(2u8),
        op is None ==> hello->Err_0@ == "Connection closed before Hello"@ && ready->Err_0@
            == "Connection closed before Ready"@,
        op matches Some(n) ==> (n != 8 ==> hello->Err_0@ == "Expected Hello (8), got "@ + decimal(
            n as nat,
        )) && (n != 2 ==> ready->Err_0@ == "Expected Ready (2), got "@ + decimal(n as nat)),
{
}

/// We identify with what we were given and with version 1 of the DAVE protocol,
/// and select UDP, the transport mode `aead_aes256_gcm_rtpsize` and the address
/// that was found for us.
pub proof fn handshake_messages(
    server_id: String,
    user_id: String,
    session_id: String,
    token: String,
    identified: Identify,
    address: String,
    port: u16,
    selected: SelectProtocol,
)
    requires
        call_ensures(identify, (server_id, user_id, session_id, token), identified),
        call_ensures(select_protocol, (address, port), selected),
    ensures
        identified.server_id@ == server_id@,
        identified.user_id@ == user_id@,
        identified.session_id@ == session_id@,
        identified.token@ == token@,
        identified.max_dave_protocol_version == Some(1u8),
        selected.protocol@ == "udp"@,
        selected.data.address@ == address@,
        selected.data.port == port,
        selected.data.mode@ == "aead_aes256_gcm_rtpsize"@,
{
}

/// A socket address is the IP, a colon and the port in decimal; a user ID in
/// decimal is read as the user ID; and a transport key is right exactly if it has
/// 32 bytes.
pub proof fn addresses_ids_and_keys(
    ip: &str,
    port: u16,
    address: String,
    text: &str,
    user_id: u64,
    id: Result<u64, String>,
    secret_key: &[u8],
    checked: Result<(), String>,
)
    requires
        call_ensures(socket_address, (ip, port), address),
        call_ensures(parse_user_id, (text,), id),
        call_ensures(check_secret_key, (secret_key,), checked),
    ensures
        address@ == ip@ + seq![':'] + decimal(port as nat),
        text@ == decimal(user_id as nat) ==> id == Ok::<u64, String>(user_id),
        text@.len() == 0 ==> id is Err,
        checked is Ok <==> secret_key@.len() == 32,
{
    reveal_strlit(":");
    assert(":"@ =~= seq![':']);
    lemma_numeral_is_parsed(user_id);
}

} // verus!

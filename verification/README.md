# sigil

Discord's DAVE end-to-end encryption for voice and video, and the voice
connection built on it, as a Verus library: what each function does is stated in
its contract and proved.

- `src/` is the library. Start at `SigilSession` (`src/session.rs`).
  - `crypto/` — ULEB128 numbers, clear ranges per codec, AES-128-GCM frames, the
    key ratchet
  - `frame/` — the frame encryptor and decryptor, and the footer
  - `gateway/` — DAVE opcodes 21–31, their payloads, the session state machine
  - `mls/` — the MLS group, credentials, key packages and the framing of messages;
    `mls/backend.rs` holds every call into OpenMLS
  - `voice/` — the WebSocket loop, RTP transport, mixing, receiving, reconnecting,
    and the choice of what to play
- `tests/` runs the library with the real crates behind it.
- `app/` is the client around it: sockets, tasks, child processes, Opus, JSON and
  the Serenity hook. It decides nothing that the library could.

## What is taken on trust

Functions marked `#[verifier::external_body]`, and `assume_specification` items,
call AES-GCM, HKDF, OpenMLS or the standard library. The comment above each says
which function it calls and what is claimed of it. What such a call computes is
named (`aes128_gcm_tag`, `hkdf_sha256`, `group_contents`, ...), and the contracts
speak of those names.

OpenMLS is handed bytes only if they are framed as an MLS message is
(`src/mls/framing.rs`), because its reader panics on some others. What OpenMLS
decrypts, and a provider that is not the group's, it holds against debug
assertions of its own: there the claims are on a build without them.

## What is proved beyond the contracts

Public `proof fn`s state what holds of several functions together, among them:

- a frame that was encrypted is decrypted to what it was
  (`frame::decryptor::encrypt_then_decrypt`), and audio that a mixer sends reaches
  the receiver (`voice::receiver::audio_reaches_receiver`)
- the bytes that a codec needs stay in the clear
  (`frame::encryptor::clear_bytes_stay`)
- the nonce counter of an epoch gives no nonce twice, as long as it is not set back
  (`gateway::session::nonces_do_not_repeat`)
- each H.264 unit has its range, and the payload of a coded slice is not in it
  (`crypto::codec::h264_range_of_unit`)
- an erased key stays erased (`crypto::key_ratchet::unavailable_stays_unavailable`)
- audio ends with five silence frames, whenever it stops
  (`voice::mixer::five_silence_frames`)

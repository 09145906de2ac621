//! Packets under encryption: nonces, sealing and opening.

use vstd::prelude::*;
use vstd::slice::slice_subrange;
use crate::packet;
use crate::primitives;
use crate::primitives::random_bytes;
use crate::wire;

verus! {

/// Why an encrypted packet was refused.
#[derive(Debug, Clone, Copy, PartialEq, Eq, Structural)]
pub enum DecryptError {
    /// The tag does not belong to the packet.
    BadTag,
    /// The decrypted content is too short for the padding that it announces.
    BadPadding,
}

/// What opening a packet brought: the bytes of the payload, or the refusal.
pub open spec fn result_view(result: Result<Vec<u8>, DecryptError>) -> Result<
    Seq<u8>,
    DecryptError,
> {
    match result {
        Ok(payload) => Ok(payload@),
        Err(e) => Err(e),
    }
}

/// The nonce of the packet with sequence number `seq`: four bytes of the initial
/// vector, then the number in eight bytes.
pub open spec fn packet_nonce(iv: Seq<u8>, seq: u32) -> Seq<u8> {
    iv.take(4) + wire::be64(seq as u64)
}

/// The nonce of ChaCha20, which has no initial vector.
pub open spec fn chacha20_nonce(seq: u32) -> Seq<u8> {
    packet_nonce(seq![0u8, 0u8, 0u8, 0u8], seq)
}

/// `data` under the ChaCha20 keystream from position `from` on.
pub open spec fn chacha20_xor(key: Seq<u8>, nonce: Seq<u8>, from: int, data: Seq<u8>) -> Seq<u8> {
    Seq::new(data.len(), |i: int| data[i] ^ primitives::chacha20_keystream(key, nonce, from + i))
}

/// The one-time Poly1305 key of a packet: the first 32 bytes of its keystream.
pub open spec fn chacha20_tag_key(key: Seq<u8>, nonce: Seq<u8>) -> Seq<u8> {
    Seq::new(32, |i: int| primitives::chacha20_keystream(key, nonce, i))
}

/// The payload inside a decrypted packet body, or `None` if the body is too
/// short for the padding that its first byte announces.
pub open spec fn unpadded(body: Seq<u8>) -> Option<Seq<u8>> {
    if body.len() >= 1 && 1 + body[0] <= body.len() {
        Some(body.subrange(1, body.len() - body[0]))
    } else {
        None
    }
}

/// The payload of a body, or the refusal of a bad one.
pub open spec fn payload_of(body: Seq<u8>) -> Result<Seq<u8>, DecryptError> {
    match unpadded(body) {
        Some(payload) => Ok(payload),
        None => Err(DecryptError::BadPadding),
    }
}

/// The amount of padding in an encrypted packet; its length field stands outside
/// the blocks.
pub open spec fn sealed_padding(block: int, payload_len: nat) -> int {
    packet::padding_for(block, 1 + payload_len as int)
}

/// An encrypted packet of `chacha20-poly1305@openssh.com`: the length field under
/// the header key, the body under the main key, and a tag over both.
pub open spec fn chacha20_packet(
    main_key: Seq<u8>,
    header_key: Seq<u8>,
    seq: u32,
    payload: Seq<u8>,
    padding: Seq<u8>,
) -> Seq<u8> {
    let nonce = chacha20_nonce(seq);
    let body = packet::packet_body(payload, padding);
    let header = chacha20_xor(header_key, nonce, 0, packet::packet_header(body));
    let sealed = header + chacha20_xor(main_key, nonce, 64, body);
    sealed + primitives::poly1305_tag(chacha20_tag_key(main_key, nonce), sealed)
}

/// Whether `packet` is such a packet with this payload, for some padding.
pub open spec fn is_chacha20_packet(
    main_key: Seq<u8>,
    header_key: Seq<u8>,
    seq: u32,
    payload: Seq<u8>,
    packet: Seq<u8>,
) -> bool {
    exists|padding: Seq<u8>|
        padding.len() == sealed_padding(8, payload.len()) && packet == #[trigger] chacha20_packet(
            main_key,
            header_key,
            seq,
            payload,
            padding,
        )
}

/// What a ChaCha20-Poly1305 packet holds, given its four header bytes and the
/// rest, the last 16 bytes of which are the tag.
pub open spec fn chacha20_opened(
    main_key: Seq<u8>,
    seq: u32,
    header: Seq<u8>,
    rest: Seq<u8>,
) -> Result<Seq<u8>, DecryptError> {
    let nonce = chacha20_nonce(seq);
    let sealed = rest.take(rest.len() - 16);
    let tag = rest.skip(rest.len() - 16);
    if tag != primitives::poly1305_tag(chacha20_tag_key(main_key, nonce), header.take(4) + sealed) {
        Err(DecryptError::BadTag)
    } else {
        payload_of(chacha20_xor(main_key, nonce, 64, sealed))
    }
}

/// The packet length that a ChaCha20-Poly1305 header holds.
pub open spec fn chacha20_length(header_key: Seq<u8>, seq: u32, header: Seq<u8>) -> u32 {
    wire::from_be32(chacha20_xor(header_key, chacha20_nonce(seq), 0, header.take(4)))
}

/// The refusal or the payload that follows from what AES-GCM opened.
pub open spec fn gcm_payload(opened: Option<Seq<u8>>) -> Result<Seq<u8>, DecryptError> {
    match opened {
        None => Err(DecryptError::BadTag),
        Some(body) => payload_of(body),
    }
}

/// An encrypted packet of `aes128-gcm@openssh.com`: the length field in clear,
/// and the body sealed together with it.
pub open spec fn aes128_packet(
    key: Seq<u8>,
    iv: Seq<u8>,
    seq: u32,
    payload: Seq<u8>,
    padding: Seq<u8>,
) -> Seq<u8> {
    let body = packet::packet_body(payload, padding);
    let header = packet::packet_header(body);
    header + primitives::aes128_gcm_sealed(key, packet_nonce(iv, seq), header, body)
}

/// Whether `packet` is such a packet with this payload, for some padding.
pub open spec fn is_aes128_packet(
    key: Seq<u8>,
    iv: Seq<u8>,
    seq: u32,
    payload: Seq<u8>,
    packet: Seq<u8>,
) -> bool {
    exists|padding: Seq<u8>|
        padding.len() == sealed_padding(16, payload.len()) && packet == #[trigger] aes128_packet(
            key,
            iv,
            seq,
            payload,
            padding,
        )
}

/// What an AES-128-GCM packet holds.
pub open spec fn aes128_opened(
    key: Seq<u8>,
    iv: Seq<u8>,
    seq: u32,
    header: Seq<u8>,
    rest: Seq<u8>,
) -> Result<Seq<u8>, DecryptError> {
    gcm_payload(primitives::aes128_gcm_opened(key, packet_nonce(iv, seq), header, rest))
}

/// An encrypted packet of `aes256-gcm@openssh.com`: the length field in clear,
/// and the body sealed together with it.
pub open spec fn aes256_packet(
    key: Seq<u8>,
    iv: Seq<u8>,
    seq: u32,
    payload: Seq<u8>,
    padding: Seq<u8>,
) -> Seq<u8> {
    let body = packet::packet_body(payload, padding);
    let header = packet::packet_header(body);
    header + primitives::aes256_gcm_sealed(key, packet_nonce(iv, seq), header, body)
}

/// Whether `packet` is such a packet with this payload, for some padding.
pub open spec fn is_aes256_packet(
    key: Seq<u8>,
    iv: Seq<u8>,
    seq: u32,
    payload: Seq<u8>,
    packet: Seq<u8>,
) -> bool {
    exists|padding: Seq<u8>|
        padding.len() == sealed_padding(16, payload.len()) && packet == #[trigger] aes256_packet(
            key,
            iv,
            seq,
            payload,
            padding,
        )
}

/// What an AES-256-GCM packet holds.
pub open spec fn aes256_opened(
    key: Seq<u8>,
    iv: Seq<u8>,
    seq: u32,
    header: Seq<u8>,
    rest: Seq<u8>,
) -> Result<Seq<u8>, DecryptError> {
    gcm_payload(primitives::aes256_gcm_opened(key, packet_nonce(iv, seq), header, rest))
}

/// Computes [`packet_nonce`].
pub fn make_nonce(iv: &[u8; 12], seq: u32) -> (nonce: [u8; 12])
    ensures
        nonce@ == packet_nonce(iv@, seq),
{
    let counter: [u8; 8] = wire::u64_to_be_bytes(seq as u64);
    let nonce: [u8; 12] = [
        iv[0],
        iv[1],
        iv[2],
        iv[3],
        counter[0],
        counter[1],
        counter[2],
        counter[3],
        counter[4],
        counter[5],
        counter[6],
        counter[7],
    ];
    assert(nonce@ =~= packet_nonce(iv@, seq));
    nonce
}

/// Computes [`chacha20_nonce`].
fn make_chacha20_nonce(seq: u32) -> (nonce: [u8; 12])
    ensures
        nonce@ == chacha20_nonce(seq),
{
    let zeros: [u8; 12] = [0u8; 12];
    let nonce: [u8; 12] = make_nonce(&zeros, seq);
    assert(zeros@.take(4) =~= seq![0u8, 0u8, 0u8, 0u8].take(4));
    nonce
}

/// One ChaCha20 keystream serves a whole packet: its first block gives the tag
/// key, the blocks behind it cover the data.
fn chacha20_run(key: &[u8; 32], nonce: &[u8; 12], data: &[u8]) -> (out: ([u8; 32], Vec<u8>))
    requires
        64 + data@.len() <= primitives::CHACHA20_MAX,
    ensures
        out.0@ == chacha20_tag_key(key@, nonce@),
        out.1@ == chacha20_xor(key@, nonce@, 64, data@),
{
    let mut buffer: Vec<u8> = vec![0u8; 64];
    wire::push_bytes(&mut buffer, data);
    let ghost before = buffer@;
    primitives::chacha20_apply(key, nonce, &mut buffer);
    let tag_key: [u8; 32] = wire::array_at(&buffer, 0);
    proof {
        assert forall|i: int| 0 <= i < 32 implies tag_key@[i] == chacha20_tag_key(
            key@,
            nonce@,
        )[i] by {
            let k = primitives::chacha20_keystream(key@, nonce@, i);
            assert(before[i] == 0u8);
            assert(0u8 ^ k == k) by (bit_vector);
        }
        assert(tag_key@ =~= chacha20_tag_key(key@, nonce@));
    }
    let mut covered: Vec<u8> = buffer.split_off(64);
    assert(covered@ =~= chacha20_xor(key@, nonce@, 64, data@));
    (tag_key, covered)
}

/// Whether ChaCha20 can cover a packet with a payload of this length.
pub open spec fn chacha20_fits(payload_len: nat) -> bool {
    64 + 1 + payload_len + sealed_padding(8, payload_len) <= primitives::CHACHA20_MAX
}

/// Whether AES-GCM can seal a packet with a payload of this length.
pub open spec fn aes_gcm_fits(payload_len: nat) -> bool {
    1 + payload_len + sealed_padding(16, payload_len) <= primitives::AES_GCM_MAX
}

/// A body put together from payload and padding holds that payload.
pub proof fn law_unpadding_gives_back_payload(payload: Seq<u8>, padding: Seq<u8>)
    requires
        padding.len() < 0x100,
    ensures
        unpadded(packet::packet_body(payload, padding)) == Some(payload),
{
    let body = packet::packet_body(payload, padding);
    assert(body.subrange(1, body.len() - padding.len()) =~= payload);
}

/// Applying the keystream twice gives the data back.
pub proof fn law_keystream_twice_is_nothing(key: Seq<u8>, nonce: Seq<u8>, from: int, data: Seq<u8>)
    ensures
        chacha20_xor(key, nonce, from, chacha20_xor(key, nonce, from, data)) == data,
{
    let twice = chacha20_xor(key, nonce, from, chacha20_xor(key, nonce, from, data));
    assert forall|i: int| 0 <= i < data.len() implies twice[i] == data[i] by {
        let b = data[i];
        let k = primitives::chacha20_keystream(key, nonce, from + i);
        assert((b ^ k) ^ k == b) by (bit_vector);
    }
    assert(twice =~= data);
}

/// Two packets under one initial vector have the same nonce only if they have
/// the same sequence number.
pub proof fn law_nonces_differ(iv: Seq<u8>, seq1: u32, seq2: u32)
    requires
        packet_nonce(iv, seq1) == packet_nonce(iv, seq2),
    ensures
        seq1 == seq2,
{
    let n = iv.take(4).len() as int;
    let (a, b) = (packet_nonce(iv, seq1), packet_nonce(iv, seq2));
    assert(a.skip(n + 4) =~= wire::be32(seq1));
    assert(b.skip(n + 4) =~= wire::be32(seq2));
    wire::law_be32_read_back(seq1);
    wire::law_be32_read_back(seq2);
}

/// The sequence number after `n` more packets.
pub open spec fn sequence_after(seq: u32, n: nat) -> u32
    decreases n,
{
    if n == 0 {
        seq
    } else {
        packet::next_sequence(sequence_after(seq, (n - 1) as nat))
    }
}

/// Sequence numbers count modulo 2^32.
pub proof fn law_sequence_counts_packets(seq: u32, n: nat)
    ensures
        sequence_after(seq, n) == (seq + n) % 0x1_0000_0000,
    decreases n,
{
    if n > 0 {
        law_sequence_counts_packets(seq, (n - 1) as nat);
    }
}

/// Under one initial vector no nonce comes twice within 2^32 packets.
pub proof fn law_no_nonce_twice(iv: Seq<u8>, seq: u32, i: nat, j: nat)
    requires
        i < j < i + 0x1_0000_0000,
    ensures
        packet_nonce(iv, sequence_after(seq, i)) != packet_nonce(iv, sequence_after(seq, j)),
        chacha20_nonce(sequence_after(seq, i)) != chacha20_nonce(sequence_after(seq, j)),
{
    law_sequence_counts_packets(seq, i);
    law_sequence_counts_packets(seq, j);
    let (a, b) = (sequence_after(seq, i), sequence_after(seq, j));
    assert(a != b);
    if packet_nonce(iv, a) == packet_nonce(iv, b) {
        law_nonces_differ(iv, a, b);
    }
    if chacha20_nonce(a) == chacha20_nonce(b) {
        law_nonces_differ(seq![0u8, 0u8, 0u8, 0u8], a, b);
    }
}

proof fn lemma_chacha20_opens(
    main_key: Seq<u8>,
    header_key: Seq<u8>,
    seq: u32,
    payload: Seq<u8>,
    padding: Seq<u8>,
    tag: Seq<u8>,
)
    requires
        padding.len() < 0x100,
        tag.len() == 16,
        ({
            let nonce = chacha20_nonce(seq);
            let body = packet::packet_body(payload, padding);
            let header = chacha20_xor(header_key, nonce, 0, packet::packet_header(body));
            let sealed = header + chacha20_xor(main_key, nonce, 64, body);
            tag == primitives::poly1305_tag(chacha20_tag_key(main_key, nonce), sealed)
        }),
    ensures
        ({
            let packet = chacha20_packet(main_key, header_key, seq, payload, padding);
            &&& packet.len() == 4 + 1 + payload.len() + padding.len() + 16
            &&& chacha20_length(header_key, seq, packet.take(4)) == wire::len32(
                (packet.len() - 20) as nat,
            )
            &&& chacha20_opened(main_key, seq, packet.take(4), packet.skip(4)) == Ok::<
                Seq<u8>,
                DecryptError,
            >(payload)
        }),
{
    let nonce = chacha20_nonce(seq);
    let body = packet::packet_body(payload, padding);
    let header = chacha20_xor(header_key, nonce, 0, packet::packet_header(body));
    let covered = chacha20_xor(main_key, nonce, 64, body);
    let packet = chacha20_packet(main_key, header_key, seq, payload, padding);
    let rest = packet.skip(4);
    assert(packet.take(4) =~= header);
    assert(packet.take(4).take(4) =~= header);
    assert(rest.take(rest.len() - 16) =~= covered);
    assert(rest.skip(rest.len() - 16) =~= tag);
    law_keystream_twice_is_nothing(header_key, nonce, 0, packet::packet_header(body));
    law_keystream_twice_is_nothing(main_key, nonce, 64, body);
    law_unpadding_gives_back_payload(payload, padding);
    wire::law_be32_read_back(wire::len32(body.len()));
}

/// Seals a payload as [`chacha20_packet`], with the given padding bytes. The
/// packet announces its length and opens to the payload.
pub fn seal_chacha20(
    main_key: &[u8; 32],
    header_key: &[u8; 32],
    seq: u32,
    payload: &[u8],
    padding: &[u8],
) -> (packet: Vec<u8>)
    requires
        padding@.len() == sealed_padding(8, payload@.len()),
        chacha20_fits(payload@.len()),
    ensures
        packet@ == chacha20_packet(main_key@, header_key@, seq, payload@, padding@),
        packet@.len() == 4 + 1 + payload@.len() + padding@.len() + 16,
        chacha20_length(header_key@, seq, packet@.take(4)) == wire::len32(
            (packet@.len() - 20) as nat,
        ),
        chacha20_opened(main_key@, seq, packet@.take(4), packet@.skip(4)) == Ok::<
            Seq<u8>,
            DecryptError,
        >(payload@),
{
    let body = packet::build_body(payload, padding);
    let nonce: [u8; 12] = make_chacha20_nonce(seq);

    let mut full_packet: Vec<u8> = Vec::new();
    wire::push_u32(&mut full_packet, wire::length_field(body.len()));
    let ghost header = full_packet@;
    assert(header =~= packet::packet_header(body@));
    primitives::chacha20_apply(header_key, &nonce, &mut full_packet);
    assert(full_packet@ =~= chacha20_xor(header_key@, nonce@, 0, header));

    let (poly_key, covered) = chacha20_run(main_key, &nonce, &body);
    wire::push_bytes(&mut full_packet, &covered);
    let tag: [u8; 16] = primitives::poly1305_compute(&poly_key, &full_packet);
    wire::push_bytes(&mut full_packet, &tag);
    proof {
        lemma_chacha20_opens(main_key@, header_key@, seq, payload@, padding@, tag@);
    }
    full_packet
}

/// Seals a payload as a ChaCha20-Poly1305 packet with random padding.
pub fn encrypt_chacha20(
    main_key: &[u8; 32],
    header_key: &[u8; 32],
    seq: u32,
    payload: &[u8],
) -> (packet: Vec<u8>)
    requires
        chacha20_fits(payload@.len()),
        payload@.len() + 32 <= usize::MAX,
    ensures
        is_chacha20_packet(main_key@, header_key@, seq, payload@, packet@),
        packet@.len() == 4 + 1 + payload@.len() + sealed_padding(8, payload@.len()) + 16,
        chacha20_length(header_key@, seq, packet@.take(4)) == wire::len32(
            (packet@.len() - 20) as nat,
        ),
        chacha20_opened(main_key@, seq, packet@.take(4), packet@.skip(4)) == Ok::<
            Seq<u8>,
            DecryptError,
        >(payload@),
{
    let padding = random_bytes(packet::padding_len(8, 1 + payload.len()));
    seal_chacha20(main_key, header_key, seq, payload, &padding)
}

/// Takes the payload out of a decrypted body.
fn unpad(body: &[u8]) -> (payload: Result<Vec<u8>, DecryptError>)
    ensures
        result_view(payload) == payload_of(body@),
{
    if body.len() < 1 {
        return Err(DecryptError::BadPadding);
    }
    let padding_len: usize = body[0] as usize;
    if body.len() < 1 + padding_len {
        return Err(DecryptError::BadPadding);
    }
    Ok(vstd::slice::slice_to_vec(slice_subrange(body, 1, body.len() - padding_len)))
}

/// Reads the length of a ChaCha20-Poly1305 packet from its header bytes, the
/// first four of which count.
pub fn decrypt_length_chacha20(header_key: &[u8; 32], seq: u32, encrypted_header: &[u8]) -> (len: u32)
    requires
        encrypted_header@.len() >= 4,
    ensures
        len == chacha20_length(header_key@, seq, encrypted_header@),
{
    let nonce: [u8; 12] = make_chacha20_nonce(seq);
    let mut header: Vec<u8> = vstd::slice::slice_to_vec(slice_subrange(encrypted_header, 0, 4));
    primitives::chacha20_apply(header_key, &nonce, &mut header);
    assert(header@ =~= chacha20_xor(header_key@, nonce@, 0, encrypted_header@.take(4)));
    wire::u32_from_be_bytes(&header)
}

/// Opens a ChaCha20-Poly1305 packet, given its header bytes and what follows
/// them. The tag is checked before anything is decrypted.
pub fn decrypt_payload_chacha20(
    main_key: &[u8; 32],
    seq: u32,
    encrypted_header: &[u8],
    encrypted_body_with_tag: &[u8],
) -> (payload: Result<Vec<u8>, DecryptError>)
    requires
        encrypted_header@.len() >= 4,
        encrypted_body_with_tag@.len() >= 16,
        64 + encrypted_body_with_tag@.len() - 16 <= primitives::CHACHA20_MAX,
    ensures
        result_view(payload) == chacha20_opened(
            main_key@,
            seq,
            encrypted_header@,
            encrypted_body_with_tag@,
        ),
{
    let nonce: [u8; 12] = make_chacha20_nonce(seq);
    let body_len: usize = encrypted_body_with_tag.len() - 16;
    let (body, tag) = encrypted_body_with_tag.split_at(body_len);
    assert(body@ =~= encrypted_body_with_tag@.take(body_len as int));
    assert(tag@ =~= encrypted_body_with_tag@.skip(body_len as int));

    let (poly_key, _) = chacha20_run(main_key, &nonce, slice_subrange(body, 0, 0));
    let mut mac_data: Vec<u8> = vstd::slice::slice_to_vec(slice_subrange(encrypted_header, 0, 4));
    wire::push_bytes(&mut mac_data, body);
    assert(mac_data@ =~= encrypted_header@.take(4) + body@);
    let expected_tag: [u8; 16] = primitives::poly1305_compute(&poly_key, &mac_data);
    if !wire::same_bytes(&expected_tag, tag) {
        return Err(DecryptError::BadTag);
    }
    let (_, decrypted) = chacha20_run(main_key, &nonce, body);
    unpad(&decrypted)
}

/// Seals a payload as [`aes256_packet`], with the given padding bytes. The packet
/// announces its length and opens to the payload.
pub fn seal_aes256(
    key: &[u8; 32],
    iv: &[u8; 12],
    seq: u32,
    payload: &[u8],
    padding: &[u8],
) -> (packet: Vec<u8>)
    requires
        padding@.len() == sealed_padding(16, payload@.len()),
        aes_gcm_fits(payload@.len()),
    ensures
        packet@ == aes256_packet(key@, iv@, seq, payload@, padding@),
        packet@.len() == 4 + 1 + payload@.len() + padding@.len() + 16,
        wire::from_be32(packet@.take(4)) == wire::len32((packet@.len() - 20) as nat),
        aes256_opened(key@, iv@, seq, packet@.take(4), packet@.skip(4)) == Ok::<
            Seq<u8>,
            DecryptError,
        >(payload@),
        primitives::aes256_gcm_opened(
            key@,
            packet_nonce(iv@, seq),
            packet@.take(4),
            packet@.skip(4),
        ) == Some(seq![padding@.len() as u8] + payload@ + padding@),
{
    let nonce: [u8; 12] = make_nonce(iv, seq);
    let body = packet::build_body(payload, padding);
    let header: [u8; 4] = wire::u32_to_be_bytes(wire::length_field(body.len()));
    let sealed = primitives::aes256_gcm_seal(key, &nonce, &header, &body);
    let encrypted_body = sealed.unwrap();

    let mut full_packet: Vec<u8> = Vec::new();
    wire::push_bytes(&mut full_packet, &header);
    wire::push_bytes(&mut full_packet, &encrypted_body);
    proof {
        assert(full_packet@ =~= header@ + encrypted_body@);
        assert(full_packet@.take(4) =~= header@);
        assert(full_packet@.skip(4) =~= encrypted_body@);
        wire::law_be32_read_back(wire::len32(body@.len()));
        law_unpadding_gives_back_payload(payload@, padding@);
    }
    full_packet
}

/// Seals a payload as an AES-256-GCM packet with random padding.
pub fn encrypt_aes256(key: &[u8; 32], iv: &[u8; 12], seq: u32, payload: &[u8]) -> (packet: Vec<u8>)
    requires
        aes_gcm_fits(payload@.len()),
        payload@.len() + 32 <= usize::MAX,
    ensures
        is_aes256_packet(key@, iv@, seq, payload@, packet@),
        packet@.len() == 4 + 1 + payload@.len() + sealed_padding(16, payload@.len()) + 16,
        wire::from_be32(packet@.take(4)) == wire::len32((packet@.len() - 20) as nat),
        aes256_opened(key@, iv@, seq, packet@.take(4), packet@.skip(4)) == Ok::<
            Seq<u8>,
            DecryptError,
        >(payload@),
        primitives::aes256_gcm_opened(
            key@,
            packet_nonce(iv@, seq),
            packet@.take(4),
            packet@.skip(4),
        ) matches Some(body) && {
            &&& body.len() == packet@.len() - 20
            &&& body[0] == body.len() - 1 - payload@.len()
            &&& body.subrange(1, 1 + payload@.len() as int) == payload@
        },
{
    let padding = random_bytes(packet::padding_len(16, 1 + payload.len()));
    proof {
        let body = seq![padding@.len() as u8] + payload@ + padding@;
        assert(body.subrange(1, 1 + payload@.len() as int) =~= payload@);
    }
    seal_aes256(key, iv, seq, payload, &padding)
}

/// Reads the length of an AES-256-GCM packet from its four header bytes, which
/// are in clear.
pub fn decrypt_length_aes256(encrypted_header: &[u8]) -> (len: u32)
    requires
        encrypted_header@.len() == 4,
    ensures
        len == wire::from_be32(encrypted_header@),
{
    wire::u32_from_be_bytes(encrypted_header)
}

/// Opens an AES-256-GCM packet, given what follows its header bytes and the
/// header bytes as associated data.
pub fn decrypt_payload_aes256(
    key: &[u8; 32],
    iv: &[u8; 12],
    seq: u32,
    encrypted_body_with_tag: &[u8],
    aad: &[u8],
) -> (payload: Result<Vec<u8>, DecryptError>)
    ensures
        result_view(payload) == aes256_opened(key@, iv@, seq, aad@, encrypted_body_with_tag@),
{
    let nonce: [u8; 12] = make_nonce(iv, seq);
    match primitives::aes256_gcm_open(key, &nonce, aad, encrypted_body_with_tag) {
        Ok(decrypted) => unpad(&decrypted),
        Err(_) => Err(DecryptError::BadTag),
    }
}

/// Seals a payload as [`aes128_packet`], with the given padding bytes. The packet
/// announces its length and opens to the payload.
pub fn seal_aes128(
    key: &[u8; 16],
    iv: &[u8; 12],
    seq: u32,
    payload: &[u8],
    padding: &[u8],
) -> (packet: Vec<u8>)
    requires
        padding@.len() == sealed_padding(16, payload@.len()),
        aes_gcm_fits(payload@.len()),
    ensures
        packet@ == aes128_packet(key@, iv@, seq, payload@, padding@),
        packet@.len() == 4 + 1 + payload@.len() + padding@.len() + 16,
        wire::from_be32(packet@.take(4)) == wire::len32((packet@.len() - 20) as nat),
        aes128_opened(key@, iv@, seq, packet@.take(4), packet@.skip(4)) == Ok::<
            Seq<u8>,
            DecryptError,
        >(payload@),
        primitives::aes128_gcm_opened(
            key@,
            packet_nonce(iv@, seq),
            packet@.take(4),
            packet@.skip(4),
        ) == Some(seq![padding@.len() as u8] + payload@ + padding@),
{
    let nonce: [u8; 12] = make_nonce(iv, seq);
    let body = packet::build_body(payload, padding);
    let header: [u8; 4] = wire::u32_to_be_bytes(wire::length_field(body.len()));
    let sealed = primitives::aes128_gcm_seal(key, &nonce, &header, &body);
    let encrypted_body = sealed.unwrap();

    let mut full_packet: Vec<u8> = Vec::new();
    wire::push_bytes(&mut full_packet, &header);
    wire::push_bytes(&mut full_packet, &encrypted_body);
    proof {
        assert(full_packet@ =~= header@ + encrypted_body@);
        assert(full_packet@.take(4) =~= header@);
        assert(full_packet@.skip(4) =~= encrypted_body@);
        wire::law_be32_read_back(wire::len32(body@.len()));
        law_unpadding_gives_back_payload(payload@, padding@);
    }
    full_packet
}

/// Seals a payload as an AES-128-GCM packet with random padding.
pub fn encrypt_aes128(key: &[u8; 16], iv: &[u8; 12], seq: u32, payload: &[u8]) -> (packet: Vec<u8>)
    requires
        aes_gcm_fits(payload@.len()),
        payload@.len() + 32 <= usize::MAX,
    ensures
        is_aes128_packet(key@, iv@, seq, payload@, packet@),
        packet@.len() == 4 + 1 + payload@.len() + sealed_padding(16, payload@.len()) + 16,
        wire::from_be32(packet@.take(4)) == wire::len32((packet@.len() - 20) as nat),
        aes128_opened(key@, iv@, seq, packet@.take(4), packet@.skip(4)) == Ok::<
            Seq<u8>,
            DecryptError,
        >(payload@),
        primitives::aes128_gcm_opened(
            key@,
            packet_nonce(iv@, seq),
            packet@.take(4),
            packet@.skip(4),
        ) matches Some(body) && {
            &&& body.len() == packet@.len() - 20
            &&& body[0] == body.len() - 1 - payload@.len()
            &&& body.subrange(1, 1 + payload@.len() as int) == payload@
        },
{
    let padding = random_bytes(packet::padding_len(16, 1 + payload.len()));
    proof {
        let body = seq![padding@.len() as u8] + payload@ + padding@;
        assert(body.subrange(1, 1 + payload@.len() as int) =~= payload@);
    }
    seal_aes128(key, iv, seq, payload, &padding)
}

/// Reads the length of an AES-128-GCM packet from its four header bytes, which
/// are in clear.
pub fn decrypt_length_aes128(encrypted_header: &[u8]) -> (len: u32)
    requires
        encrypted_header@.len() == 4,
    ensures
        len == wire::from_be32(encrypted_header@),
{
    wire::u32_from_be_bytes(encrypted_header)
}

/// Opens an AES-128-GCM packet, given what follows its header bytes and the
/// header bytes as associated data.
pub fn decrypt_payload_aes128(
    key: &[u8; 16],
    iv: &[u8; 12],
    seq: u32,
    encrypted_body_with_tag: &[u8],
    aad: &[u8],
) -> (payload: Result<Vec<u8>, DecryptError>)
    ensures
        result_view(payload) == aes128_opened(key@, iv@, seq, aad@, encrypted_body_with_tag@),
{
    let nonce: [u8; 12] = make_nonce(iv, seq);
    match primitives::aes128_gcm_open(key, &nonce, aad, encrypted_body_with_tag) {
        Ok(decrypted) => unpad(&decrypted),
        Err(_) => Err(DecryptError::BadTag),
    }
}

} // verus!

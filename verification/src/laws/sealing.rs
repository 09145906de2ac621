//! Laws of single encrypted packets, said of the keystream, the tags and what
//! AES-GCM opens.

use vstd::prelude::*;
use crate::packet;
use crate::primitives;
use crate::sealing;
use crate::sealing::DecryptError;
use crate::wire;

verus! {

/// A nonce has twelve bytes: the first four of the initial vector, four zeros, the
/// sequence number. ChaCha20 has zeros for the initial vector.
pub proof fn law_nonce_parts(iv: Seq<u8>, seq: u32)
    requires
        iv.len() >= 4,
    ensures
        sealing::packet_nonce(iv, seq) == iv.take(4) + seq![0u8, 0u8, 0u8, 0u8] + wire::be32(seq),
        sealing::chacha20_nonce(seq) == seq![0u8, 0u8, 0u8, 0u8, 0u8, 0u8, 0u8, 0u8] + wire::be32(
            seq,
        ),
{
    assert(wire::be32(0) =~= seq![0u8, 0u8, 0u8, 0u8]);
    assert(sealing::packet_nonce(iv, seq) =~= iv.take(4) + seq![0u8, 0u8, 0u8, 0u8] + wire::be32(
        seq,
    ));
    assert(sealing::chacha20_nonce(seq) =~= seq![0u8, 0u8, 0u8, 0u8, 0u8, 0u8, 0u8, 0u8]
        + wire::be32(seq));
}

/// The amount of padding in an encrypted packet fills blocks without the length
/// field, as little as can be, four bytes at least.
pub proof fn law_sealed_padding(payload_len: nat)
    ensures
        (1 + payload_len + sealing::sealed_padding(8, payload_len)) % 8 == 0,
        4 <= sealing::sealed_padding(8, payload_len) < 12,
        (1 + payload_len + sealing::sealed_padding(16, payload_len)) % 16 == 0,
        4 <= sealing::sealed_padding(16, payload_len) < 20,
{
}

/// Data under the keystream is XORed with it byte by byte, and the tag key is the
/// beginning of the keystream.
pub proof fn law_keystream_covers(key: Seq<u8>, nonce: Seq<u8>, from: int, data: Seq<u8>)
    ensures
        sealing::chacha20_xor(key, nonce, from, data).len() == data.len(),
        forall|i: int|
            0 <= i < data.len() ==> #[trigger] sealing::chacha20_xor(key, nonce, from, data)[i]
                == data[i] ^ primitives::chacha20_keystream(key, nonce, from + i),
        sealing::chacha20_tag_key(key, nonce).len() == 32,
        forall|i: int|
            0 <= i < 32 ==> #[trigger] sealing::chacha20_tag_key(key, nonce)[i]
                == primitives::chacha20_keystream(key, nonce, i),
{
}

/// A decrypted body gives the payload between the number of padding bytes and the
/// padding; one that is too short for its padding is refused.
pub proof fn law_body_gives_payload(count: u8, rest: Seq<u8>)
    ensures
        ({
            let given = sealing::payload_of(seq![count] + rest);
            &&& count <= rest.len() ==> given == Ok::<Seq<u8>, DecryptError>(
                rest.take(rest.len() - count),
            )
            &&& count > rest.len() ==> given == Err::<Seq<u8>, DecryptError>(
                DecryptError::BadPadding,
            )
        }),
        sealing::payload_of(Seq::empty()) == Err::<Seq<u8>, DecryptError>(DecryptError::BadPadding),
{
    let body = seq![count] + rest;
    if count <= rest.len() {
        assert(body.subrange(1, body.len() - count) =~= rest.take(rest.len() - count));
    }
}

/// Every byte of a ChaCha20-Poly1305 packet: the length of the body under the
/// header key from the start of its keystream; the number of padding bytes, the
/// payload and the padding under the main key from the second block of its
/// keystream; and behind them the tag of all that, under the first 32 bytes of the
/// keystream of the main key.
pub proof fn law_chacha20_packet_bytes(
    main_key: Seq<u8>,
    header_key: Seq<u8>,
    seq: u32,
    payload: Seq<u8>,
    padding: Seq<u8>,
)
    requires
        padding.len() < 0x100,
    ensures
        ({
            let packet = sealing::chacha20_packet(main_key, header_key, seq, payload, padding);
            let nonce = seq![0u8, 0u8, 0u8, 0u8, 0u8, 0u8, 0u8, 0u8] + wire::be32(seq);
            let len = 1 + payload.len() + padding.len();
            let length_field = wire::be32((len % 0x1_0000_0000) as u32);
            let sealed = packet.take(4 + len as int);
            &&& packet.len() >= 4 + len
            &&& forall|i: int|
                0 <= i < 4 ==> #[trigger] packet[i] == length_field[i]
                    ^ primitives::chacha20_keystream(header_key, nonce, i)
            &&& packet[4] == (padding.len() as u8) ^ primitives::chacha20_keystream(
                main_key,
                nonce,
                64,
            )
            &&& forall|i: int|
                0 <= i < payload.len() ==> packet[5 + i] == #[trigger] payload[i]
                    ^ primitives::chacha20_keystream(main_key, nonce, 65 + i)
            &&& forall|i: int|
                0 <= i < padding.len() ==> packet[5 + payload.len() + i] == #[trigger] padding[i]
                    ^ primitives::chacha20_keystream(main_key, nonce, 65 + payload.len() + i)
            &&& packet.skip(4 + len as int) == primitives::poly1305_tag(
                Seq::new(32, |i: int| primitives::chacha20_keystream(main_key, nonce, i)),
                sealed,
            )
        }),
{
    let packet = sealing::chacha20_packet(main_key, header_key, seq, payload, padding);
    let nonce = sealing::chacha20_nonce(seq);
    law_nonce_parts(seq![0u8, 0u8, 0u8, 0u8], seq);
    let body = packet::packet_body(payload, padding);
    crate::laws::packets::law_body_parts(payload, padding);
    let header = sealing::chacha20_xor(header_key, nonce, 0, packet::packet_header(body));
    let covered = sealing::chacha20_xor(main_key, nonce, 64, body);
    let sealed = header + covered;
    let tag_key = Seq::new(32, |i: int| primitives::chacha20_keystream(main_key, nonce, i));
    assert(sealing::chacha20_tag_key(main_key, nonce) =~= tag_key);
    let tag = primitives::poly1305_tag(tag_key, sealed);
    assert(packet == sealed + tag);
    assert(packet.take(4 + body.len() as int) =~= sealed);
    assert(packet.skip(4 + body.len() as int) =~= tag);
    assert forall|i: int| 0 <= i < payload.len() implies packet[5 + i] == #[trigger] payload[i]
        ^ primitives::chacha20_keystream(main_key, nonce, 65 + i) by {
        assert(packet[5 + i] == covered[1 + i]);
        assert(body[1 + i] == payload[i]);
    }
    assert forall|i: int| 0 <= i < padding.len() implies packet[5 + payload.len() + i]
        == #[trigger] padding[i] ^ primitives::chacha20_keystream(
        main_key,
        nonce,
        65 + payload.len() + i,
    ) by {
        assert(packet[5 + payload.len() + i] == covered[1 + payload.len() + i]);
        assert(body[1 + payload.len() + i] == padding[i]);
    }
}

/// A ChaCha20-Poly1305 packet with random padding has the bytes of one with some
/// padding that fills its blocks.
pub proof fn law_chacha20_packet_is_padded(
    main_key: Seq<u8>,
    header_key: Seq<u8>,
    seq: u32,
    payload: Seq<u8>,
    packet: Seq<u8>,
)
    requires
        sealing::is_chacha20_packet(main_key, header_key, seq, payload, packet),
    ensures
        exists|padding: Seq<u8>|
            {
                &&& packet == #[trigger] sealing::chacha20_packet(
                    main_key,
                    header_key,
                    seq,
                    payload,
                    padding,
                )
                &&& 4 <= padding.len() < 12
                &&& (1 + payload.len() + padding.len()) % 8 == 0
            },
{
    law_sealed_padding(payload.len());
}

/// The length of a ChaCha20-Poly1305 packet is what was put under the keystream of
/// the header key; of longer data the first four bytes count.
pub proof fn law_chacha20_length_is_read(header_key: Seq<u8>, seq: u32, len: u32, behind: Seq<u8>)
    ensures
        ({
            let nonce = seq![0u8, 0u8, 0u8, 0u8, 0u8, 0u8, 0u8, 0u8] + wire::be32(seq);
            let header = Seq::new(
                4,
                |i: int| wire::be32(len)[i] ^ primitives::chacha20_keystream(header_key, nonce, i),
            );
            sealing::chacha20_length(header_key, seq, header + behind) == len
        }),
{
    let nonce = sealing::chacha20_nonce(seq);
    law_nonce_parts(seq![0u8, 0u8, 0u8, 0u8], seq);
    let header = Seq::new(
        4,
        |i: int| wire::be32(len)[i] ^ primitives::chacha20_keystream(header_key, nonce, i),
    );
    assert((header + behind).take(4) =~= header);
    assert(header =~= sealing::chacha20_xor(header_key, nonce, 0, wire::be32(len)));
    sealing::law_keystream_twice_is_nothing(header_key, nonce, 0, wire::be32(len));
    wire::law_be32_read_back(len);
}

/// A ChaCha20-Poly1305 packet opens exactly if its last 16 bytes are the tag of the
/// four header bytes and what stands between; then what stands between gives the
/// payload, once the keystream of the main key is taken off from its second block
/// on.
pub proof fn law_chacha20_opening(
    main_key: Seq<u8>,
    seq: u32,
    header: Seq<u8>,
    covered: Seq<u8>,
    tag: Seq<u8>,
)
    requires
        header.len() == 4,
        tag.len() == 16,
    ensures
        ({
            let nonce = seq![0u8, 0u8, 0u8, 0u8, 0u8, 0u8, 0u8, 0u8] + wire::be32(seq);
            let tag_key = Seq::new(
                32,
                |i: int| primitives::chacha20_keystream(main_key, nonce, i),
            );
            let body = Seq::new(
                covered.len(),
                |i: int| covered[i] ^ primitives::chacha20_keystream(main_key, nonce, 64 + i),
            );
            let opened = sealing::chacha20_opened(main_key, seq, header, covered + tag);
            if tag == primitives::poly1305_tag(tag_key, header + covered) {
                opened == sealing::payload_of(body)
            } else {
                opened == Err::<Seq<u8>, DecryptError>(DecryptError::BadTag)
            }
        }),
{
    let nonce = sealing::chacha20_nonce(seq);
    law_nonce_parts(seq![0u8, 0u8, 0u8, 0u8], seq);
    let rest = covered + tag;
    let tag_key = Seq::new(32, |i: int| primitives::chacha20_keystream(main_key, nonce, i));
    assert(sealing::chacha20_tag_key(main_key, nonce) =~= tag_key);
    assert(rest.take(rest.len() - 16) =~= covered);
    assert(rest.skip(rest.len() - 16) =~= tag);
    assert(header.take(4) =~= header);
    let body = Seq::new(
        covered.len(),
        |i: int| covered[i] ^ primitives::chacha20_keystream(main_key, nonce, 64 + i),
    );
    assert(sealing::chacha20_xor(main_key, nonce, 64, covered) =~= body);
}

/// Of the header of a ChaCha20-Poly1305 packet the first four bytes count.
pub proof fn law_chacha20_header_is_four_bytes(
    main_key: Seq<u8>,
    seq: u32,
    header: Seq<u8>,
    behind: Seq<u8>,
    rest: Seq<u8>,
)
    requires
        header.len() == 4,
    ensures
        sealing::chacha20_opened(main_key, seq, header + behind, rest) == sealing::chacha20_opened(
            main_key,
            seq,
            header,
            rest,
        ),
{
    assert((header + behind).take(4) =~= header.take(4));
}

/// An AES-256-GCM packet is its length in clear, and behind it what AES-256-GCM
/// seals the number of padding bytes, the payload and the padding to, with just
/// those four bytes as associated data.
pub proof fn law_aes256_packet_parts(
    key: Seq<u8>,
    iv: Seq<u8>,
    seq: u32,
    payload: Seq<u8>,
    padding: Seq<u8>,
)
    requires
        iv.len() == 12,
        padding.len() < 0x100,
    ensures
        ({
            let packet = sealing::aes256_packet(key, iv, seq, payload, padding);
            let nonce = iv.take(4) + seq![0u8, 0u8, 0u8, 0u8] + wire::be32(seq);
            let len = 1 + payload.len() + padding.len();
            &&& packet.take(4) == wire::be32((len % 0x1_0000_0000) as u32)
            &&& packet.skip(4) == primitives::aes256_gcm_sealed(
                key,
                nonce,
                packet.take(4),
                seq![padding.len() as u8] + payload + padding,
            )
        }),
{
    let packet = sealing::aes256_packet(key, iv, seq, payload, padding);
    let body = packet::packet_body(payload, padding);
    let header = packet::packet_header(body);
    crate::laws::packets::law_body_parts(payload, padding);
    law_nonce_parts(iv, seq);
    assert(packet.take(4) =~= header);
    assert(packet.skip(4) =~= primitives::aes256_gcm_sealed(
        key,
        sealing::packet_nonce(iv, seq),
        header,
        body,
    ));
}

/// An AES-256-GCM packet with random padding is one with some padding that fills
/// its blocks.
pub proof fn law_aes256_packet_is_padded(
    key: Seq<u8>,
    iv: Seq<u8>,
    seq: u32,
    payload: Seq<u8>,
    packet: Seq<u8>,
)
    requires
        sealing::is_aes256_packet(key, iv, seq, payload, packet),
    ensures
        exists|padding: Seq<u8>|
            {
                &&& packet == #[trigger] sealing::aes256_packet(key, iv, seq, payload, padding)
                &&& 4 <= padding.len() < 20
                &&& (1 + payload.len() + padding.len()) % 16 == 0
            },
{
    law_sealed_padding(payload.len());
}

/// Opening an AES-256-GCM packet is AES-256-GCM opening with its header as
/// associated data, whatever the lengths.
pub proof fn law_aes256_opening(
    key: Seq<u8>,
    iv: Seq<u8>,
    seq: u32,
    header: Seq<u8>,
    rest: Seq<u8>,
)
    requires
        iv.len() == 12,
    ensures
        ({
            let nonce = iv.take(4) + seq![0u8, 0u8, 0u8, 0u8] + wire::be32(seq);
            sealing::aes256_opened(key, iv, seq, header, rest) == (
            match primitives::aes256_gcm_opened(key, nonce, header, rest) {
                Some(body) => sealing::payload_of(body),
                None => Err(DecryptError::BadTag),
            })
        }),
{
    law_nonce_parts(iv, seq);
}

/// An AES-128-GCM packet is its length in clear, and behind it what AES-128-GCM
/// seals the number of padding bytes, the payload and the padding to, with just
/// those four bytes as associated data.
pub proof fn law_aes128_packet_parts(
    key: Seq<u8>,
    iv: Seq<u8>,
    seq: u32,
    payload: Seq<u8>,
    padding: Seq<u8>,
)
    requires
        iv.len() == 12,
        padding.len() < 0x100,
    ensures
        ({
            let packet = sealing::aes128_packet(key, iv, seq, payload, padding);
            let nonce = iv.take(4) + seq![0u8, 0u8, 0u8, 0u8] + wire::be32(seq);
            let len = 1 + payload.len() + padding.len();
            &&& packet.take(4) == wire::be32((len % 0x1_0000_0000) as u32)
            &&& packet.skip(4) == primitives::aes128_gcm_sealed(
                key,
                nonce,
                packet.take(4),
                seq![padding.len() as u8] + payload + padding,
            )
        }),
{
    let packet = sealing::aes128_packet(key, iv, seq, payload, padding);
    let body = packet::packet_body(payload, padding);
    let header = packet::packet_header(body);
    crate::laws::packets::law_body_parts(payload, padding);
    law_nonce_parts(iv, seq);
    assert(packet.take(4) =~= header);
    assert(packet.skip(4) =~= primitives::aes128_gcm_sealed(
        key,
        sealing::packet_nonce(iv, seq),
        header,
        body,
    ));
}

/// An AES-128-GCM packet with random padding is one with some padding that fills
/// its blocks.
pub proof fn law_aes128_packet_is_padded(
    key: Seq<u8>,
    iv: Seq<u8>,
    seq: u32,
    payload: Seq<u8>,
    packet: Seq<u8>,
)
    requires
        sealing::is_aes128_packet(key, iv, seq, payload, packet),
    ensures
        exists|padding: Seq<u8>|
            {
                &&& packet == #[trigger] sealing::aes128_packet(key, iv, seq, payload, padding)
                &&& 4 <= padding.len() < 20
                &&& (1 + payload.len() + padding.len()) % 16 == 0
            },
{
    law_sealed_padding(payload.len());
}

/// Opening an AES-128-GCM packet is AES-128-GCM opening with its header as
/// associated data, whatever the lengths.
pub proof fn law_aes128_opening(
    key: Seq<u8>,
    iv: Seq<u8>,
    seq: u32,
    header: Seq<u8>,
    rest: Seq<u8>,
)
    requires
        iv.len() == 12,
    ensures
        ({
            let nonce = iv.take(4) + seq![0u8, 0u8, 0u8, 0u8] + wire::be32(seq);
            sealing::aes128_opened(key, iv, seq, header, rest) == (
            match primitives::aes128_gcm_opened(key, nonce, header, rest) {
                Some(body) => sealing::payload_of(body),
                None => Err(DecryptError::BadTag),
            })
        }),
{
    law_nonce_parts(iv, seq);
}

/// What a result holds is what it stands for.
pub proof fn law_result_is_its_content(payload: Vec<u8>, error: DecryptError)
    ensures
        sealing::result_view(Ok(payload)) == Ok::<Seq<u8>, DecryptError>(payload@),
        sealing::result_view(Err(error)) == Err::<Seq<u8>, DecryptError>(error),
{
}

/// A payload can be sealed exactly if its packet is not too long for the cipher.
pub proof fn law_longest_payload(payload_len: nat)
    ensures
        sealing::chacha20_fits(payload_len) <==> 64 + 1 + payload_len + packet::padding_for(
            8,
            1 + payload_len as int,
        ) <= 64 * 0xffff_ffff,
        sealing::aes_gcm_fits(payload_len) <==> 1 + payload_len + packet::padding_for(
            16,
            1 + payload_len as int,
        ) <= 0x10_0000_0000,
{
}

} // verus!

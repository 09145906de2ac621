//! Laws of the ciphers by name and of reading encrypted packets.

use vstd::prelude::*;
use crate::cipher;
use crate::cipher::{Cipher, CipherKind, EncPacketRead, EncPacketReadState};
use crate::primitives;
use crate::sealing;
use crate::sealing::DecryptError;
use crate::wire;

verus! {

/// Just four names stand for a cipher, and each for its own construction; the two
/// AES names for longer keys share one.
pub proof fn law_names_of_ciphers(alg: Seq<char>)
    ensures
        cipher::kind_of("chacha20-poly1305@openssh.com"@) == Some(CipherKind::ChaCha20Poly1305),
        cipher::kind_of("aes128-gcm@openssh.com"@) == Some(CipherKind::Aes128Gcm),
        cipher::kind_of("aes192-gcm@openssh.com"@) == Some(CipherKind::Aes256Gcm),
        cipher::kind_of("aes256-gcm@openssh.com"@) == Some(CipherKind::Aes256Gcm),
        cipher::kind_of(alg) is Some ==> alg == "chacha20-poly1305@openssh.com"@ || alg
            == "aes128-gcm@openssh.com"@ || alg == "aes192-gcm@openssh.com"@ || alg
            == "aes256-gcm@openssh.com"@,
        CipherKind::ChaCha20Poly1305.key_len() == 32 + 32,
        CipherKind::Aes128Gcm.key_len() == 16 + 12,
        CipherKind::Aes256Gcm.key_len() == 32 + 12,
{
    reveal_strlit("chacha20-poly1305@openssh.com");
    reveal_strlit("aes128-gcm@openssh.com");
    reveal_strlit("aes192-gcm@openssh.com");
    reveal_strlit("aes256-gcm@openssh.com");
    assert("aes192-gcm@openssh.com"@[4] != "aes128-gcm@openssh.com"@[4]);
    assert("aes256-gcm@openssh.com"@[3] != "aes128-gcm@openssh.com"@[3]);
}

/// The key material of a cipher: the main key and then the header key, or the key
/// and then the initial vector.
pub proof fn law_key_material_parts(
    main_key: [u8; 32],
    header_key: [u8; 32],
    short_key: [u8; 16],
    iv: [u8; 12],
)
    ensures
        ({
            let c = Cipher::ChaCha20Poly1305 { main_key, header_key };
            &&& c.kind() == CipherKind::ChaCha20Poly1305
            &&& c.key_material().len() == 64
            &&& c.key_material().take(32) == main_key@
            &&& c.key_material().skip(32) == header_key@
        }),
        ({
            let c = Cipher::Aes128Gcm { key: short_key, iv };
            &&& c.kind() == CipherKind::Aes128Gcm
            &&& c.key_material().len() == 28
            &&& c.key_material().take(16) == short_key@
            &&& c.key_material().skip(16) == iv@
        }),
        ({
            let c = Cipher::Aes256Gcm { key: main_key, iv };
            &&& c.kind() == CipherKind::Aes256Gcm
            &&& c.key_material().len() == 44
            &&& c.key_material().take(32) == main_key@
            &&& c.key_material().skip(32) == iv@
        }),
{
    assert((main_key@ + header_key@).take(32) =~= main_key@);
    assert((main_key@ + header_key@).skip(32) =~= header_key@);
    assert((short_key@ + iv@).take(16) =~= short_key@);
    assert((short_key@ + iv@).skip(16) =~= iv@);
    assert((main_key@ + iv@).take(32) =~= main_key@);
    assert((main_key@ + iv@).skip(32) =~= iv@);
}

/// A cipher seals a packet under its own keys, each in its place.
pub proof fn law_cipher_seals_under_its_keys(
    cipher: Cipher,
    seq: u32,
    payload: Seq<u8>,
    packet: Seq<u8>,
)
    requires
        cipher.seals_to(seq, payload, packet),
    ensures
        match cipher {
            Cipher::ChaCha20Poly1305 { main_key, header_key } => exists|padding: Seq<u8>|
                {
                    &&& packet == #[trigger] sealing::chacha20_packet(
                        main_key@,
                        header_key@,
                        seq,
                        payload,
                        padding,
                    )
                    &&& 4 <= padding.len() < 12
                    &&& (1 + payload.len() + padding.len()) % 8 == 0
                },
            Cipher::Aes128Gcm { key, iv } => exists|padding: Seq<u8>|
                {
                    &&& packet == #[trigger] sealing::aes128_packet(
                        key@,
                        iv@,
                        seq,
                        payload,
                        padding,
                    )
                    &&& 4 <= padding.len() < 20
                    &&& (1 + payload.len() + padding.len()) % 16 == 0
                },
            Cipher::Aes256Gcm { key, iv } => exists|padding: Seq<u8>|
                {
                    &&& packet == #[trigger] sealing::aes256_packet(
                        key@,
                        iv@,
                        seq,
                        payload,
                        padding,
                    )
                    &&& 4 <= padding.len() < 20
                    &&& (1 + payload.len() + padding.len()) % 16 == 0
                },
        },
{
    match cipher {
        Cipher::ChaCha20Poly1305 { main_key, header_key } => {
            crate::laws::sealing::law_chacha20_packet_is_padded(
                main_key@,
                header_key@,
                seq,
                payload,
                packet,
            );
        },
        Cipher::Aes128Gcm { key, iv } => {
            crate::laws::sealing::law_aes128_packet_is_padded(key@, iv@, seq, payload, packet);
        },
        Cipher::Aes256Gcm { key, iv } => {
            crate::laws::sealing::law_aes256_packet_is_padded(key@, iv@, seq, payload, packet);
        },
    }
}

/// The header of an AES-GCM packet announces the number in it; that of a
/// ChaCha20-Poly1305 packet the number under the keystream of the header key.
pub proof fn law_header_announces_length(cipher: Cipher, seq: u32, len: u32)
    ensures
        match cipher {
            Cipher::ChaCha20Poly1305 { header_key, .. } => {
                let nonce = seq![0u8, 0u8, 0u8, 0u8, 0u8, 0u8, 0u8, 0u8] + wire::be32(seq);
                let header = Seq::new(
                    4,
                    |i: int|
                        wire::be32(len)[i] ^ primitives::chacha20_keystream(header_key@, nonce, i),
                );
                cipher.announced(seq, header) == len
            },
            _ => cipher.announced(seq, wire::be32(len)) == len,
        },
{
    wire::law_be32_read_back(len);
    if let Cipher::ChaCha20Poly1305 { header_key, .. } = cipher {
        let nonce = seq![0u8, 0u8, 0u8, 0u8, 0u8, 0u8, 0u8, 0u8] + wire::be32(seq);
        let header = Seq::new(
            4,
            |i: int| wire::be32(len)[i] ^ primitives::chacha20_keystream(header_key@, nonce, i),
        );
        crate::laws::sealing::law_chacha20_length_is_read(header_key@, seq, len, Seq::empty());
        assert(header + Seq::<u8>::empty() =~= header);
    }
}

/// A cipher opens a packet under its own keys; AES-GCM with the header as
/// associated data, ChaCha20-Poly1305 with the header under the tag.
pub proof fn law_cipher_opens_under_its_keys(
    cipher: Cipher,
    seq: u32,
    header: Seq<u8>,
    covered: Seq<u8>,
    tag: Seq<u8>,
)
    requires
        header.len() == 4,
        tag.len() == 16,
    ensures
        match cipher {
            Cipher::ChaCha20Poly1305 { main_key, .. } => {
                let nonce = seq![0u8, 0u8, 0u8, 0u8, 0u8, 0u8, 0u8, 0u8] + wire::be32(seq);
                let tag_key = Seq::new(
                    32,
                    |i: int| primitives::chacha20_keystream(main_key@, nonce, i),
                );
                let body = Seq::new(
                    covered.len(),
                    |i: int| covered[i] ^ primitives::chacha20_keystream(main_key@, nonce, 64 + i),
                );
                cipher.opened(seq, header, covered + tag) == (if tag == primitives::poly1305_tag(
                    tag_key,
                    header + covered,
                ) {
                    sealing::payload_of(body)
                } else {
                    Err(DecryptError::BadTag)
                })
            },
            Cipher::Aes128Gcm { key, iv } => {
                let nonce = iv@.take(4) + seq![0u8, 0u8, 0u8, 0u8] + wire::be32(seq);
                cipher.opened(seq, header, covered + tag) == (
                match primitives::aes128_gcm_opened(key@, nonce, header, covered + tag) {
                    Some(body) => sealing::payload_of(body),
                    None => Err(DecryptError::BadTag),
                })
            },
            Cipher::Aes256Gcm { key, iv } => {
                let nonce = iv@.take(4) + seq![0u8, 0u8, 0u8, 0u8] + wire::be32(seq);
                cipher.opened(seq, header, covered + tag) == (
                match primitives::aes256_gcm_opened(key@, nonce, header, covered + tag) {
                    Some(body) => sealing::payload_of(body),
                    None => Err(DecryptError::BadTag),
                })
            },
        },
{
    match cipher {
        Cipher::ChaCha20Poly1305 { main_key, .. } => {
            crate::laws::sealing::law_chacha20_opening(main_key@, seq, header, covered, tag);
        },
        Cipher::Aes128Gcm { key, iv } => {
            crate::laws::sealing::law_aes128_opening(key@, iv@, seq, header, covered + tag);
        },
        Cipher::Aes256Gcm { key, iv } => {
            crate::laws::sealing::law_aes256_opening(key@, iv@, seq, header, covered + tag);
        },
    }
}

/// Of a longer header ChaCha20-Poly1305 reads the first four bytes alone.
pub proof fn law_longer_header(
    main_key: [u8; 32],
    header_key: [u8; 32],
    seq: u32,
    header: Seq<u8>,
    behind: Seq<u8>,
    rest: Seq<u8>,
)
    requires
        header.len() == 4,
    ensures
        ({
            let cipher = Cipher::ChaCha20Poly1305 { main_key, header_key };
            &&& cipher.announced(seq, header + behind) == cipher.announced(seq, header)
            &&& cipher.opened(seq, header + behind, rest) == cipher.opened(seq, header, rest)
        }),
{
    assert((header + behind).take(4) =~= header.take(4));
}

/// An AES-GCM packet that is too short for a tag is opened like any other: by
/// AES-GCM, with the header as associated data.
pub proof fn law_aes_opens_any_packet(
    short_key: [u8; 16],
    key: [u8; 32],
    iv: [u8; 12],
    seq: u32,
    header: Seq<u8>,
    rest: Seq<u8>,
)
    ensures
        ({
            let nonce = iv@.take(4) + seq![0u8, 0u8, 0u8, 0u8] + wire::be32(seq);
            &&& (Cipher::Aes128Gcm { key: short_key, iv }).opened(seq, header, rest) == (
            match primitives::aes128_gcm_opened(short_key@, nonce, header, rest) {
                Some(body) => sealing::payload_of(body),
                None => Err(DecryptError::BadTag),
            })
            &&& (Cipher::Aes256Gcm { key, iv }).opened(seq, header, rest) == (
            match primitives::aes256_gcm_opened(key@, nonce, header, rest) {
                Some(body) => sealing::payload_of(body),
                None => Err(DecryptError::BadTag),
            })
        }),
{
    crate::laws::sealing::law_aes128_opening(short_key@, iv@, seq, header, rest);
    crate::laws::sealing::law_aes256_opening(key@, iv@, seq, header, rest);
}

/// How long packets are, and which a cipher takes.
pub proof fn law_packet_lengths(cipher: Cipher, payload_len: nat, header: Seq<u8>, rest: Seq<u8>)
    ensures
        ({
            let padding = cipher.packet_len(payload_len) - 4 - 1 - payload_len - 16;
            match cipher {
                Cipher::ChaCha20Poly1305 { .. } => {
                    &&& 4 <= padding < 12
                    &&& (1 + payload_len + padding) % 8 == 0
                    &&& cipher.fits(payload_len) <==> 64 + 1 + payload_len + padding <= 64
                        * 0xffff_ffff
                    &&& header.len() >= 4 ==> cipher.is_header(header)
                    &&& cipher.takes(header, rest) <==> header.len() >= 4 && 16 <= rest.len() && 64
                        + rest.len() - 16 <= 64 * 0xffff_ffff
                },
                _ => {
                    &&& 4 <= padding < 20
                    &&& (1 + payload_len + padding) % 16 == 0
                    &&& cipher.fits(payload_len) <==> 1 + payload_len + padding <= 0x10_0000_0000
                    &&& header.len() == 4 ==> cipher.is_header(header)
                    &&& cipher.takes(header, rest)
                },
            }
        }),
{
}

/// Whether a packet reads as a payload: its header announces the length of what
/// follows up to the tag, and what follows opens to the payload.
pub proof fn law_reads_as(cipher: Cipher, seq: u32, packet: Seq<u8>, payload: Seq<u8>)
    requires
        cipher.reads_as(seq, packet, payload),
    ensures
        packet.len() >= 20,
        packet.len() - 20 < 0x1_0000_0000 ==> cipher.announced(seq, packet.take(4)) == packet.len()
            - 20,
        cipher.opened(seq, packet.take(4), packet.skip(4)) == Ok::<Seq<u8>, DecryptError>(payload),
{
}

/// An encrypted packet is read in two parts: four bytes of header, then as many
/// bytes as it announces and 16 more. It gives what the cipher opens.
pub proof fn law_encrypted_packet_is_read_in_parts(
    cipher: Cipher,
    seq: u32,
    header: Seq<u8>,
    rest: Seq<u8>,
)
    requires
        header.len() == 4,
        rest.len() == cipher.announced(seq, header) + 16,
    ensures
        ({
            let start = EncPacketReadState::Header;
            &&& start.wf()
            &&& start.wanted() == 4
            &&& start.fed(cipher, seq, header) matches Ok(announced)
            &&& announced.wf()
            &&& announced is Body
            &&& announced.wanted() == cipher.announced(seq, header) + 16
            &&& match (announced.fed(cipher, seq, rest), cipher.opened(seq, header, rest)) {
                (Ok(read), Ok(payload)) => read == (EncPacketReadState::Done { payload })
                    && read.wanted() == 0,
                (Err(e), Err(refusal)) => e == refusal,
                _ => false,
            }
        }),
{
}

/// The model of reading holds what the reader holds.
pub proof fn law_encrypted_reader_is_its_content(header: Vec<u8>, announced: u32, payload: Vec<u8>)
    ensures
        EncPacketRead::Header@ == EncPacketReadState::Header,
        (EncPacketRead::Body { header, announced })@ == (EncPacketReadState::Body {
            header: header@,
            announced: announced as int,
        }),
        (EncPacketRead::Done { payload })@ == (EncPacketReadState::Done { payload: payload@ }),
{
}

} // verus!

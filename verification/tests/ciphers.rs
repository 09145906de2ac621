use fssh::cipher::{write_enc_packet, Cipher, EncPacketRead};
use fssh::sealing::{
    decrypt_length_aes128, decrypt_length_aes256, decrypt_length_chacha20, decrypt_payload_aes128,
    decrypt_payload_aes256, decrypt_payload_chacha20, encrypt_aes128, encrypt_aes256,
    encrypt_chacha20, make_nonce, seal_aes128, seal_aes256, seal_chacha20, DecryptError,
};

const PAYLOAD: &[u8] = b"\x05hello world";
const SEQ: u32 = 7;

fn counting<const N: usize>(from: u8) -> [u8; N] {
    let mut out = [0u8; N];
    for i in 0..N {
        out[i] = from + i as u8;
    }
    out
}

fn bytes(text: &str) -> Vec<u8> {
    hex::decode(text).unwrap()
}

fn all_ciphers() -> Vec<Cipher> {
    vec![
        Cipher::new("chacha20-poly1305@openssh.com", &counting::<64>(3)).unwrap(),
        Cipher::new("aes128-gcm@openssh.com", &counting::<28>(5)).unwrap(),
        Cipher::new("aes256-gcm@openssh.com", &counting::<44>(7)).unwrap(),
    ]
}

fn read_one(cipher: &Cipher, seq: &mut u32, stream: &mut &[u8]) -> Result<Vec<u8>, DecryptError> {
    let mut read = EncPacketRead::start();
    loop {
        if let EncPacketRead::Done { payload } = read {
            return Ok(payload);
        }
        let n = read.wanted() as usize;
        let part = stream[..n].to_vec();
        *stream = &stream[n..];
        read = read.feed(cipher, seq, part)?;
    }
}

#[test]
fn chacha20_seals_to_known_bytes() {
    let packet = seal_chacha20(&counting(0), &counting(32), SEQ, PAYLOAD, &counting::<11>(1));
    assert_eq!(
        hex::encode(&packet),
        "a39afcb223437d2622ef457e1b02c99cb38ed12f30b7363176ea378849c650c5c10382ebd3c6ecc0e02aa82d"
    );
    assert_eq!(decrypt_length_chacha20(&counting(32), SEQ, &packet), 24);
    assert_eq!(decrypt_length_chacha20(&counting(32), SEQ, &packet[..4]), 24);
    assert_eq!(
        decrypt_payload_chacha20(&counting(0), SEQ, &packet[..4], &packet[4..]),
        Ok(PAYLOAD.to_vec())
    );
}

#[test]
fn aes128_seals_to_known_bytes() {
    let packet = seal_aes128(&counting(0), &counting(100), SEQ, PAYLOAD, &counting::<19>(1));
    assert_eq!(
        hex::encode(&packet),
        "000000200aa9fafd3668800c51568d090335a9b707ec8eab87415b6d309ed02ca50feaf1d1ab298e247edd5f\
         39331e4413e9d389"
    );
    assert_eq!(decrypt_length_aes128(&packet[..4]), 32);
    assert_eq!(
        decrypt_payload_aes128(&counting(0), &counting(100), SEQ, &packet[4..], &packet[..4]),
        Ok(PAYLOAD.to_vec())
    );
}

#[test]
fn aes256_seals_to_known_bytes() {
    let packet = seal_aes256(&counting(0), &counting(100), SEQ, PAYLOAD, &counting::<19>(1));
    assert_eq!(
        hex::encode(&packet),
        "0000002072d357c07d4a487752b81c156494ea369cc9a4c44ab28aec93e0a19deb5d084966f87ca819f8e583\
         d3efda2a333222e4"
    );
    assert_eq!(decrypt_length_aes256(&packet[..4]), 32);
    assert_eq!(
        decrypt_payload_aes256(&counting(0), &counting(100), SEQ, &packet[4..], &packet[..4]),
        Ok(PAYLOAD.to_vec())
    );
}

#[test]
fn nonces_hold_the_sequence_number() {
    let iv = counting(100);
    assert_eq!(make_nonce(&iv, 0x0102_0304), [100, 101, 102, 103, 0, 0, 0, 0, 1, 2, 3, 4]);
    assert_ne!(make_nonce(&iv, 1), make_nonce(&iv, 2));
    assert_ne!(make_nonce(&iv, 0), make_nonce(&iv, u32::MAX));
}

#[test]
fn no_nonce_comes_twice_in_a_row_of_packets() {
    let cipher = &all_ciphers()[1];
    let iv = counting(21);
    let mut seq = u32::MAX - 2;
    let mut nonces = Vec::new();
    for _ in 0..6 {
        nonces.push(make_nonce(&iv, seq));
        write_enc_packet(cipher, &mut seq, PAYLOAD);
    }
    assert_eq!(seq, 3);
    for i in 0..nonces.len() {
        for j in 0..i {
            assert_ne!(nonces[i], nonces[j]);
        }
    }
}

#[test]
fn random_padding_opens_to_the_payload() {
    let (key, header_key, iv) = (counting::<32>(9), counting::<32>(50), counting::<12>(80));
    let short = counting::<16>(9);
    let one = encrypt_chacha20(&key, &header_key, 3, PAYLOAD);
    let two = encrypt_chacha20(&key, &header_key, 3, PAYLOAD);
    assert_ne!(one, two);
    assert_eq!(one.len(), 44);
    for packet in [one, two] {
        assert_eq!(decrypt_payload_chacha20(&key, 3, &packet[..4], &packet[4..]), Ok(PAYLOAD.to_vec()));
    }
    let packet = encrypt_aes128(&short, &iv, 3, PAYLOAD);
    assert_eq!(packet.len(), 52);
    assert_eq!(decrypt_payload_aes128(&short, &iv, 3, &packet[4..], &packet[..4]), Ok(PAYLOAD.to_vec()));
    let packet = encrypt_aes256(&key, &iv, 3, PAYLOAD);
    assert_eq!(packet.len(), 52);
    assert_eq!(decrypt_payload_aes256(&key, &iv, 3, &packet[4..], &packet[..4]), Ok(PAYLOAD.to_vec()));
}

#[test]
fn a_changed_packet_has_a_bad_tag() {
    for cipher in all_ciphers() {
        let packet = cipher.encrypt(SEQ, PAYLOAD);
        for at in [0, 4, packet.len() - 17, packet.len() - 1] {
            let mut changed = packet.clone();
            changed[at] ^= 1;
            assert_eq!(
                cipher.decrypt_payload(SEQ, &changed[..4], &changed[4..]),
                Err(DecryptError::BadTag)
            );
        }
        assert_eq!(
            cipher.decrypt_payload(SEQ + 1, &packet[..4], &packet[4..]),
            Err(DecryptError::BadTag)
        );
        assert_eq!(
            cipher.decrypt_payload(SEQ, &packet[..4], &packet[4..]),
            Ok(PAYLOAD.to_vec())
        );
    }
}

#[test]
fn too_much_padding_is_refused() {
    let bad = bytes("a39afca2212777202ae64c39c3e778bbb8183e25bb9e758a73a70c85");
    assert_eq!(
        decrypt_payload_chacha20(&counting(0), SEQ, &bad[..4], &bad[4..]),
        Err(DecryptError::BadPadding)
    );
    let empty = bytes("a39afcaab75c7bc07f6fd09ff986f827baf50ff1");
    assert_eq!(
        decrypt_payload_chacha20(&counting(0), SEQ, &empty[..4], &empty[4..]),
        Err(DecryptError::BadPadding)
    );
    let bad = bytes("0000000810cdf0fb3e61894b0ef6ceed138af29010cc2e3863599679");
    assert_eq!(
        decrypt_payload_aes128(&counting(0), &counting(100), SEQ, &bad[4..], &bad[..4]),
        Err(DecryptError::BadPadding)
    );
    let empty = bytes("00000000b9575a7f521dd6abfd4a7ba969293ba5");
    assert_eq!(
        decrypt_payload_aes256(&counting(0), &counting(100), SEQ, &empty[4..], &empty[..4]),
        Err(DecryptError::BadPadding)
    );
}

#[test]
fn a_name_and_enough_key_material_make_a_cipher() {
    let key = counting::<64>(0);
    match Cipher::new("chacha20-poly1305@openssh.com", &key) {
        Some(Cipher::ChaCha20Poly1305 { main_key, header_key }) => {
            assert_eq!(main_key, counting::<32>(0));
            assert_eq!(header_key, counting::<32>(32));
        }
        _ => panic!("not ChaCha20-Poly1305"),
    }
    match Cipher::new("aes128-gcm@openssh.com", &key) {
        Some(Cipher::Aes128Gcm { key, iv }) => {
            assert_eq!(key, counting::<16>(0));
            assert_eq!(iv, counting::<12>(16));
        }
        _ => panic!("not AES-128-GCM"),
    }
    for name in ["aes256-gcm@openssh.com", "aes192-gcm@openssh.com"] {
        match Cipher::new(name, &key) {
            Some(Cipher::Aes256Gcm { key, iv }) => {
                assert_eq!(key, counting::<32>(0));
                assert_eq!(iv, counting::<12>(32));
            }
            _ => panic!("not AES-256-GCM"),
        }
    }
    assert!(Cipher::new("chacha20-poly1305@openssh.com", &key[..63]).is_none());
    assert!(Cipher::new("aes128-gcm@openssh.com", &key[..27]).is_none());
    assert!(Cipher::new("aes256-gcm@openssh.com", &key[..43]).is_none());
    assert!(Cipher::new("aes256-ctr", &key).is_none());
    assert!(Cipher::new("", &key).is_none());
}

#[test]
fn ciphers_seal_like_their_functions() {
    let packet = Cipher::new("aes128-gcm@openssh.com", &counting::<28>(1)).unwrap().encrypt(SEQ, PAYLOAD);
    assert_eq!(decrypt_length_aes128(&packet[..4]), 32);
    assert_eq!(
        decrypt_payload_aes128(&counting(1), &counting(17), SEQ, &packet[4..], &packet[..4]),
        Ok(PAYLOAD.to_vec())
    );
    let packet = Cipher::new("chacha20-poly1305@openssh.com", &counting::<64>(1)).unwrap().encrypt(SEQ, PAYLOAD);
    assert_eq!(decrypt_length_chacha20(&counting(33), SEQ, &packet), 24);
    let cipher = Cipher::new("aes256-gcm@openssh.com", &counting::<44>(1)).unwrap();
    let packet = cipher.encrypt(SEQ, PAYLOAD);
    assert_eq!(cipher.decrypt_length(SEQ, &packet[..4]), 32);
    assert_eq!(
        decrypt_payload_aes256(&counting(1), &counting(33), SEQ, &packet[4..], &packet[..4]),
        Ok(PAYLOAD.to_vec())
    );
}

#[test]
fn equal_key_material_makes_equal_ciphers() {
    for name in ["chacha20-poly1305@openssh.com", "aes128-gcm@openssh.com", "aes256-gcm@openssh.com"] {
        let one = Cipher::new(name, &counting::<64>(0)).unwrap();
        let two = Cipher::new(name, &counting::<64>(0)).unwrap();
        let packet = one.clone().encrypt(1, PAYLOAD);
        assert_eq!(two.decrypt_payload(1, &packet[..4], &packet[4..]), Ok(PAYLOAD.to_vec()));
    }
}

#[test]
fn a_row_of_packets_is_read_back() {
    for cipher in all_ciphers() {
        let mut seq = u32::MAX - 1;
        let mut stream = Vec::new();
        let payloads: Vec<Vec<u8>> = (0..5u8).map(|n| vec![n; 3 * n as usize]).collect();
        for payload in &payloads {
            stream.extend_from_slice(&write_enc_packet(&cipher, &mut seq, payload));
        }
        assert_eq!(seq, 3);
        stream.extend_from_slice(b"rest");
        let mut seq = u32::MAX - 1;
        let mut left: &[u8] = &stream;
        for payload in &payloads {
            assert_eq!(read_one(&cipher, &mut seq, &mut left), Ok(payload.clone()));
        }
        assert_eq!(seq, 3);
        assert_eq!(left, b"rest");
    }
}

#[test]
fn a_refused_packet_is_not_counted() {
    for cipher in all_ciphers() {
        let mut seq = 5;
        let mut packet = write_enc_packet(&cipher, &mut seq, PAYLOAD);
        let last = packet.len() - 1;
        packet[last] ^= 0x80;
        let mut seq = 5;
        let mut left: &[u8] = &packet;
        assert_eq!(read_one(&cipher, &mut seq, &mut left), Err(DecryptError::BadTag));
        assert_eq!(seq, 5);
    }
}

#[test]
fn reading_asks_for_header_and_then_body_with_tag() {
    for cipher in all_ciphers() {
        let packet = cipher.encrypt(0, PAYLOAD);
        let mut seq = 0;
        let read = EncPacketRead::start();
        assert_eq!(read.wanted(), 4);
        let read = read.feed(&cipher, &mut seq, packet[..4].to_vec()).unwrap();
        assert_eq!(read.wanted(), packet.len() as u64 - 4);
        assert_eq!(seq, 0);
        let read = read.feed(&cipher, &mut seq, packet[4..].to_vec()).unwrap();
        assert_eq!(read.wanted(), 0);
        assert_eq!(seq, 1);
    }
}

#[test]
fn there_is_a_longest_payload() {
    let ciphers = all_ciphers();
    assert!(ciphers[0].can_seal(0) && ciphers[1].can_seal(32768));
    let chacha_max = 0x3f_ffff_ffc0usize - 64 - 1 - 8;
    assert!(!ciphers[0].can_seal(chacha_max + 8));
    assert!(!ciphers[1].can_seal(1 << 36));
    assert!(!ciphers[2].can_seal(usize::MAX));
    assert!(ciphers[2].can_seal((1 << 36) - 1 - 16));
}

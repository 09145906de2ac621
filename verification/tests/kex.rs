use fssh::algorithms::{offered_ciphers, DEFAULT_CIPHERS};
use fssh::cipher::{write_enc_packet, Cipher};
use fssh::exchange::{authenticate, complete, ExchangeError, Opening, Refusal, SessionError};
use fssh::kex::{
    build_kexinit, client_kexinit, ecdh_init, encode_secret, parse_ecdh_reply, parse_kexinit,
    parse_named_blob, take_version_byte, verify_host, AgreementError, EcdhReply, HostKeyError, KeyPair,
    Transcript, CLIENT_VERSION,
};
use fssh::keys::{
    choose_cipher, derive_ssh_key, make_ciphers, negotiate, NegotiationError, CLIENT_LABEL,
    SERVER_LABEL,
};
use fssh::primitives::random_bytes;
use fssh::wire::push_ssh_bytes;
use ring::agreement;
use ring::signature::{Ed25519KeyPair, KeyPair as SigningPair};

const HASH: &str = "ab27b729d9cc4cb1c00960700446924159e9298d0f952aee3d55408b8e0b1b71";

fn bytes(text: &str) -> Vec<u8> {
    hex::decode(text).unwrap()
}

fn strings(parts: &[&[u8]]) -> Vec<u8> {
    let mut out = Vec::new();
    for part in parts {
        push_ssh_bytes(&mut out, part);
    }
    out
}

fn counting(n: u8) -> Vec<u8> {
    (0..n).collect()
}

fn transcript(server_version: &[u8]) -> Transcript {
    Transcript {
        server_version: server_version.to_vec(),
        client_kexinit: b"client kexinit".to_vec(),
        server_kexinit: b"server kexinit".to_vec(),
        host_key: b"host key".to_vec(),
        client_public: b"client public".to_vec(),
        server_public: b"server public".to_vec(),
        secret: b"\x00\x80secret".to_vec(),
    }
}

fn host() -> Ed25519KeyPair {
    Ed25519KeyPair::from_seed_unchecked(&[7u8; 32]).unwrap()
}

fn host_key(pair: &Ed25519KeyPair) -> Vec<u8> {
    strings(&[b"ssh-ed25519", pair.public_key().as_ref()])
}

fn signature(pair: &Ed25519KeyPair, hash: &[u8]) -> Vec<u8> {
    strings(&[b"ssh-ed25519", pair.sign(hash).as_ref()])
}

#[test]
fn a_version_line_ends_with_a_newline() {
    let mut line = Vec::new();
    let mut ends = Vec::new();
    for byte in b"SSH-2.0-x\r\n" {
        ends.push(take_version_byte(&mut line, *byte));
    }
    assert_eq!(line, b"SSH-2.0-x\r\n");
    assert_eq!(ends.iter().filter(|end| **end).count(), 1);
    assert_eq!(ends[10], true);
    assert_eq!(CLIENT_VERSION, "SSH-2.0-OpenSSH_10.2p1, LibreSSL 3.3.6\r\n");
}

#[test]
fn the_clients_proposal() {
    let payload = build_kexinit(&counting(16), "a,b");
    let mut expected = vec![20u8];
    expected.extend_from_slice(&counting(16));
    expected.extend_from_slice(&strings(&[
        b"curve25519-sha256,curve25519-sha256@libssh.org,ext-info-c",
        b"ssh-ed25519",
        b"a,b",
        b"a,b",
        b"none",
        b"none",
        b"none",
        b"none",
        b"",
        b"",
    ]));
    expected.extend_from_slice(&[0; 5]);
    assert_eq!(payload, expected);
}

#[test]
fn a_proposal_has_a_random_cookie() {
    let one = client_kexinit("x");
    let two = client_kexinit("x");
    assert_eq!(one[0], 20);
    assert_ne!(&one[1..17], &two[1..17]);
    assert_eq!(&one[17..], &two[17..]);
    assert_eq!(one, build_kexinit(&one[1..17], "x"));
    assert_ne!(random_bytes(16), vec![0; 16]);
    assert_eq!(random_bytes(3).len(), 3);
}

#[test]
fn a_proposal_offers_its_ciphers() {
    let lists = parse_kexinit(&build_kexinit(&counting(16), "c1,c2")).unwrap();
    assert_eq!(lists.client_to_server, b"c1,c2");
    assert_eq!(lists.server_to_client, b"c1,c2");

    let mut payload = vec![20u8; 17];
    payload.extend_from_slice(&strings(&[b"k", b"h", b"up", b"down"]));
    let lists = parse_kexinit(&payload).unwrap();
    assert_eq!(lists.client_to_server, b"up");
    assert_eq!(lists.server_to_client, b"down");
    assert!(parse_kexinit(&payload[..payload.len() - 1]).is_none());
    assert!(parse_kexinit(&payload[..20]).is_none());
    assert!(parse_kexinit(&[]).is_none());
}

#[test]
fn the_key_agreement_messages() {
    assert_eq!(ecdh_init(&[9, 8]), vec![30, 0, 0, 0, 2, 9, 8]);
    let mut payload = vec![31u8];
    payload.extend_from_slice(&strings(&[b"host", b"public", b"signature"]));
    let reply = parse_ecdh_reply(&payload).unwrap();
    assert_eq!(reply.host_key, b"host");
    assert_eq!(reply.public_key, b"public");
    assert_eq!(reply.signature, b"signature");
    assert!(parse_ecdh_reply(&payload[..payload.len() - 1]).is_none());
    assert!(parse_ecdh_reply(&[31]).is_none());
}

#[test]
fn a_secret_is_a_positive_number() {
    assert_eq!(encode_secret(&[0x80, 1]), vec![0, 0x80, 1]);
    assert_eq!(encode_secret(&[0xff]), vec![0, 0xff]);
    assert_eq!(encode_secret(&[0x7f, 1]), vec![0x7f, 1]);
    assert_eq!(encode_secret(&[0, 1]), vec![0, 1]);
}

#[test]
fn both_ends_agree_on_the_secret() {
    for _ in 0..8 {
        let client = KeyPair::generate().unwrap();
        let rng = ring::rand::SystemRandom::new();
        let server = agreement::EphemeralPrivateKey::generate(&agreement::X25519, &rng).unwrap();
        let server_public = server.compute_public_key().unwrap();
        let client_public =
            agreement::UnparsedPublicKey::new(&agreement::X25519, client.public_key().to_vec());
        assert_eq!(client.public_key().len(), 32);
        let expected =
            agreement::agree_ephemeral(server, &client_public, |secret| encode_secret(secret)).unwrap();
        assert_eq!(client.agree(server_public.as_ref()), Ok(expected));
    }
}

#[test]
fn there_is_no_agreement_with_a_bad_key() {
    assert_eq!(KeyPair::generate().unwrap().agree(&[1; 31]), Err(AgreementError::NoAgreement));
    assert_eq!(KeyPair::generate().unwrap().agree(&[0; 32]), Err(AgreementError::NoAgreement));
    assert_eq!(KeyPair::generate().unwrap().agree(&[]), Err(AgreementError::NoAgreement));
}

fn opening() -> Opening {
    Opening {
        server_version: b"SSH-2.0-x\n".to_vec(),
        client_kexinit: b"client".to_vec(),
        server_kexinit: b"server".to_vec(),
    }
}

fn reply(public_key: &[u8]) -> EcdhReply {
    EcdhReply {
        host_key: b"host".to_vec(),
        public_key: public_key.to_vec(),
        signature: b"signature".to_vec(),
    }
}

#[test]
fn an_exchange_is_completed_from_one_reply() {
    let client = KeyPair::generate().unwrap();
    let client_public = client.public_key().to_vec();
    let rng = ring::rand::SystemRandom::new();
    let server = agreement::EphemeralPrivateKey::generate(&agreement::X25519, &rng).unwrap();
    let server_public = server.compute_public_key().unwrap().as_ref().to_vec();
    let t = match complete(opening(), client, &reply(&server_public)) {
        Ok(t) => t,
        Err(_) => panic!("no agreement"),
    };
    let peer = agreement::UnparsedPublicKey::new(&agreement::X25519, client_public.clone());
    let secret = agreement::agree_ephemeral(server, &peer, |secret| encode_secret(secret)).unwrap();
    assert_eq!(t.server_version, b"SSH-2.0-x\n");
    assert_eq!(t.client_kexinit, b"client");
    assert_eq!(t.server_kexinit, b"server");
    assert_eq!(t.host_key, b"host");
    assert_eq!(t.client_public, client_public);
    assert_eq!(t.server_public, server_public);
    assert_eq!(t.secret, secret);
    assert!(matches!(
        complete(opening(), KeyPair::generate().unwrap(), &reply(&[0; 32])),
        Err(AgreementError::NoAgreement)
    ));
}

#[test]
fn key_pairs_differ() {
    let one = KeyPair::generate().unwrap();
    let two = KeyPair::generate().unwrap();
    assert_ne!(one.public_key(), two.public_key());
}

#[test]
fn the_exchange_hash() {
    let hash = transcript(b"SSH-2.0-OpenSSH_9.6\r\n").exchange_hash().unwrap();
    assert_eq!(
        hex::encode(&hash),
        "df055e390b5ff4af4bc9708e2023823c7f26f80a0051028a2134df5aefb06fba"
    );
    let hash = transcript(b" SSH-2.0-\xffx\r\n").exchange_hash().unwrap();
    assert_eq!(
        hex::encode(&hash),
        "9183cc9f9b54dd79a2dc2336cc25379690fe89dae804d4c6a8f5c15dab76adfe"
    );
}

#[test]
fn every_part_goes_into_the_hash() {
    let base = transcript(b"v\n").hash_input("v\n");
    assert_eq!(transcript(b"v\n").hash_input(" v"), base);
    assert_ne!(transcript(b"v\n").hash_input("w"), base);
    let mut t = transcript(b"v\n");
    t.client_kexinit = b"client".to_vec();
    assert_ne!(t.hash_input("v"), base);
    let mut t = transcript(b"v\n");
    t.client_kexinit = b"client kexinits".to_vec();
    t.server_kexinit = b"erver kexinit".to_vec();
    assert_ne!(t.hash_input("v"), base);
    let mut t = transcript(b"v\n");
    t.secret.push(0);
    assert_ne!(t.hash_input("v"), base);
}

#[test]
fn names_stand_before_blobs() {
    let named = parse_named_blob(&strings(&[b"ssh-ed25519", b"blob"])).unwrap();
    assert_eq!(named.name, b"ssh-ed25519");
    assert_eq!(named.blob, b"blob");
    assert!(parse_named_blob(&strings(&[b"ssh-ed25519"])).is_none());
    assert!(parse_named_blob(&[0, 0]).is_none());
}

#[test]
fn only_the_hosts_signature_counts() {
    let pair = host();
    let hash = bytes(HASH);
    let key = host_key(&pair);
    let signed = signature(&pair, &hash);
    assert_eq!(verify_host(&key, &signed, &hash), Ok(()));
    assert_eq!(verify_host(&key, &signed, &[0; 32]), Err(HostKeyError::BadSignature));
    let other = Ed25519KeyPair::from_seed_unchecked(&[8u8; 32]).unwrap();
    assert_eq!(verify_host(&host_key(&other), &signed, &hash), Err(HostKeyError::BadSignature));
    assert_eq!(verify_host(&key, &signature(&other, &hash), &hash), Err(HostKeyError::BadSignature));
    assert_eq!(verify_host(&key, &signed[..40], &hash), Err(HostKeyError::Malformed));
    assert_eq!(verify_host(&key[..20], &signed, &hash), Err(HostKeyError::Malformed));
    assert_eq!(
        verify_host(&strings(&[b"ssh-ed25519", b"short"]), &signed, &hash),
        Err(HostKeyError::BadSignature)
    );
}

#[test]
fn a_published_signature_is_valid() {
    let key = strings(&[
        b"ssh-ed25519",
        &bytes("3d4017c3e843895a92b70aa74d1b7ebc9c982ccf2ec4968cc0cd55f12af4660c"),
    ]);
    let signed = strings(&[
        b"ssh-ed25519",
        &bytes(
            "92a009a9f0d4cab8720e820b5f642540a2b27b5416503f8fb3762223ebdb69da\
             085ac1e43e15996e458f3613d0f11d8c387b2eaeb4302aeeb00d291612bb0c00",
        ),
    ]);
    assert_eq!(verify_host(&key, &signed, &[0x72]), Ok(()));
}

#[test]
fn key_material_is_derived_block_by_block() {
    let hash = bytes(HASH);
    let k = counting(32);
    assert_eq!(
        hex::encode(derive_ssh_key(&k, &hash, b'C', &hash, 80)),
        "e824bfaf890ed778c3fa75fee586b76767eb9c7464df654a74be050139f4516b\
         8c81ee941cdcfb46eb37a0cf8498b8cd8a0dbe82a557504c63dc973c8275cad3\
         8f6ff0516087ec3a418110ac97625a29"
    );
    assert_eq!(
        hex::encode(derive_ssh_key(&k, &hash, b'D', &hash, 64)),
        "08118574d6adc586c3f5de4bb7b9ba83f01d26779815523ad24b252bf7d3c384\
         d427fb40e72ba744306c0968a1cc6a5ab8a0f2721a5f65fff15d109c834d171a"
    );
    assert_eq!(derive_ssh_key(&[1, 2], b"hh", b'A', b"session", 5), bytes("1ea6671852"));
    assert_eq!(derive_ssh_key(&k, &hash, b'C', &hash, 0), Vec::<u8>::new());
}

#[test]
fn a_shorter_key_begins_a_longer_one() {
    let hash = bytes(HASH);
    let long = derive_ssh_key(&[5], &hash, b'C', &hash, 100);
    for len in [1usize, 31, 32, 33, 64, 99] {
        assert_eq!(derive_ssh_key(&[5], &hash, b'C', &hash, len), &long[..len]);
    }
}

#[test]
fn a_cipher_is_chosen() {
    let offer = "chacha20-poly1305@openssh.com,aes256-gcm@openssh.com,weird,aes192-gcm@openssh.com";
    match choose_cipher(offer, "aes256-gcm@openssh.com,chacha20-poly1305@openssh.com") {
        Ok(choice) => {
            assert_eq!(choice.name, "chacha20-poly1305@openssh.com");
            assert_eq!(choice.key_len, 64);
        }
        Err(_) => panic!("no choice"),
    }
    assert!(matches!(choose_cipher(offer, "none"), Err(NegotiationError::NoCommonCipher)));
    assert!(matches!(choose_cipher("", ""), Err(NegotiationError::NoCommonCipher)));
    match choose_cipher(offer, "weird") {
        Err(NegotiationError::UnsupportedCipher { name }) => assert_eq!(name, "weird"),
        _ => panic!("weird is no cipher"),
    }
    assert!(matches!(
        choose_cipher(offer, "aes192-gcm@openssh.com"),
        Err(NegotiationError::UnsupportedCipher { .. })
    ));
}

#[test]
fn an_excluded_cipher_is_not_chosen() {
    let server = "aes128-gcm@openssh.com,chacha20-poly1305@openssh.com,aes256-gcm@openssh.com,";
    let names = ["chacha20-poly1305@openssh.com", "aes256-gcm@openssh.com", "aes128-gcm@openssh.com"];
    for excluded in names {
        match choose_cipher(&offered_ciphers(&None, &Some(excluded.to_string())), server) {
            Ok(choice) => assert_ne!(choice.name, excluded),
            Err(_) => panic!("two are left"),
        }
    }
    let none_left = offered_ciphers(&None, &Some(names.join(",")));
    assert!(matches!(choose_cipher(&none_left, server), Err(NegotiationError::NoCommonCipher)));
}

#[test]
fn the_servers_list_is_read_as_text() {
    match negotiate("aes128-gcm@openssh.com", b"x,aes128-gcm@openssh.com") {
        Ok(choice) => assert_eq!((choice.name.as_str(), choice.key_len), ("aes128-gcm@openssh.com", 28)),
        Err(_) => panic!("no choice"),
    }
    match negotiate("aes128-\u{fffd}", b"y,aes128-\xff") {
        Ok(choice) => assert_eq!(choice.name, "aes128-\u{fffd}"),
        Err(_) => panic!("no choice"),
    }
    assert!(matches!(negotiate("a", b"\xff"), Err(NegotiationError::NoCommonCipher)));
}

#[test]
fn ciphers_are_made_from_derived_keys() {
    let hash = bytes(HASH);
    let k = counting(32);
    assert_eq!((CLIENT_LABEL, SERVER_LABEL), (b'C', b'D'));
    let made = make_ciphers("chacha20-poly1305@openssh.com", 64, &k, &hash).unwrap();
    let key_c = derive_ssh_key(&k, &hash, b'C', &hash, 64);
    let key_d = derive_ssh_key(&k, &hash, b'D', &hash, 64);
    match (made.client_to_server, made.server_to_client) {
        (
            Cipher::ChaCha20Poly1305 { main_key: m1, header_key: h1 },
            Cipher::ChaCha20Poly1305 { main_key: m2, header_key: h2 },
        ) => {
            assert_eq!([m1, h1].concat(), key_c);
            assert_eq!([m2, h2].concat(), key_d);
        }
        _ => panic!("not ChaCha20-Poly1305"),
    }
    assert!(make_ciphers("aes256-gcm@openssh.com", 43, &k, &hash).is_none());
    assert!(make_ciphers("aes256-gcm@openssh.com", 44, &k, &hash).is_some());
    assert!(make_ciphers("unknown", 64, &k, &hash).is_none());
}

fn signed_transcript(ciphers: &[u8]) -> (Transcript, Vec<u8>) {
    let pair = host();
    let mut t = transcript(b"SSH-2.0-server\r\n");
    t.host_key = host_key(&pair);
    t.server_kexinit = vec![20u8; 17];
    t.server_kexinit.extend_from_slice(&strings(&[b"kex", b"ssh-ed25519", ciphers, b"other"]));
    let hash = t.exchange_hash().unwrap();
    (t, signature(&pair, &hash))
}

#[test]
fn an_authentic_exchange_gives_a_session() {
    for name in ["chacha20-poly1305@openssh.com", "aes256-gcm@openssh.com", "aes128-gcm@openssh.com"] {
        let (t, signed) = signed_transcript(name.as_bytes());
        let hash = t.exchange_hash().unwrap();
        let secret = t.secret.clone();
        let exchange = match authenticate(t, &signed) {
            Ok(exchange) => exchange,
            Err(_) => panic!("not authentic"),
        };
        assert_eq!(exchange.transcript().secret, secret);
        let session = match exchange.session(DEFAULT_CIPHERS) {
            Ok(session) => session,
            Err(_) => panic!("no session"),
        };
        assert_eq!(session.name, name);
        let server_end = Cipher::new(name, &derive_ssh_key(&secret, &hash, b'C', &hash, 64)).unwrap();
        let mut seq = 3;
        let packet = write_enc_packet(&session.ciphers.client_to_server, &mut seq, b"\x05hello");
        assert_eq!(
            server_end.decrypt_payload(3, &packet[..4], &packet[4..]),
            Ok(b"\x05hello".to_vec())
        );
    }
}

#[test]
fn a_forged_exchange_gives_nothing() {
    let (mut t, signed) = signed_transcript(b"aes128-gcm@openssh.com");
    t.client_public.push(1);
    assert!(matches!(
        authenticate(t, &signed),
        Err(Refusal { error: ExchangeError::HostKey(HostKeyError::BadSignature), .. })
    ));
    let (t, _) = signed_transcript(b"aes128-gcm@openssh.com");
    match authenticate(t, b"no signature") {
        Err(refusal) => {
            assert_eq!(refusal.error, ExchangeError::HostKey(HostKeyError::Malformed));
            assert_eq!(refusal.transcript.client_public, b"client public");
        }
        Ok(_) => panic!("authentic without a signature"),
    }
}

#[test]
fn a_session_needs_a_common_cipher() {
    let (t, signed) = signed_transcript(b"aes128-gcm@openssh.com,aes192-gcm@openssh.com,aes128-cbc");
    let exchange = match authenticate(t, &signed) {
        Ok(exchange) => exchange,
        Err(_) => panic!("not authentic"),
    };
    assert!(matches!(
        exchange.session("aes256-gcm@openssh.com"),
        Err(SessionError::NoCommonCipher)
    ));
    match exchange.session("aes192-gcm@openssh.com") {
        Err(SessionError::UnsupportedCipher { name }) => assert_eq!(name, "aes192-gcm@openssh.com"),
        _ => panic!("no keys are derived for it"),
    }
    match exchange.session("aes128-cbc") {
        Err(SessionError::UnsupportedCipher { name }) => assert_eq!(name, "aes128-cbc"),
        _ => panic!("there is no such cipher"),
    }
    let pair = host();
    let mut t = transcript(b"SSH-2.0-server\r\n");
    t.host_key = host_key(&pair);
    let hash = t.exchange_hash().unwrap();
    let exchange = match authenticate(t, &signature(&pair, &hash)) {
        Ok(exchange) => exchange,
        Err(_) => panic!("not authentic"),
    };
    assert!(matches!(exchange.session("x"), Err(SessionError::MalformedProposal)));
}

use fssh::algorithms::DEFAULT_CIPHERS;
use fssh::cipher::Cipher;
use fssh::exchange::{ExchangeError, Session, SessionError};
use fssh::handshake::{take_proposal, Handshake, HandshakeError, Step};
use fssh::kex::{
    build_kexinit, ecdh_init, encode_secret, parse_kexinit, AgreementError, HostKeyError, KeyPair,
    Transcript,
};
use fssh::keys::derive_ssh_key;
use fssh::message::{new_keys, MessageError, SshMessage};
use fssh::wire::{pop_ssh_bytes, push_ssh_bytes};
use ring::agreement;
use ring::signature::{Ed25519KeyPair, KeyPair as SigningPair};

const VERSION: &[u8] = b"SSH-2.0-server\r\n";

fn strings(parts: &[&[u8]]) -> Vec<u8> {
    let mut out = Vec::new();
    for part in parts {
        push_ssh_bytes(&mut out, part);
    }
    out
}

fn host() -> Ed25519KeyPair {
    Ed25519KeyPair::from_seed_unchecked(&[7u8; 32]).unwrap()
}

fn go_on(step: Result<Step, HandshakeError>) -> (Handshake, Vec<u8>) {
    match step {
        Ok(Step::Send { next, payload }) => (next, payload),
        _ => panic!("the exchange does not go on"),
    }
}

/// A server's answer to the client's public key, with the secret and the hash.
struct Answer {
    reply: Vec<u8>,
    secret: Vec<u8>,
    hash: Vec<u8>,
}

fn answer(proposal: &[u8], server_kexinit: &[u8], ecdh_init: &[u8], signer: &Ed25519KeyPair) -> Answer {
    let mut offset = 1;
    let client_public = pop_ssh_bytes(ecdh_init, &mut offset).to_vec();
    let rng = ring::rand::SystemRandom::new();
    let private = agreement::EphemeralPrivateKey::generate(&agreement::X25519, &rng).unwrap();
    let server_public = private.compute_public_key().unwrap().as_ref().to_vec();
    let peer = agreement::UnparsedPublicKey::new(&agreement::X25519, client_public.clone());
    let secret = agreement::agree_ephemeral(private, &peer, |s| encode_secret(s)).unwrap();
    let host_key = strings(&[b"ssh-ed25519", host().public_key().as_ref()]);
    let hash = Transcript {
        server_version: VERSION.to_vec(),
        client_kexinit: proposal.to_vec(),
        server_kexinit: server_kexinit.to_vec(),
        host_key: host_key.clone(),
        client_public,
        server_public: server_public.clone(),
        secret: secret.clone(),
    }
    .exchange_hash()
    .unwrap();
    let signature = strings(&[b"ssh-ed25519", signer.sign(&hash).as_ref()]);
    let mut reply = vec![31u8];
    reply.extend_from_slice(&strings(&[&host_key, &server_public, &signature]));
    Answer { reply, secret, hash }
}

/// Runs the client against a server with this list of ciphers.
fn run(offered: &str, server_list: &str) -> (Result<Session, SessionError>, Answer) {
    let (handshake, proposal) = Handshake::start(VERSION.to_vec(), offered);
    let server_kexinit = build_kexinit(&[9; 16], server_list);
    let (handshake, sent) = go_on(handshake.step(&server_kexinit));
    let answer = answer(&proposal, &server_kexinit, &sent, &host());
    let (handshake, sent) = go_on(handshake.step(&answer.reply));
    assert_eq!(sent, new_keys());
    match handshake.step(&[21]) {
        Ok(Step::Settled { session }) => (Ok(session), answer),
        Err(HandshakeError::NoSession(e)) => (Err(e), answer),
        _ => panic!("neither a session nor the lack of one"),
    }
}

#[test]
fn the_exchange_begins_with_the_proposal() {
    let (handshake, proposal) = Handshake::start(VERSION.to_vec(), "a,b");
    assert_eq!(handshake.due(), SshMessage::KexInit);
    assert!(handshake.signed_transcript().is_none());
    assert_eq!(proposal, build_kexinit(&proposal[1..17], "a,b"));
    assert_eq!(parse_kexinit(&proposal).unwrap().client_to_server, b"a,b");
}

#[test]
fn a_whole_exchange_gives_the_session() {
    for name in DEFAULT_CIPHERS.split(',') {
        let (session, answer) = run(DEFAULT_CIPHERS, name);
        let session = match session {
            Ok(session) => session,
            Err(_) => panic!("no session"),
        };
        assert_eq!(session.name, name);
        for (label, cipher) in [
            (b'C', &session.ciphers.client_to_server),
            (b'D', &session.ciphers.server_to_client),
        ] {
            let key = derive_ssh_key(&answer.secret, &answer.hash, label, &answer.hash, 64);
            let server_end = Cipher::new(name, &key).unwrap();
            let packet = server_end.encrypt(3, b"\x05hello");
            assert_eq!(
                cipher.decrypt_payload(3, &packet[..4], &packet[4..]),
                Ok(b"\x05hello".to_vec())
            );
        }
    }
}

#[test]
fn the_session_is_found_with_the_list_in_the_proposal() {
    let aes = "aes128-gcm@openssh.com";
    match run(aes, DEFAULT_CIPHERS).0 {
        Ok(session) => assert_eq!(session.name, aes),
        Err(_) => panic!("no session"),
    }
    assert!(matches!(run(aes, "none").0, Err(SessionError::NoCommonCipher)));
    match run("weird", "weird").0 {
        Err(SessionError::UnsupportedCipher { name }) => assert_eq!(name, "weird"),
        _ => panic!("weird is no cipher"),
    }
}

#[test]
fn each_phase_takes_one_kind_of_message() {
    for number in [1u8, 2, 21, 30, 31, 94] {
        let (handshake, _) = Handshake::start(VERSION.to_vec(), "x");
        match handshake.step(&[number]) {
            Err(HandshakeError::Message(e)) => assert_eq!(e, MessageError::Unexpected(number)),
            _ => panic!("taken for a proposal"),
        }
    }
    let (handshake, _) = Handshake::start(VERSION.to_vec(), "x");
    assert!(matches!(handshake.step(&[]), Err(HandshakeError::Message(MessageError::Empty))));

    let (handshake, _) = Handshake::start(VERSION.to_vec(), "x");
    let (handshake, _) = go_on(handshake.step(&[20]));
    assert_eq!(handshake.due(), SshMessage::KexEcdhReply);
    match handshake.step(&[21]) {
        Err(HandshakeError::Message(e)) => assert_eq!(e, MessageError::Unexpected(21)),
        _ => panic!("taken for a reply"),
    }

    let (handshake, proposal) = Handshake::start(VERSION.to_vec(), "x");
    let server_kexinit = build_kexinit(&[1; 16], "x");
    let (handshake, sent) = go_on(handshake.step(&server_kexinit));
    let answer = answer(&proposal, &server_kexinit, &sent, &host());
    let (handshake, _) = go_on(handshake.step(&answer.reply));
    assert_eq!(handshake.due(), SshMessage::NewKeys);
    assert_eq!(handshake.signed_transcript().unwrap().secret, answer.secret);
    match handshake.step(&answer.reply) {
        Err(HandshakeError::Message(e)) => assert_eq!(e, MessageError::Unexpected(31)),
        _ => panic!("taken for new keys"),
    }
}

#[test]
fn no_new_keys_without_the_hosts_signature() {
    let stranger = Ed25519KeyPair::from_seed_unchecked(&[8u8; 32]).unwrap();
    let (handshake, proposal) = Handshake::start(VERSION.to_vec(), "x");
    let server_kexinit = build_kexinit(&[1; 16], "x");
    let (handshake, sent) = go_on(handshake.step(&server_kexinit));
    let answer = answer(&proposal, &server_kexinit, &sent, &stranger);
    match handshake.step(&answer.reply) {
        Err(HandshakeError::Unauthentic(refusal)) => {
            assert_eq!(refusal.error, ExchangeError::HostKey(HostKeyError::BadSignature));
            assert_eq!(refusal.transcript.secret, answer.secret);
            assert_eq!(refusal.transcript.client_kexinit, proposal);
        }
        _ => panic!("a stranger was taken for the host"),
    }
}

#[test]
fn a_bad_reply_ends_the_exchange() {
    let (handshake, _) = Handshake::start(VERSION.to_vec(), "x");
    let (handshake, _) = go_on(handshake.step(&[20]));
    assert!(matches!(handshake.step(&[31, 0]), Err(HandshakeError::MalformedReply)));

    let (handshake, _) = Handshake::start(VERSION.to_vec(), "x");
    let (handshake, _) = go_on(handshake.step(&[20]));
    let mut reply = vec![31u8];
    reply.extend_from_slice(&strings(&[b"host", &[0; 32], b"signature"]));
    assert!(matches!(
        handshake.step(&reply),
        Err(HandshakeError::Agreement(AgreementError::NoAgreement))
    ));
}

#[test]
fn the_clients_public_key_follows_the_servers_proposal() {
    let proposal = build_kexinit(&[2; 16], "x");
    let pair = KeyPair::generate().unwrap();
    let expected = ecdh_init(pair.public_key());
    let step = take_proposal(VERSION.to_vec(), "x".to_string(), proposal.clone(), &[20], Ok(pair));
    let (handshake, sent) = go_on(step);
    assert_eq!(sent, expected);
    assert_eq!(handshake.due(), SshMessage::KexEcdhReply);
    for error in [AgreementError::NoPrivateKey, AgreementError::NoPublicKey] {
        match take_proposal(VERSION.to_vec(), "x".to_string(), proposal.clone(), &[20], Err(error)) {
            Err(HandshakeError::Agreement(e)) => assert_eq!(e, error),
            _ => panic!("went on without keys"),
        }
    }
}

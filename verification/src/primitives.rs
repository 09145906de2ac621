//! The cryptographic primitives and the random bytes that other crates supply,
//! and two functions of the standard library.
//!
//! Everything here is believed, not proved: each function makes one outside
//! call, and its contract says what that call is taken to do. A result that is
//! determined by the arguments but too long to spell out has a name, a spec
//! function without a body, in which the contracts of the callers are written.

use vstd::prelude::*;
use aes_gcm::aead::{Aead, KeyInit, Payload};
use aes_gcm::{Aes128Gcm, Aes256Gcm};
use chacha20::cipher::{KeyIvInit, StreamCipher};
use chacha20::ChaCha20;
use poly1305::Poly1305;
use rand::RngCore;
use ring::{agreement, digest, signature};

verus! {

/// `aes_gcm::Error`, the error of sealing and opening; it carries nothing.
#[verifier::external_type_specification]
#[verifier::external_body]
pub struct ExAeadError(aes_gcm::Error);

/// `ring::error::Unspecified`, the one error of *ring*; it carries nothing.
#[verifier::external_type_specification]
#[verifier::external_body]
pub struct ExUnspecified(ring::error::Unspecified);

/// `ring::agreement::EphemeralPrivateKey`, a private key good for one key
/// agreement.
#[verifier::external_type_specification]
#[verifier::external_body]
pub struct ExEphemeralPrivateKey(ring::agreement::EphemeralPrivateKey);

/// The most bytes that one ChaCha20 keystream covers: its 32-bit block counter
/// stops at 2^32 - 1 blocks of 64 bytes.
pub const CHACHA20_MAX: u64 = 0x3f_ffff_ffc0;

/// The most bytes that AES-GCM takes as a message or as associated data.
pub const AES_GCM_MAX: u64 = 0x10_0000_0000;

/// The most bytes that SHA-256 takes: their bit count must fit in 64 bits.
pub const SHA256_MAX: u64 = 0x1fff_ffff_ffff_ffff;

/// The byte at `position` of the ChaCha20 keystream for a key and a nonce.
pub uninterp spec fn chacha20_keystream(key: Seq<u8>, nonce: Seq<u8>, position: int) -> u8;

/// The Poly1305 tag of `data` under a one-time key.
pub uninterp spec fn poly1305_tag(key: Seq<u8>, data: Seq<u8>) -> Seq<u8>;

/// What AES-128-GCM seals `msg` to: the ciphertext with the tag behind it.
pub uninterp spec fn aes128_gcm_sealed(key: Seq<u8>, nonce: Seq<u8>, aad: Seq<u8>, msg: Seq<u8>) -> Seq<u8>;

/// The message inside an AES-128-GCM ciphertext with tag, or `None` when the
/// tag is not the right one.
pub uninterp spec fn aes128_gcm_opened(key: Seq<u8>, nonce: Seq<u8>, aad: Seq<u8>, sealed: Seq<u8>) -> Option<Seq<u8>>;

/// What AES-256-GCM seals `msg` to: the ciphertext with the tag behind it.
pub uninterp spec fn aes256_gcm_sealed(key: Seq<u8>, nonce: Seq<u8>, aad: Seq<u8>, msg: Seq<u8>) -> Seq<u8>;

/// The message inside an AES-256-GCM ciphertext with tag, or `None` when the
/// tag is not the right one.
pub uninterp spec fn aes256_gcm_opened(key: Seq<u8>, nonce: Seq<u8>, aad: Seq<u8>, sealed: Seq<u8>) -> Option<Seq<u8>>;

/// The SHA-256 digest of `data`.
pub uninterp spec fn sha256_digest(data: Seq<u8>) -> Seq<u8>;

/// Whether `signature` is an Ed25519 signature of `message` under `public_key`.
pub uninterp spec fn ed25519_valid(public_key: Seq<u8>, message: Seq<u8>, signature: Seq<u8>) -> bool;

/// The text that bytes are read as when what is not UTF-8 in them is replaced.
pub uninterp spec fn utf8_lossy_text(bytes: Seq<u8>) -> Seq<char>;

/// The public key that belongs to a private key, or `None` if none can be
/// computed.
pub uninterp spec fn public_key_of(private: agreement::EphemeralPrivateKey) -> Option<Seq<u8>>;

/// The secret that a private key shares, by X25519, with the holder of the key
/// behind `peer`, or `None` if there is no agreement with that key.
pub uninterp spec fn x25519_secret(private: agreement::EphemeralPrivateKey, peer: Seq<u8>) -> Option<Seq<u8>>;

/// `std::hint::black_box` hands its argument back.
pub assume_specification<T>[ std::hint::black_box::<T> ](dummy: T) -> (result: T)
    ensures
        result == dummy,
;

/// Calls `String::from_utf8_lossy`: the text whose UTF-8 form `bytes` is; where
/// `bytes` are not UTF-8, a text in which replacement characters stand for what
/// is wrong. How many of them stand for it is not stated.
#[verifier::external_body]
pub(crate) fn utf8_lossy(bytes: &[u8]) -> (text: String)
    ensures
        text@ == utf8_lossy_text(bytes@),
        vstd::utf8::valid_utf8(bytes@) ==> text@ == vstd::utf8::decode_utf8(bytes@),
{
    String::from_utf8_lossy(bytes).into_owned()
}

/// Calls `ChaCha20::new` and `StreamCipher::apply_keystream`: every byte of
/// `data` is XORed with the keystream byte of its position. The call panics
/// when the keystream is too short for `data`.
#[verifier::external_body]
pub(crate) fn chacha20_apply(key: &[u8; 32], nonce: &[u8; 12], data: &mut Vec<u8>)
    requires
        old(data)@.len() <= CHACHA20_MAX,
    ensures
        final(data)@.len() == old(data)@.len(),
        forall|i: int|
            #![trigger final(data)@[i]]
            0 <= i < old(data)@.len() ==> final(data)@[i] == old(data)@[i] ^ chacha20_keystream(
                key@,
                nonce@,
                i,
            ),
{
    ChaCha20::new(key.into(), nonce.into()).apply_keystream(data);
}

/// Calls `Poly1305::new` and `Poly1305::compute_unpadded`: the tag of `data`,
/// the last block of which is not padded with zeros.
#[verifier::external_body]
pub(crate) fn poly1305_compute(key: &[u8; 32], data: &[u8]) -> (tag: [u8; 16])
    ensures
        tag@ == poly1305_tag(key@, data@),
{
    Poly1305::new(key.into()).compute_unpadded(data).into()
}

/// Calls `Aes128Gcm::new` and `Aead::encrypt`: refuses a message or associated
/// data that are too long, and otherwise returns the ciphertext with its 16-byte
/// tag, which opens to the message again under the same key, nonce and
/// associated data.
#[verifier::external_body]
pub(crate) fn aes128_gcm_seal(
    key: &[u8; 16],
    nonce: &[u8; 12],
    aad: &[u8],
    msg: &[u8],
) -> (sealed: Result<Vec<u8>, aes_gcm::Error>)
    ensures
        sealed is Ok <==> (msg@.len() <= AES_GCM_MAX && aad@.len() <= AES_GCM_MAX),
        sealed matches Ok(c) ==> c@ == aes128_gcm_sealed(key@, nonce@, aad@, msg@),
        sealed matches Ok(c) ==> c@.len() == msg@.len() + 16,
        sealed matches Ok(c) ==> aes128_gcm_opened(key@, nonce@, aad@, c@) == Some(msg@),
{
    Aes128Gcm::new(key.into()).encrypt(nonce.into(), Payload { msg, aad })
}

/// Calls `Aes128Gcm::new` and `Aead::decrypt`: the message inside `sealed`, 16
/// bytes shorter than it, or an error when the tag does not belong to this key,
/// nonce, associated data and ciphertext.
#[verifier::external_body]
pub(crate) fn aes128_gcm_open(
    key: &[u8; 16],
    nonce: &[u8; 12],
    aad: &[u8],
    sealed: &[u8],
) -> (msg: Result<Vec<u8>, aes_gcm::Error>)
    ensures
        msg is Ok <==> aes128_gcm_opened(key@, nonce@, aad@, sealed@) is Some,
        msg matches Ok(m) ==> aes128_gcm_opened(key@, nonce@, aad@, sealed@) == Some(m@),
        msg matches Ok(m) ==> m@.len() + 16 == sealed@.len(),
{
    Aes128Gcm::new(key.into()).decrypt(nonce.into(), Payload { msg: sealed, aad })
}

/// Calls `Aes256Gcm::new` and `Aead::encrypt`: refuses a message or associated
/// data that are too long, and otherwise returns the ciphertext with its 16-byte
/// tag, which opens to the message again under the same key, nonce and
/// associated data.
#[verifier::external_body]
pub(crate) fn aes256_gcm_seal(
    key: &[u8; 32],
    nonce: &[u8; 12],
    aad: &[u8],
    msg: &[u8],
) -> (sealed: Result<Vec<u8>, aes_gcm::Error>)
    ensures
        sealed is Ok <==> (msg@.len() <= AES_GCM_MAX && aad@.len() <= AES_GCM_MAX),
        sealed matches Ok(c) ==> c@ == aes256_gcm_sealed(key@, nonce@, aad@, msg@),
        sealed matches Ok(c) ==> c@.len() == msg@.len() + 16,
        sealed matches Ok(c) ==> aes256_gcm_opened(key@, nonce@, aad@, c@) == Some(msg@),
{
    Aes256Gcm::new(key.into()).encrypt(nonce.into(), Payload { msg, aad })
}

/// Calls `Aes256Gcm::new` and `Aead::decrypt`: the message inside `sealed`, 16
/// bytes shorter than it, or an error when the tag does not belong to this key,
/// nonce, associated data and ciphertext.
#[verifier::external_body]
pub(crate) fn aes256_gcm_open(
    key: &[u8; 32],
    nonce: &[u8; 12],
    aad: &[u8],
    sealed: &[u8],
) -> (msg: Result<Vec<u8>, aes_gcm::Error>)
    ensures
        msg is Ok <==> aes256_gcm_opened(key@, nonce@, aad@, sealed@) is Some,
        msg matches Ok(m) ==> aes256_gcm_opened(key@, nonce@, aad@, sealed@) == Some(m@),
        msg matches Ok(m) ==> m@.len() + 16 == sealed@.len(),
{
    Aes256Gcm::new(key.into()).decrypt(nonce.into(), Payload { msg: sealed, aad })
}

/// Calls `ring::digest::digest` with SHA-256: the 32-byte digest of `data`. The
/// call panics on data whose bit count does not fit in 64 bits.
#[verifier::external_body]
pub(crate) fn sha256(data: &[u8]) -> (out: Vec<u8>)
    requires
        data@.len() <= SHA256_MAX,
    ensures
        out@ == sha256_digest(data@),
        out@.len() == 32,
{
    digest::digest(&digest::SHA256, data).as_ref().to_vec()
}

/// Calls `ring::signature::UnparsedPublicKey::verify` with Ed25519: succeeds
/// exactly on a valid signature. A signature has 64 bytes and a key 32. The
/// message is hashed together with 64 bytes more, and the call panics when that
/// is too much to hash.
#[verifier::external_body]
pub(crate) fn ed25519_verify(
    public_key: &[u8],
    message: &[u8],
    signature: &[u8],
) -> (valid: Result<(), ring::error::Unspecified>)
    requires
        message@.len() + 64 <= SHA256_MAX,
    ensures
        valid is Ok <==> ed25519_valid(public_key@, message@, signature@),
        valid is Ok ==> (public_key@.len() == 32 && signature@.len() == 64),
{
    signature::UnparsedPublicKey::new(&signature::ED25519, public_key).verify(message, signature)
}

/// Calls `ring::agreement::EphemeralPrivateKey::generate` with X25519 and the
/// system's random numbers. Which key comes, or whether the system has random
/// numbers to give, is left open.
#[verifier::external_body]
pub(crate) fn x25519_generate() -> (key: Result<agreement::EphemeralPrivateKey, ring::error::Unspecified>)
{
    agreement::EphemeralPrivateKey::generate(
        &agreement::X25519,
        &ring::rand::SystemRandom::new(),
    )
}

/// Calls `EphemeralPrivateKey::compute_public_key`: the bytes of the public key
/// that belongs to `private`.
#[verifier::external_body]
pub(crate) fn compute_public_key(
    private: &agreement::EphemeralPrivateKey,
) -> (public: Result<Vec<u8>, ring::error::Unspecified>)
    ensures
        public is Ok <==> public_key_of(*private) is Some,
        public matches Ok(p) ==> public_key_of(*private) == Some(p@),
{
    private.compute_public_key().map(|key| key.as_ref().to_vec())
}

/// Calls `ring::agreement::agree_ephemeral` with X25519: the 32 bytes of the
/// shared secret. There is no agreement with a peer key that is not 32 bytes
/// long.
#[verifier::external_body]
pub(crate) fn x25519_agree(
    private: agreement::EphemeralPrivateKey,
    peer: &[u8],
) -> (secret: Result<Vec<u8>, ring::error::Unspecified>)
    ensures
        secret is Ok <==> x25519_secret(private, peer@) is Some,
        secret matches Ok(s) ==> x25519_secret(private, peer@) == Some(s@),
        secret matches Ok(s) ==> s@.len() == 32,
        secret is Ok ==> peer@.len() == 32,
{
    let peer = agreement::UnparsedPublicKey::new(&agreement::X25519, peer);
    agreement::agree_ephemeral(private, &peer, <[u8]>::to_vec)
}

/// Calls `rand::thread_rng` and `RngCore::fill_bytes`: overwrites `buf` with
/// random bytes. Only its length is known to stay.
#[verifier::external_body]
pub(crate) fn fill_random(buf: &mut Vec<u8>)
    ensures
        final(buf)@.len() == old(buf)@.len(),
{
    rand::thread_rng().fill_bytes(buf);
}

/// `n` random bytes.
pub fn random_bytes(n: usize) -> (bytes: Vec<u8>)
    ensures
        bytes@.len() == n,
{
    let mut bytes: Vec<u8> = vec![0u8; n];
    fill_random(&mut bytes);
    bytes
}

} // verus!

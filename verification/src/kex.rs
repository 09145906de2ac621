//! Key exchange: `curve25519-sha256` with an `ssh-ed25519` host key.

use vstd::prelude::*;
use crate::message::SshMessage;
use crate::primitives;
use crate::primitives::random_bytes;
use crate::text;
use crate::wire;
use ring::agreement::EphemeralPrivateKey;

verus! {

/// The line with which the client introduces itself.
pub const CLIENT_VERSION: &'static str = "SSH-2.0-OpenSSH_10.2p1, LibreSSL 3.3.6\r\n";

/// The key exchange methods that the client offers.
pub const KEX_METHODS: &'static str =
    "curve25519-sha256,curve25519-sha256@libssh.org,ext-info-c";

/// The kind of host key that the client takes.
pub const HOST_KEY_KIND: &'static str = "ssh-ed25519";

/// The byte that ends a version line.
pub const NEWLINE: u8 = 10;

/// Takes one byte of the server's version line; the line ends with a newline.
pub fn take_version_byte(line: &mut Vec<u8>, byte: u8) -> (done: bool)
    ensures
        final(line)@ == old(line)@.push(byte),
        done == (byte == NEWLINE),
{
    line.push(byte);
    byte == NEWLINE
}

/// The end of the client's proposal: no separate MACs and no compression, for
/// which `none` stands twice each, no languages, no guessed packet.
pub open spec fn kexinit_tail() -> Seq<u8> {
    wire::ssh_string("none"@) + wire::ssh_string("none"@) + wire::ssh_string("none"@)
        + wire::ssh_string("none"@) + wire::ssh_string(""@) + wire::ssh_string(""@)
        + seq![0u8, 0u8, 0u8, 0u8, 0u8]
}

/// The client's proposal of algorithms; the ciphers are the same in both
/// directions.
pub open spec fn kexinit_message(cookie: Seq<u8>, ciphers: Seq<char>) -> Seq<u8> {
    seq![SshMessage::KexInit.number()] + cookie + (wire::ssh_string(KEX_METHODS@) + (
    wire::ssh_string(HOST_KEY_KIND@) + (wire::ssh_string(ciphers) + (wire::ssh_string(ciphers)
        + kexinit_tail()))))
}

/// Puts together [`kexinit_tail`].
fn build_kexinit_tail() -> (tail: Vec<u8>)
    ensures
        tail@ == kexinit_tail(),
{
    let mut tail: Vec<u8> = Vec::new();
    wire::push_ssh_string(&mut tail, "none");
    assert(tail@ =~= wire::ssh_string("none"@));
    wire::push_ssh_string(&mut tail, "none");
    wire::push_ssh_string(&mut tail, "none");
    wire::push_ssh_string(&mut tail, "none");
    wire::push_ssh_string(&mut tail, "");
    wire::push_ssh_string(&mut tail, "");
    let zeros: [u8; 5] = [0u8; 5];
    assert(zeros@ =~= seq![0u8, 0u8, 0u8, 0u8, 0u8]);
    wire::push_bytes(&mut tail, &zeros);
    tail
}

/// Puts together [`kexinit_message`].
pub fn build_kexinit(cookie: &[u8], ciphers: &str) -> (payload: Vec<u8>)
    requires
        cookie@.len() == 16,
    ensures
        payload@ == kexinit_message(cookie@, ciphers@),
{
    let mut payload: Vec<u8> = Vec::new();
    wire::push_byte(&mut payload, SshMessage::KexInit.code());
    wire::push_bytes(&mut payload, cookie);
    let ghost head = seq![SshMessage::KexInit.number()] + cookie@;
    assert(payload@ =~= head);
    wire::push_ssh_string(&mut payload, KEX_METHODS);
    wire::push_ssh_string(&mut payload, HOST_KEY_KIND);
    wire::push_ssh_string(&mut payload, ciphers);
    wire::push_ssh_string(&mut payload, ciphers);
    let tail = build_kexinit_tail();
    wire::push_bytes(&mut payload, &tail);
    proof {
        let (a, b, c) = (
            wire::ssh_string(KEX_METHODS@),
            wire::ssh_string(HOST_KEY_KIND@),
            wire::ssh_string(ciphers@),
        );
        lemma_regroup(head, a, b, c, c, tail@);
    }
    payload
}

/// How the parts of a concatenation are grouped makes no difference.
proof fn lemma_regroup(a: Seq<u8>, b: Seq<u8>, c: Seq<u8>, d: Seq<u8>, e: Seq<u8>, f: Seq<u8>)
    ensures
        a + b + c + d + e + f == a + (b + (c + (d + (e + f)))),
{
    assert(a + b + c + d + e + f =~= a + (b + (c + (d + (e + f)))));
}

/// The client's proposal with a random cookie.
pub fn client_kexinit(ciphers: &str) -> (payload: Vec<u8>)
    ensures
        payload@.len() >= 17,
        payload@ == kexinit_message(payload@.subrange(1, 17), ciphers@),
{
    let cookie = random_bytes(16);
    let payload = build_kexinit(&cookie, ciphers);
    proof {
        let head = seq![SshMessage::KexInit.number()] + cookie@;
        let lists = payload@.skip(17);
        assert(payload@ =~= head + lists);
        assert(payload@.subrange(1, 17) =~= cookie@);
    }
    payload
}

/// The cipher lists of a proposal, as they came.
pub struct CipherLists {
    pub client_to_server: Vec<u8>,
    pub server_to_client: Vec<u8>,
}

/// The offset of the third list in a proposal; the first stands behind the
/// message number and the cookie.
pub open spec fn third_list(payload: Seq<u8>) -> int {
    wire::ssh_bytes_end(payload, wire::ssh_bytes_end(payload, 17))
}

/// Whether the first four lists of a proposal are whole.
pub open spec fn has_cipher_lists(payload: Seq<u8>) -> bool {
    &&& wire::ssh_bytes_fit(payload, 17)
    &&& wire::ssh_bytes_fit(payload, wire::ssh_bytes_end(payload, 17))
    &&& wire::ssh_bytes_fit(payload, third_list(payload))
    &&& wire::ssh_bytes_fit(payload, wire::ssh_bytes_end(payload, third_list(payload)))
}

/// Reads the two cipher lists out of a proposal: the third and the fourth list.
pub fn parse_kexinit(payload: &[u8]) -> (lists: Option<CipherLists>)
    ensures
        lists is Some <==> has_cipher_lists(payload@),
        lists matches Some(l) ==> {
            &&& l.client_to_server@ == wire::ssh_bytes_at(payload@, third_list(payload@))
            &&& l.server_to_client@ == wire::ssh_bytes_at(
                payload@,
                wire::ssh_bytes_end(payload@, third_list(payload@)),
            )
        },
{
    let mut offset: usize = 17;
    let _kex_methods = match wire::try_pop_ssh_bytes(payload, &mut offset) {
        Some(list) => list,
        None => return None,
    };
    let _host_key_kinds = match wire::try_pop_ssh_bytes(payload, &mut offset) {
        Some(list) => list,
        None => return None,
    };
    let client_to_server = match wire::try_pop_ssh_bytes(payload, &mut offset) {
        Some(list) => list,
        None => return None,
    };
    let server_to_client = match wire::try_pop_ssh_bytes(payload, &mut offset) {
        Some(list) => list,
        None => return None,
    };
    Some(
        CipherLists {
            client_to_server: vstd::slice::slice_to_vec(client_to_server),
            server_to_client: vstd::slice::slice_to_vec(server_to_client),
        },
    )
}

/// A proposal of the client's form is read as offering just the ciphers that it
/// was made with, in both directions.
pub proof fn law_proposal_offers_ciphers(cookie: Seq<u8>, ciphers: Seq<char>)
    requires
        cookie.len() == 16,
        vstd::utf8::encode_utf8(ciphers).len() < 0x1_0000_0000,
    ensures
        ({
            let payload = kexinit_message(cookie, ciphers);
            let third = third_list(payload);
            &&& has_cipher_lists(payload)
            &&& wire::ssh_bytes_at(payload, third) == vstd::utf8::encode_utf8(ciphers)
            &&& wire::ssh_bytes_at(payload, wire::ssh_bytes_end(payload, third))
                == vstd::utf8::encode_utf8(ciphers)
        }),
{
    let payload = kexinit_message(cookie, ciphers);
    let methods = vstd::utf8::encode_utf8(KEX_METHODS@);
    let kind = vstd::utf8::encode_utf8(HOST_KEY_KIND@);
    let list = vstd::utf8::encode_utf8(ciphers);
    lemma_own_lists_are_short();
    let after_list = wire::ssh_bytes(list) + kexinit_tail();
    let after_kind = wire::ssh_bytes(list) + after_list;
    let after_methods = wire::ssh_bytes(kind) + after_kind;
    assert(payload.skip(17) =~= wire::ssh_bytes(methods) + after_methods);
    wire::lemma_pop_head(payload, 17, methods, after_methods);
    let second = wire::ssh_bytes_end(payload, 17);
    wire::lemma_pop_head(payload, second, kind, after_kind);
    let third = third_list(payload);
    wire::lemma_pop_head(payload, third, list, after_list);
    let fourth = wire::ssh_bytes_end(payload, third);
    wire::lemma_pop_head(payload, fourth, list, kexinit_tail());
}

proof fn lemma_own_lists_are_short()
    ensures
        vstd::utf8::encode_utf8(KEX_METHODS@).len() < 0x1_0000_0000,
        vstd::utf8::encode_utf8(HOST_KEY_KIND@).len() < 0x1_0000_0000,
{
    reveal_strlit("curve25519-sha256,curve25519-sha256@libssh.org,ext-info-c");
    reveal_strlit("ssh-ed25519");
    vstd::utf8::is_ascii_chars_encode_utf8(KEX_METHODS@);
    vstd::utf8::is_ascii_chars_encode_utf8(HOST_KEY_KIND@);
}

/// The client's half of the key agreement.
pub open spec fn ecdh_init_message(public_key: Seq<u8>) -> Seq<u8> {
    seq![SshMessage::KexEcdhInit.number()] + wire::ssh_bytes(public_key)
}

/// Puts together [`ecdh_init_message`].
pub fn ecdh_init(public_key: &[u8]) -> (payload: Vec<u8>)
    ensures
        payload@ == ecdh_init_message(public_key@),
{
    let mut payload: Vec<u8> = Vec::new();
    wire::push_byte(&mut payload, SshMessage::KexEcdhInit.code());
    assert(payload@ =~= seq![SshMessage::KexEcdhInit.number()]);
    wire::push_ssh_bytes(&mut payload, public_key);
    payload
}

/// The server's half of the key agreement.
pub struct EcdhReply {
    pub host_key: Vec<u8>,
    pub public_key: Vec<u8>,
    pub signature: Vec<u8>,
}

/// The server's half of the key agreement as a message.
pub open spec fn ecdh_reply_message(host_key: Seq<u8>, public_key: Seq<u8>, signature: Seq<u8>) -> Seq<u8> {
    seq![SshMessage::KexEcdhReply.number()] + wire::ssh_bytes(host_key) + wire::ssh_bytes(public_key)
        + wire::ssh_bytes(signature)
}

/// Whether the three byte strings behind the message number are whole.
pub open spec fn has_ecdh_reply(payload: Seq<u8>) -> bool {
    &&& wire::ssh_bytes_fit(payload, 1)
    &&& wire::ssh_bytes_fit(payload, wire::ssh_bytes_end(payload, 1))
    &&& wire::ssh_bytes_fit(
        payload,
        wire::ssh_bytes_end(payload, wire::ssh_bytes_end(payload, 1)),
    )
}

/// Reads the server's half of the key agreement behind its message number.
pub fn parse_ecdh_reply(payload: &[u8]) -> (reply: Option<EcdhReply>)
    ensures
        reply is Some <==> has_ecdh_reply(payload@),
        reply matches Some(r) ==> ({
            let second = wire::ssh_bytes_end(payload@, 1);
            let third = wire::ssh_bytes_end(payload@, second);
            &&& r.host_key@ == wire::ssh_bytes_at(payload@, 1)
            &&& r.public_key@ == wire::ssh_bytes_at(payload@, second)
            &&& r.signature@ == wire::ssh_bytes_at(payload@, third)
        }),
{
    let mut offset: usize = 1;
    let host_key = match wire::try_pop_ssh_bytes(payload, &mut offset) {
        Some(bytes) => bytes,
        None => return None,
    };
    let public_key = match wire::try_pop_ssh_bytes(payload, &mut offset) {
        Some(bytes) => bytes,
        None => return None,
    };
    let signature = match wire::try_pop_ssh_bytes(payload, &mut offset) {
        Some(bytes) => bytes,
        None => return None,
    };
    Some(
        EcdhReply {
            host_key: vstd::slice::slice_to_vec(host_key),
            public_key: vstd::slice::slice_to_vec(public_key),
            signature: vstd::slice::slice_to_vec(signature),
        },
    )
}

/// Reading gives back the three parts that a reply was made of.
pub proof fn law_reply_gives_back_parts(
    host_key: Seq<u8>,
    public_key: Seq<u8>,
    signature: Seq<u8>,
)
    requires
        host_key.len() < 0x1_0000_0000,
        public_key.len() < 0x1_0000_0000,
        signature.len() < 0x1_0000_0000,
    ensures
        ({
            let payload = ecdh_reply_message(host_key, public_key, signature);
            let second = wire::ssh_bytes_end(payload, 1);
            let third = wire::ssh_bytes_end(payload, second);
            &&& has_ecdh_reply(payload)
            &&& wire::ssh_bytes_at(payload, 1) == host_key
            &&& wire::ssh_bytes_at(payload, second) == public_key
            &&& wire::ssh_bytes_at(payload, third) == signature
        }),
{
    let payload = ecdh_reply_message(host_key, public_key, signature);
    let after_public = wire::ssh_bytes(signature);
    let after_host = wire::ssh_bytes(public_key) + after_public;
    assert(payload.skip(1) =~= wire::ssh_bytes(host_key) + after_host);
    wire::lemma_pop_head(payload, 1, host_key, after_host);
    let second = wire::ssh_bytes_end(payload, 1);
    wire::lemma_pop_head(payload, second, public_key, after_public);
    let third = wire::ssh_bytes_end(payload, second);
    assert(after_public + Seq::<u8>::empty() =~= after_public);
    wire::lemma_pop_head(payload, third, signature, Seq::empty());
}

/// The shared secret as a positive number on the wire: a zero byte goes in front
/// when its first bit is set.
pub open spec fn secret_number(secret: Seq<u8>) -> Seq<u8> {
    if secret[0] >= 0x80 {
        seq![0u8] + secret
    } else {
        secret
    }
}

/// Computes [`secret_number`]. Both ways push and pop once, so that the work does
/// not depend on the bit.
pub fn encode_secret(secret: &[u8]) -> (number: Vec<u8>)
    requires
        secret@.len() > 0,
    ensures
        number@ == secret_number(secret@),
{
    let mut number: Vec<u8> = Vec::new();
    let first: u8 = secret[0];
    assert((first & 0x80 != 0) == (first >= 0x80)) by (bit_vector);
    if first & 0x80 != 0 {
        let _ = std::hint::black_box(number.pop());
        std::hint::black_box(number.push(0));
    } else {
        std::hint::black_box(number.push(0));
        let _ = std::hint::black_box(number.pop());
    }
    wire::push_bytes(&mut number, secret);
    assert(number@ =~= secret_number(secret@));
    number
}

/// Why the client has no key pair, or no secret in common with the server.
#[derive(Debug, Clone, Copy, PartialEq, Eq, Structural)]
pub enum AgreementError {
    /// No private key could be generated.
    NoPrivateKey,
    /// No public key could be computed.
    NoPublicKey,
    /// There is no agreement with the server's key.
    NoAgreement,
}

/// A private key for one key agreement, with its public key.
pub struct KeyPair {
    private: EphemeralPrivateKey,
    public: Vec<u8>,
}

impl KeyPair {
    #[verifier::type_invariant]
    closed spec fn wf(self) -> bool {
        primitives::public_key_of(self.private) == Some(self.public@)
    }

    /// The private key.
    pub closed spec fn private_key(self) -> EphemeralPrivateKey {
        self.private
    }

    /// A fresh key pair.
    pub fn generate() -> (pair: Result<KeyPair, AgreementError>)
        ensures
            pair matches Err(e) ==> e != AgreementError::NoAgreement,
            pair matches Ok(p) ==> primitives::public_key_of(p.private_key()) is Some,
    {
        match primitives::x25519_generate() {
            Err(_) => Err(AgreementError::NoPrivateKey),
            Ok(private) => KeyPair::from_private(private),
        }
    }

    /// The key pair of a private key.
    pub fn from_private(private: EphemeralPrivateKey) -> (pair: Result<KeyPair, AgreementError>)
        ensures
            pair is Ok <==> primitives::public_key_of(private) is Some,
            pair matches Ok(p) ==> p.private_key() == private,
            pair matches Err(e) ==> e == AgreementError::NoPublicKey,
    {
        match primitives::compute_public_key(&private) {
            Err(_) => Err(AgreementError::NoPublicKey),
            Ok(public) => Ok(KeyPair { private, public }),
        }
    }

    /// The public key.
    pub fn public_key(&self) -> (public: &[u8])
        ensures
            primitives::public_key_of(self.private_key()) == Some(public@),
    {
        proof {
            use_type_invariant(self);
        }
        &self.public
    }

    /// The secret shared with the holder of a public key, as a number on the
    /// wire.
    pub fn agree(self, peer: &[u8]) -> (number: Result<Vec<u8>, AgreementError>)
        ensures
            number is Ok <==> primitives::x25519_secret(self.private_key(), peer@) is Some,
            number matches Ok(n) ==> n@ == secret_number(
                primitives::x25519_secret(self.private_key(), peer@).unwrap(),
            ),
            number matches Ok(n) ==> n@.len() <= 33,
            number matches Err(e) ==> e == AgreementError::NoAgreement,
    {
        match primitives::x25519_agree(self.private, peer) {
            Err(_) => Err(AgreementError::NoAgreement),
            Ok(secret) => Ok(encode_secret(&secret)),
        }
    }
}

/// Something with the name of its kind in front: a host key or a signature.
pub struct NamedBlob {
    pub name: Vec<u8>,
    pub blob: Vec<u8>,
}

/// Whether two whole byte strings stand at the start of `bytes`.
pub open spec fn has_named_blob(bytes: Seq<u8>) -> bool {
    wire::ssh_bytes_fit(bytes, 0) && wire::ssh_bytes_fit(bytes, wire::ssh_bytes_end(bytes, 0))
}

/// The content behind the name.
pub open spec fn blob_of(bytes: Seq<u8>) -> Seq<u8> {
    wire::ssh_bytes_at(bytes, wire::ssh_bytes_end(bytes, 0))
}

/// Reads a name and what stands behind it; `None` if either is cut short.
pub fn parse_named_blob(bytes: &[u8]) -> (named: Option<NamedBlob>)
    ensures
        named is Some <==> has_named_blob(bytes@),
        named matches Some(n) ==> {
            &&& n.name@ == wire::ssh_bytes_at(bytes@, 0)
            &&& n.blob@ == blob_of(bytes@)
        },
{
    let mut offset: usize = 0;
    let name = match wire::try_pop_ssh_bytes(bytes, &mut offset) {
        Some(name) => name,
        None => return None,
    };
    let blob = match wire::try_pop_ssh_bytes(bytes, &mut offset) {
        Some(blob) => blob,
        None => return None,
    };
    Some(
        NamedBlob {
            name: vstd::slice::slice_to_vec(name),
            blob: vstd::slice::slice_to_vec(blob),
        },
    )
}

/// Why a server is not taken for the holder of its host key.
#[derive(Debug, Clone, Copy, PartialEq, Eq, Structural)]
pub enum HostKeyError {
    /// The host key or the signature is cut short.
    Malformed,
    /// The signature is not one of the exchange hash under the host key.
    BadSignature,
}

/// Checks the server's signature of the exchange hash under its host key.
pub fn verify_host(host_key: &[u8], signature: &[u8], hash: &[u8]) -> (verdict: Result<
    (),
    HostKeyError,
>)
    requires
        hash@.len() + 64 <= primitives::SHA256_MAX,
    ensures
        verdict == (if !has_named_blob(host_key@) || !has_named_blob(signature@) {
            Err(HostKeyError::Malformed)
        } else if !primitives::ed25519_valid(blob_of(host_key@), hash@, blob_of(signature@)) {
            Err(HostKeyError::BadSignature)
        } else {
            Ok(())
        }),
        verdict is Ok ==> blob_of(host_key@).len() == 32 && blob_of(signature@).len() == 64,
{
    match (parse_named_blob(host_key), parse_named_blob(signature)) {
        (Some(key), Some(signed)) => match primitives::ed25519_verify(
            &key.blob,
            hash,
            &signed.blob,
        ) {
            Ok(_) => Ok(()),
            Err(_) => Err(HostKeyError::BadSignature),
        },
        _ => Err(HostKeyError::Malformed),
    }
}

/// What both sides have said and agreed on during the key exchange.
pub struct Transcript {
    /// The server's version line, with its newline.
    pub server_version: Vec<u8>,
    pub client_kexinit: Vec<u8>,
    pub server_kexinit: Vec<u8>,
    pub host_key: Vec<u8>,
    pub client_public: Vec<u8>,
    pub server_public: Vec<u8>,
    /// The shared secret as a number on the wire.
    pub secret: Vec<u8>,
}

/// The content of a [`Transcript`].
#[verifier::ext_equal]
pub struct TranscriptModel {
    pub server_version: Seq<u8>,
    pub client_kexinit: Seq<u8>,
    pub server_kexinit: Seq<u8>,
    pub host_key: Seq<u8>,
    pub client_public: Seq<u8>,
    pub server_public: Seq<u8>,
    pub secret: Seq<u8>,
}

impl View for Transcript {
    type V = TranscriptModel;

    open spec fn view(&self) -> TranscriptModel {
        TranscriptModel {
            server_version: self.server_version@,
            client_kexinit: self.client_kexinit@,
            server_kexinit: self.server_kexinit@,
            host_key: self.host_key@,
            client_public: self.client_public@,
            server_public: self.server_public@,
            secret: self.secret@,
        }
    }
}

impl TranscriptModel {
    /// The bytes under the exchange hash, for a server version that reads
    /// `version`.
    pub open spec fn data(self, version: Seq<char>) -> Seq<u8> {
        wire::ssh_string(text::trimmed(CLIENT_VERSION@)) + (wire::ssh_string(text::trimmed(version))
            + (wire::ssh_bytes(self.client_kexinit) + (wire::ssh_bytes(self.server_kexinit) + (
        wire::ssh_bytes(self.host_key) + (wire::ssh_bytes(self.client_public) + (wire::ssh_bytes(
            self.server_public,
        ) + wire::ssh_bytes(self.secret)))))))
    }

    /// Whether every part has a length that a length field holds.
    pub open spec fn parts_fit(self) -> bool {
        &&& self.client_kexinit.len() < 0x1_0000_0000
        &&& self.server_kexinit.len() < 0x1_0000_0000
        &&& self.host_key.len() < 0x1_0000_0000
        &&& self.client_public.len() < 0x1_0000_0000
        &&& self.server_public.len() < 0x1_0000_0000
        &&& self.secret.len() < 0x1_0000_0000
    }
}

impl Transcript {
    /// Puts together the bytes under the exchange hash. Of the version lines only
    /// what stands between white space counts.
    pub fn hash_input(&self, version: &str) -> (data: Vec<u8>)
        ensures
            data@ == self@.data(version@),
    {
        let mut data: Vec<u8> = Vec::new();
        wire::push_ssh_string(&mut data, text::trim(CLIENT_VERSION));
        assert(data@ =~= wire::ssh_string(text::trimmed(CLIENT_VERSION@)));
        wire::push_ssh_string(&mut data, text::trim(version));
        wire::push_ssh_bytes(&mut data, &self.client_kexinit);
        wire::push_ssh_bytes(&mut data, &self.server_kexinit);
        wire::push_ssh_bytes(&mut data, &self.host_key);
        wire::push_ssh_bytes(&mut data, &self.client_public);
        wire::push_ssh_bytes(&mut data, &self.server_public);
        wire::push_ssh_bytes(&mut data, &self.secret);
        proof {
            let a = wire::ssh_string(text::trimmed(CLIENT_VERSION@));
            let b = wire::ssh_string(text::trimmed(version@));
            let c = wire::ssh_bytes(self.client_kexinit@);
            let d = wire::ssh_bytes(self.server_kexinit@);
            let e = wire::ssh_bytes(self.host_key@);
            let f = wire::ssh_bytes(self.client_public@);
            let g = wire::ssh_bytes(self.server_public@);
            let h = wire::ssh_bytes(self.secret@);
            let head = a + b + c + d + e;
            assert(head + f + g + h =~= head + (f + (g + h)));
            lemma_regroup(a, b, c, d, e, f + (g + h));
        }
        data
    }

    /// The exchange hash; `None` if there is more to hash than SHA-256 takes.
    pub fn exchange_hash(&self) -> (hash: Option<Vec<u8>>)
        ensures
            hash is Some <==> self@.data(primitives::utf8_lossy_text(self.server_version@)).len()
                <= primitives::SHA256_MAX,
            hash matches Some(h) ==> h@ == primitives::sha256_digest(
                self@.data(primitives::utf8_lossy_text(self.server_version@)),
            ),
            hash matches Some(h) ==> h@.len() == 32,
    {
        let version = primitives::utf8_lossy(&self.server_version);
        let data = self.hash_input(&version);
        if data.len() as u64 <= primitives::SHA256_MAX {
            Some(primitives::sha256(&data))
        } else {
            None
        }
    }
}

/// What stands at the head of a byte string determines the part and the rest.
proof fn lemma_head_is_determined(a: Seq<u8>, x: Seq<u8>, b: Seq<u8>, y: Seq<u8>)
    requires
        a.len() < 0x1_0000_0000,
        b.len() < 0x1_0000_0000,
        wire::ssh_bytes(a) + x == wire::ssh_bytes(b) + y,
    ensures
        a == b,
        x == y,
{
    let s = wire::ssh_bytes(a) + x;
    assert(s.skip(0) =~= s);
    wire::lemma_pop_head(s, 0, a, x);
    wire::lemma_pop_head(s, 0, b, y);
}

/// The hashed bytes determine everything that both sides have said and agreed
/// on: two exchanges with the same bytes agree in every part.
pub proof fn law_hashed_bytes_determine_exchange(
    one: TranscriptModel,
    version_one: Seq<char>,
    two: TranscriptModel,
    version_two: Seq<char>,
)
    requires
        one.parts_fit(),
        two.parts_fit(),
        vstd::utf8::encode_utf8(text::trimmed(version_one)).len() < 0x1_0000_0000,
        vstd::utf8::encode_utf8(text::trimmed(version_two)).len() < 0x1_0000_0000,
        one.data(version_one) == two.data(version_two),
    ensures
        text::trimmed(version_one) == text::trimmed(version_two),
        one.client_kexinit == two.client_kexinit,
        one.server_kexinit == two.server_kexinit,
        one.host_key == two.host_key,
        one.client_public == two.client_public,
        one.server_public == two.server_public,
        one.secret == two.secret,
{
    let (g1, g2) = (wire::ssh_bytes(one.secret), wire::ssh_bytes(two.secret));
    let f1 = wire::ssh_bytes(one.server_public) + g1;
    let f2 = wire::ssh_bytes(two.server_public) + g2;
    let e1 = wire::ssh_bytes(one.client_public) + f1;
    let e2 = wire::ssh_bytes(two.client_public) + f2;
    let d1 = wire::ssh_bytes(one.host_key) + e1;
    let d2 = wire::ssh_bytes(two.host_key) + e2;
    let c1 = wire::ssh_bytes(one.server_kexinit) + d1;
    let c2 = wire::ssh_bytes(two.server_kexinit) + d2;
    let b1 = wire::ssh_bytes(one.client_kexinit) + c1;
    let b2 = wire::ssh_bytes(two.client_kexinit) + c2;
    let a1 = wire::ssh_string(text::trimmed(version_one)) + b1;
    let a2 = wire::ssh_string(text::trimmed(version_two)) + b2;
    let own = wire::ssh_string(text::trimmed(CLIENT_VERSION@));
    assert((own + a1).skip(own.len() as int) =~= a1);
    assert((own + a2).skip(own.len() as int) =~= a2);
    let utf8_one = vstd::utf8::encode_utf8(text::trimmed(version_one));
    let utf8_two = vstd::utf8::encode_utf8(text::trimmed(version_two));
    lemma_head_is_determined(utf8_one, b1, utf8_two, b2);
    vstd::utf8::encode_utf8_decode_utf8(text::trimmed(version_one));
    vstd::utf8::encode_utf8_decode_utf8(text::trimmed(version_two));
    lemma_head_is_determined(one.client_kexinit, c1, two.client_kexinit, c2);
    lemma_head_is_determined(one.server_kexinit, d1, two.server_kexinit, d2);
    lemma_head_is_determined(one.host_key, e1, two.host_key, e2);
    lemma_head_is_determined(one.client_public, f1, two.client_public, f2);
    lemma_head_is_determined(one.server_public, g1, two.server_public, g2);
    assert(g1 + Seq::<u8>::empty() =~= g1);
    assert(g2 + Seq::<u8>::empty() =~= g2);
    lemma_head_is_determined(one.secret, Seq::empty(), two.secret, Seq::empty());
}

} // verus!

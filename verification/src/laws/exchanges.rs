//! Laws of the key exchange: what the messages and the hashed bytes hold, and what
//! comes of them.

use vstd::prelude::*;
use crate::cipher;
use crate::exchange;
use crate::exchange::{Exchange, ExchangeError, Opening, Session, SessionError, SessionOutcome};
use crate::kex;
use crate::kex::{HostKeyError, Transcript, TranscriptModel};
use crate::keys;
use crate::keys::Outcome;
use crate::primitives;
use crate::text;
use crate::wire;
use ring::agreement::EphemeralPrivateKey;

verus! {

/// What the client's version line reads without its line end.
proof fn lemma_own_version()
    ensures
        text::trimmed(kex::CLIENT_VERSION@) == "SSH-2.0-OpenSSH_10.2p1, LibreSSL 3.3.6"@,
        vstd::utf8::encode_utf8("SSH-2.0-OpenSSH_10.2p1, LibreSSL 3.3.6"@).len() == 38,
{
    reveal_strlit("SSH-2.0-OpenSSH_10.2p1, LibreSSL 3.3.6\r\n");
    reveal_strlit("SSH-2.0-OpenSSH_10.2p1, LibreSSL 3.3.6");
    let line = kex::CLIENT_VERSION@;
    let version = "SSH-2.0-OpenSSH_10.2p1, LibreSSL 3.3.6"@;
    let end = line.skip(38);
    assert(line.take(38) =~= version);
    assert(end.len() == 2 && end[0] == '\r' && end[1] == '\n');
    assert(line =~= Seq::<char>::empty() + version + end);
    crate::laws::lists::law_trimming(Seq::empty(), version, end);
    vstd::utf8::is_ascii_chars_encode_utf8(version);
}

/// Read as byte strings one after the other, the hashed bytes hold, in this order,
/// the client's version, the server's version, the client's proposal, the server's
/// proposal, the host key, the client's public key, the server's public key and the
/// secret, and nothing else.
pub proof fn law_hashed_bytes_in_order(said: TranscriptModel, version: Seq<char>)
    requires
        vstd::utf8::encode_utf8(text::trimmed(version)).len() < 0x1_0000_0000,
        said.client_kexinit.len() < 0x1_0000_0000,
        said.server_kexinit.len() < 0x1_0000_0000,
        said.host_key.len() < 0x1_0000_0000,
        said.client_public.len() < 0x1_0000_0000,
        said.server_public.len() < 0x1_0000_0000,
        said.secret.len() < 0x1_0000_0000,
    ensures
        ({
            let data = said.data(version);
            let second = wire::ssh_bytes_end(data, 0);
            let third = wire::ssh_bytes_end(data, second);
            let fourth = wire::ssh_bytes_end(data, third);
            let fifth = wire::ssh_bytes_end(data, fourth);
            let sixth = wire::ssh_bytes_end(data, fifth);
            let seventh = wire::ssh_bytes_end(data, sixth);
            let eighth = wire::ssh_bytes_end(data, seventh);
            &&& wire::ssh_bytes_at(data, 0) == vstd::utf8::encode_utf8(
                "SSH-2.0-OpenSSH_10.2p1, LibreSSL 3.3.6"@,
            )
            &&& wire::ssh_bytes_at(data, second) == vstd::utf8::encode_utf8(text::trimmed(version))
            &&& wire::ssh_bytes_at(data, third) == said.client_kexinit
            &&& wire::ssh_bytes_at(data, fourth) == said.server_kexinit
            &&& wire::ssh_bytes_at(data, fifth) == said.host_key
            &&& wire::ssh_bytes_at(data, sixth) == said.client_public
            &&& wire::ssh_bytes_at(data, seventh) == said.server_public
            &&& wire::ssh_bytes_at(data, eighth) == said.secret
            &&& wire::ssh_bytes_fit(data, eighth)
            &&& wire::ssh_bytes_end(data, eighth) == data.len()
        }),
{
    lemma_own_version();
    let own = vstd::utf8::encode_utf8("SSH-2.0-OpenSSH_10.2p1, LibreSSL 3.3.6"@);
    let theirs = vstd::utf8::encode_utf8(text::trimmed(version));
    let data = said.data(version);
    let r7 = wire::ssh_bytes(said.secret);
    let r6 = wire::ssh_bytes(said.server_public) + r7;
    let r5 = wire::ssh_bytes(said.client_public) + r6;
    let r4 = wire::ssh_bytes(said.host_key) + r5;
    let r3 = wire::ssh_bytes(said.server_kexinit) + r4;
    let r2 = wire::ssh_bytes(said.client_kexinit) + r3;
    let r1 = wire::ssh_bytes(theirs) + r2;
    assert(data == wire::ssh_bytes(own) + r1);
    assert(data.skip(0) =~= data);
    lemma_four_strings(data, 0, own, theirs, said.client_kexinit, said.server_kexinit, r4);
    let second = wire::ssh_bytes_end(data, 0);
    let third = wire::ssh_bytes_end(data, second);
    let fourth = wire::ssh_bytes_end(data, third);
    let fifth = wire::ssh_bytes_end(data, fourth);
    assert(r7 + Seq::<u8>::empty() =~= r7);
    lemma_four_strings(
        data,
        fifth,
        said.host_key,
        said.client_public,
        said.server_public,
        said.secret,
        Seq::empty(),
    );
    let sixth = wire::ssh_bytes_end(data, fifth);
    let seventh = wire::ssh_bytes_end(data, sixth);
    let eighth = wire::ssh_bytes_end(data, seventh);
    assert(data.skip(wire::ssh_bytes_end(data, eighth)).len() == 0);
}

/// The model of a transcript holds, part by part, what the transcript holds.
pub proof fn law_transcript_is_its_content(transcript: Transcript)
    ensures
        transcript@.server_version == transcript.server_version@,
        transcript@.client_kexinit == transcript.client_kexinit@,
        transcript@.server_kexinit == transcript.server_kexinit@,
        transcript@.host_key == transcript.host_key@,
        transcript@.client_public == transcript.client_public@,
        transcript@.server_public == transcript.server_public@,
        transcript@.secret == transcript.secret@,
{
}

/// A proposal of the client's holds its number, the cookie, and then, one byte
/// string after the other, the key exchange methods, the kind of host key, the
/// ciphers for either direction, four times `none`, two empty texts, and five zero
/// bytes.
pub proof fn law_proposal_parts(cookie: Seq<u8>, ciphers: Seq<char>)
    requires
        cookie.len() == 16,
        vstd::utf8::encode_utf8(ciphers).len() < 0x1_0000_0000,
    ensures
        ({
            let payload = kex::kexinit_message(cookie, ciphers);
            let none = vstd::utf8::encode_utf8("none"@);
            let second = wire::ssh_bytes_end(payload, 17);
            let third = wire::ssh_bytes_end(payload, second);
            let fourth = wire::ssh_bytes_end(payload, third);
            let fifth = wire::ssh_bytes_end(payload, fourth);
            let sixth = wire::ssh_bytes_end(payload, fifth);
            let seventh = wire::ssh_bytes_end(payload, sixth);
            let eighth = wire::ssh_bytes_end(payload, seventh);
            let ninth = wire::ssh_bytes_end(payload, eighth);
            let tenth = wire::ssh_bytes_end(payload, ninth);
            let end = wire::ssh_bytes_end(payload, tenth);
            &&& payload[0] == 20
            &&& payload.subrange(1, 17) == cookie
            &&& wire::ssh_bytes_at(payload, 17) == vstd::utf8::encode_utf8(
                "curve25519-sha256,curve25519-sha256@libssh.org,ext-info-c"@,
            )
            &&& wire::ssh_bytes_at(payload, second) == vstd::utf8::encode_utf8("ssh-ed25519"@)
            &&& wire::ssh_bytes_at(payload, third) == vstd::utf8::encode_utf8(ciphers)
            &&& wire::ssh_bytes_at(payload, fourth) == vstd::utf8::encode_utf8(ciphers)
            &&& wire::ssh_bytes_at(payload, fifth) == none
            &&& wire::ssh_bytes_at(payload, sixth) == none
            &&& wire::ssh_bytes_at(payload, seventh) == none
            &&& wire::ssh_bytes_at(payload, eighth) == none
            &&& wire::ssh_bytes_at(payload, ninth).len() == 0
            &&& wire::ssh_bytes_at(payload, tenth).len() == 0
            &&& payload.skip(end) == seq![0u8, 0u8, 0u8, 0u8, 0u8]
        }),
{
    lemma_words_of_proposal();
    lemma_behind_cookie(
        cookie,
        wire::ssh_string(kex::KEX_METHODS@) + (wire::ssh_string(kex::HOST_KEY_KIND@) + (
        wire::ssh_string(ciphers) + (wire::ssh_string(ciphers) + kex::kexinit_tail()))),
    );
    lemma_lists_of_proposal(
        kex::kexinit_message(cookie, ciphers),
        kex::kexinit_tail(),
        vstd::utf8::encode_utf8(kex::KEX_METHODS@),
        vstd::utf8::encode_utf8(kex::HOST_KEY_KIND@),
        vstd::utf8::encode_utf8(ciphers),
        vstd::utf8::encode_utf8("none"@),
        vstd::utf8::encode_utf8(""@),
    );
}

/// The words in a proposal are short.
proof fn lemma_words_of_proposal()
    ensures
        vstd::utf8::encode_utf8(kex::KEX_METHODS@).len() < 0x1_0000_0000,
        vstd::utf8::encode_utf8(kex::HOST_KEY_KIND@).len() < 0x1_0000_0000,
        vstd::utf8::encode_utf8("none"@).len() < 0x1_0000_0000,
        vstd::utf8::encode_utf8(""@).len() == 0,
{
    reveal_strlit("curve25519-sha256,curve25519-sha256@libssh.org,ext-info-c");
    reveal_strlit("ssh-ed25519");
    reveal_strlit("none");
    reveal_strlit("");
    vstd::utf8::is_ascii_chars_encode_utf8(kex::KEX_METHODS@);
    vstd::utf8::is_ascii_chars_encode_utf8(kex::HOST_KEY_KIND@);
    vstd::utf8::is_ascii_chars_encode_utf8("none"@);
    vstd::utf8::is_ascii_chars_encode_utf8(""@);
}

/// The ten lists of a proposal are read one after the other.
proof fn lemma_lists_of_proposal(
    payload: Seq<u8>,
    tail: Seq<u8>,
    methods: Seq<u8>,
    kind: Seq<u8>,
    list: Seq<u8>,
    none: Seq<u8>,
    blank: Seq<u8>,
)
    requires
        payload.len() >= 17,
        payload.skip(17) == wire::ssh_bytes(methods) + (wire::ssh_bytes(kind) + (wire::ssh_bytes(
            list,
        ) + (wire::ssh_bytes(list) + tail))),
        tail == wire::ssh_bytes(none) + wire::ssh_bytes(none) + wire::ssh_bytes(none)
            + wire::ssh_bytes(none) + wire::ssh_bytes(blank) + wire::ssh_bytes(blank) + seq![
            0u8,
            0u8,
            0u8,
            0u8,
            0u8,
        ],
        methods.len() < 0x1_0000_0000,
        kind.len() < 0x1_0000_0000,
        list.len() < 0x1_0000_0000,
        none.len() < 0x1_0000_0000,
        blank.len() == 0,
    ensures
        ({
            let second = wire::ssh_bytes_end(payload, 17);
            let third = wire::ssh_bytes_end(payload, second);
            let fourth = wire::ssh_bytes_end(payload, third);
            let fifth = wire::ssh_bytes_end(payload, fourth);
            let sixth = wire::ssh_bytes_end(payload, fifth);
            let seventh = wire::ssh_bytes_end(payload, sixth);
            let eighth = wire::ssh_bytes_end(payload, seventh);
            let ninth = wire::ssh_bytes_end(payload, eighth);
            let tenth = wire::ssh_bytes_end(payload, ninth);
            let end = wire::ssh_bytes_end(payload, tenth);
            &&& wire::ssh_bytes_at(payload, 17) == methods
            &&& wire::ssh_bytes_at(payload, second) == kind
            &&& wire::ssh_bytes_at(payload, third) == list
            &&& wire::ssh_bytes_at(payload, fourth) == list
            &&& wire::ssh_bytes_at(payload, fifth) == none
            &&& wire::ssh_bytes_at(payload, sixth) == none
            &&& wire::ssh_bytes_at(payload, seventh) == none
            &&& wire::ssh_bytes_at(payload, eighth) == none
            &&& wire::ssh_bytes_at(payload, ninth) == blank
            &&& wire::ssh_bytes_at(payload, tenth) == blank
            &&& payload.skip(end) == seq![0u8, 0u8, 0u8, 0u8, 0u8]
        }),
{
    lemma_four_strings(payload, 17, methods, kind, list, list, tail);
    let second = wire::ssh_bytes_end(payload, 17);
    let third = wire::ssh_bytes_end(payload, second);
    let fourth = wire::ssh_bytes_end(payload, third);
    let fifth = wire::ssh_bytes_end(payload, fourth);
    lemma_tail_of_proposal(payload, fifth, none, blank);
}

proof fn lemma_row_of_seven(n: Seq<u8>, b: Seq<u8>, z: Seq<u8>)
    ensures
        n + n + n + n + b + b + z == n + (n + (n + (n + (b + (b + z))))),
{
    assert(n + n + n + n + b + b + z =~= n + (n + (n + (n + (b + (b + z))))));
}

proof fn lemma_behind_cookie(cookie: Seq<u8>, lists: Seq<u8>)
    requires
        cookie.len() == 16,
    ensures
        ({
            let payload = seq![20u8] + cookie + lists;
            &&& payload.len() >= 17
            &&& payload[0] == 20
            &&& payload.subrange(1, 17) == cookie
            &&& payload.skip(17) == lists
        }),
{
    let payload = seq![20u8] + cookie + lists;
    assert(payload.skip(17) =~= lists);
    assert(payload.subrange(1, 17) =~= cookie);
}

/// Six byte strings in a row, four alike and two alike, are read one after the
/// other.
proof fn lemma_tail_of_proposal(s: Seq<u8>, offset: int, none: Seq<u8>, blank: Seq<u8>)
    requires
        0 <= offset <= s.len(),
        none.len() < 0x1_0000_0000,
        blank.len() == 0,
        s.skip(offset) == wire::ssh_bytes(none) + wire::ssh_bytes(none) + wire::ssh_bytes(none)
            + wire::ssh_bytes(none) + wire::ssh_bytes(blank) + wire::ssh_bytes(blank) + seq![
            0u8,
            0u8,
            0u8,
            0u8,
            0u8,
        ],
    ensures
        ({
            let sixth = wire::ssh_bytes_end(s, offset);
            let seventh = wire::ssh_bytes_end(s, sixth);
            let eighth = wire::ssh_bytes_end(s, seventh);
            let ninth = wire::ssh_bytes_end(s, eighth);
            let tenth = wire::ssh_bytes_end(s, ninth);
            let end = wire::ssh_bytes_end(s, tenth);
            &&& wire::ssh_bytes_at(s, offset) == none
            &&& wire::ssh_bytes_at(s, sixth) == none
            &&& wire::ssh_bytes_at(s, seventh) == none
            &&& wire::ssh_bytes_at(s, eighth) == none
            &&& wire::ssh_bytes_at(s, ninth) == blank
            &&& wire::ssh_bytes_at(s, tenth) == blank
            &&& s.skip(end) == seq![0u8, 0u8, 0u8, 0u8, 0u8]
        }),
{
    let zeros = seq![0u8, 0u8, 0u8, 0u8, 0u8];
    lemma_row_of_seven(wire::ssh_bytes(none), wire::ssh_bytes(blank), zeros);
    let blanks = wire::ssh_bytes(blank) + (wire::ssh_bytes(blank) + zeros);
    lemma_four_strings(s, offset, none, none, none, none, blanks);
    let sixth = wire::ssh_bytes_end(s, offset);
    let seventh = wire::ssh_bytes_end(s, sixth);
    let eighth = wire::ssh_bytes_end(s, seventh);
    let ninth = wire::ssh_bytes_end(s, eighth);
    lemma_two_strings(s, ninth, blank, blank, zeros);
}

/// Two byte strings in a row are read one after the other.
proof fn lemma_two_strings(s: Seq<u8>, offset: int, a: Seq<u8>, b: Seq<u8>, rest: Seq<u8>)
    requires
        0 <= offset <= s.len(),
        s.skip(offset) == wire::ssh_bytes(a) + (wire::ssh_bytes(b) + rest),
        a.len() < 0x1_0000_0000,
        b.len() < 0x1_0000_0000,
    ensures
        ({
            let second = wire::ssh_bytes_end(s, offset);
            let end = wire::ssh_bytes_end(s, second);
            &&& wire::ssh_bytes_at(s, offset) == a
            &&& wire::ssh_bytes_at(s, second) == b
            &&& 0 <= end <= s.len()
            &&& s.skip(end) == rest
        }),
{
    wire::lemma_pop_head(s, offset, a, wire::ssh_bytes(b) + rest);
    wire::lemma_pop_head(s, wire::ssh_bytes_end(s, offset), b, rest);
}

/// Four byte strings in a row are read one after the other.
proof fn lemma_four_strings(
    s: Seq<u8>,
    offset: int,
    a: Seq<u8>,
    b: Seq<u8>,
    c: Seq<u8>,
    d: Seq<u8>,
    rest: Seq<u8>,
)
    requires
        0 <= offset <= s.len(),
        s.skip(offset) == wire::ssh_bytes(a) + (wire::ssh_bytes(b) + (wire::ssh_bytes(c) + (
        wire::ssh_bytes(d) + rest))),
        a.len() < 0x1_0000_0000,
        b.len() < 0x1_0000_0000,
        c.len() < 0x1_0000_0000,
        d.len() < 0x1_0000_0000,
    ensures
        ({
            let second = wire::ssh_bytes_end(s, offset);
            let third = wire::ssh_bytes_end(s, second);
            let fourth = wire::ssh_bytes_end(s, third);
            let end = wire::ssh_bytes_end(s, fourth);
            &&& wire::ssh_bytes_at(s, offset) == a
            &&& wire::ssh_bytes_at(s, second) == b
            &&& wire::ssh_bytes_at(s, third) == c
            &&& wire::ssh_bytes_at(s, fourth) == d
            &&& wire::ssh_bytes_fit(s, fourth)
            &&& 0 <= end <= s.len()
            &&& s.skip(end) == rest
        }),
{
    let r3 = wire::ssh_bytes(d) + rest;
    let r2 = wire::ssh_bytes(c) + r3;
    let r1 = wire::ssh_bytes(b) + r2;
    wire::lemma_pop_head(s, offset, a, r1);
    let second = wire::ssh_bytes_end(s, offset);
    wire::lemma_pop_head(s, second, b, r2);
    let third = wire::ssh_bytes_end(s, second);
    wire::lemma_pop_head(s, third, c, r3);
    let fourth = wire::ssh_bytes_end(s, third);
    wire::lemma_pop_head(s, fourth, d, rest);
}

/// Of any proposal, the third byte string behind the cookie is the list of ciphers
/// from client to server, and the fourth the one from server to client.
pub proof fn law_cipher_lists_of_proposal(
    head: Seq<u8>,
    methods: Seq<u8>,
    kinds: Seq<u8>,
    up: Seq<u8>,
    down: Seq<u8>,
    rest: Seq<u8>,
)
    requires
        head.len() == 17,
        methods.len() < 0x1_0000_0000,
        kinds.len() < 0x1_0000_0000,
        up.len() < 0x1_0000_0000,
        down.len() < 0x1_0000_0000,
    ensures
        ({
            let payload = head + (wire::ssh_bytes(methods) + (wire::ssh_bytes(kinds) + (
            wire::ssh_bytes(up) + (wire::ssh_bytes(down) + rest))));
            let third = kex::third_list(payload);
            &&& kex::has_cipher_lists(payload)
            &&& wire::ssh_bytes_at(payload, third) == up
            &&& wire::ssh_bytes_at(payload, wire::ssh_bytes_end(payload, third)) == down
        }),
{
    let l3 = wire::ssh_bytes(down) + rest;
    let l2 = wire::ssh_bytes(up) + l3;
    let l1 = wire::ssh_bytes(kinds) + l2;
    let lists = wire::ssh_bytes(methods) + l1;
    let payload = head + lists;
    assert(payload.skip(17) =~= lists);
    wire::lemma_pop_head(payload, 17, methods, l1);
    let second = wire::ssh_bytes_end(payload, 17);
    wire::lemma_pop_head(payload, second, kinds, l2);
    let third = wire::ssh_bytes_end(payload, second);
    wire::lemma_pop_head(payload, third, up, l3);
    let fourth = wire::ssh_bytes_end(payload, third);
    wire::lemma_pop_head(payload, fourth, down, rest);
}

/// Messages count as whole only if all their byte strings are.
pub proof fn law_whole_messages(payload: Seq<u8>)
    ensures
        ({
            let second = wire::ssh_bytes_end(payload, 17);
            let third = wire::ssh_bytes_end(payload, second);
            let fourth = wire::ssh_bytes_end(payload, third);
            kex::has_cipher_lists(payload) ==> {
                &&& wire::ssh_bytes_fit(payload, 17)
                &&& wire::ssh_bytes_fit(payload, second)
                &&& wire::ssh_bytes_fit(payload, third)
                &&& wire::ssh_bytes_fit(payload, fourth)
            }
        }),
        ({
            let second = wire::ssh_bytes_end(payload, 1);
            let third = wire::ssh_bytes_end(payload, second);
            kex::has_ecdh_reply(payload) ==> {
                &&& wire::ssh_bytes_fit(payload, 1)
                &&& wire::ssh_bytes_fit(payload, second)
                &&& wire::ssh_bytes_fit(payload, third)
            }
        }),
        kex::has_named_blob(payload) ==> wire::ssh_bytes_fit(payload, 0) && wire::ssh_bytes_fit(
            payload,
            wire::ssh_bytes_end(payload, 0),
        ),
{
}

/// The client's half of the key agreement holds its number and the public key.
pub proof fn law_key_agreement_parts(public_key: Seq<u8>)
    requires
        public_key.len() < 0x1_0000_0000,
    ensures
        ({
            let payload = kex::ecdh_init_message(public_key);
            &&& payload[0] == 30
            &&& wire::ssh_bytes_fit(payload, 1)
            &&& wire::ssh_bytes_at(payload, 1) == public_key
            &&& wire::ssh_bytes_end(payload, 1) == payload.len()
        }),
{
    let payload = kex::ecdh_init_message(public_key);
    wire::law_pop_gives_back_push(seq![30u8], public_key, Seq::empty());
    assert(payload =~= seq![30u8] + wire::ssh_bytes(public_key) + Seq::<u8>::empty());
}

/// The server's half of the key agreement is whole if it holds the host key, the
/// public key and the signature, whatever stands before and behind them.
pub proof fn law_key_agreement_reply(
    number: u8,
    host_key: Seq<u8>,
    public_key: Seq<u8>,
    signature: Seq<u8>,
    rest: Seq<u8>,
)
    requires
        host_key.len() < 0x1_0000_0000,
        public_key.len() < 0x1_0000_0000,
        signature.len() < 0x1_0000_0000,
    ensures
        ({
            let payload = seq![number] + (wire::ssh_bytes(host_key) + (wire::ssh_bytes(public_key)
                + (wire::ssh_bytes(signature) + rest)));
            let second = wire::ssh_bytes_end(payload, 1);
            let third = wire::ssh_bytes_end(payload, second);
            &&& kex::has_ecdh_reply(payload)
            &&& wire::ssh_bytes_at(payload, 1) == host_key
            &&& wire::ssh_bytes_at(payload, second) == public_key
            &&& wire::ssh_bytes_at(payload, third) == signature
            &&& crate::handshake::signature_in(payload) == signature
        }),
{
    let r2 = wire::ssh_bytes(signature) + rest;
    let r1 = wire::ssh_bytes(public_key) + r2;
    let r0 = wire::ssh_bytes(host_key) + r1;
    let payload = seq![number] + r0;
    assert(payload.skip(1) =~= r0);
    wire::lemma_pop_head(payload, 1, host_key, r1);
    let second = wire::ssh_bytes_end(payload, 1);
    wire::lemma_pop_head(payload, second, public_key, r2);
    let third = wire::ssh_bytes_end(payload, second);
    wire::lemma_pop_head(payload, third, signature, rest);
}

/// A host key or a signature is whole if its name and its content are, and its
/// content is what stands behind the name.
pub proof fn law_content_behind_name(name: Seq<u8>, content: Seq<u8>, rest: Seq<u8>)
    requires
        name.len() < 0x1_0000_0000,
        content.len() < 0x1_0000_0000,
    ensures
        ({
            let bytes = wire::ssh_bytes(name) + (wire::ssh_bytes(content) + rest);
            &&& kex::has_named_blob(bytes)
            &&& kex::blob_of(bytes) == content
        }),
{
    let r1 = wire::ssh_bytes(content) + rest;
    let bytes = wire::ssh_bytes(name) + r1;
    assert(bytes.skip(0) =~= bytes);
    wire::lemma_pop_head(bytes, 0, name, r1);
    let second = wire::ssh_bytes_end(bytes, 0);
    wire::lemma_pop_head(bytes, second, content, rest);
}

/// A secret is sent as it is, with a zero byte in front exactly if its first bit is
/// set, so that the first bit of the number never is.
pub proof fn law_secret_as_number(secret: Seq<u8>)
    requires
        secret.len() > 0,
    ensures
        secret[0] < 128 ==> kex::secret_number(secret) == secret,
        secret[0] >= 128 ==> kex::secret_number(secret) == seq![0u8] + secret,
        kex::secret_number(secret)[0] < 128,
{
}

/// What goes under the hash: the opening as it was, the two keys of the server, the
/// public key of the client's private key, and the secret that this private key
/// shares with the server's public key.
pub proof fn law_completed_exchange(
    opening: Opening,
    private: EphemeralPrivateKey,
    host_key: Seq<u8>,
    public_key: Seq<u8>,
    own: Seq<u8>,
    secret: Seq<u8>,
)
    requires
        primitives::public_key_of(private) == Some(own),
        primitives::x25519_secret(private, public_key) == Some(secret),
        secret.len() == 32,
    ensures
        ({
            let said = exchange::completed(opening, private, host_key, public_key);
            &&& said.server_version == opening.server_version@
            &&& said.client_kexinit == opening.client_kexinit@
            &&& said.server_kexinit == opening.server_kexinit@
            &&& said.host_key == host_key
            &&& said.client_public == own
            &&& said.server_public == public_key
            &&& said.secret == (if secret[0] < 128 {
                secret
            } else {
                seq![0u8] + secret
            })
        }),
{
    law_secret_as_number(secret);
}

/// An exchange is the server's exactly if the content of the signature is an Ed25519
/// signature of the SHA-256 digest of the hashed bytes, under the content of the
/// host key; the server's version counts as the text that its line is read as.
pub proof fn law_verdict(said: TranscriptModel, signature: Seq<u8>)
    ensures
        ({
            let data = said.data(primitives::utf8_lossy_text(said.server_version));
            let whole = kex::has_named_blob(said.host_key) && kex::has_named_blob(signature);
            let signed = primitives::ed25519_valid(
                kex::blob_of(said.host_key),
                primitives::sha256_digest(data),
                kex::blob_of(signature),
            );
            exchange::verdict(said, signature) == (if data.len() > 0x1fff_ffff_ffff_ffff {
                Err(ExchangeError::TooLong)
            } else if !whole {
                Err(ExchangeError::HostKey(HostKeyError::Malformed))
            } else if !signed {
                Err(ExchangeError::HostKey(HostKeyError::BadSignature))
            } else {
                Ok(())
            })
        }),
        exchange::hashed(said) == said.data(primitives::utf8_lossy_text(said.server_version)),
        exchange::is_signed(said, signature) == primitives::ed25519_valid(
            kex::blob_of(said.host_key),
            primitives::sha256_digest(
                said.data(primitives::utf8_lossy_text(said.server_version)),
            ),
            kex::blob_of(signature),
        ),
{
}

/// The session is found with the client's list and the server's list of ciphers from
/// client to server, which is read as text.
pub proof fn law_finding_a_session(
    offered: Seq<char>,
    head: Seq<u8>,
    methods: Seq<u8>,
    kinds: Seq<u8>,
    up: Seq<u8>,
    down: Seq<u8>,
    rest: Seq<u8>,
)
    requires
        head.len() == 17,
        methods.len() < 0x1_0000_0000,
        kinds.len() < 0x1_0000_0000,
        up.len() < 0x1_0000_0000,
        down.len() < 0x1_0000_0000,
    ensures
        ({
            let proposal = head + (wire::ssh_bytes(methods) + (wire::ssh_bytes(kinds) + (
            wire::ssh_bytes(up) + (wire::ssh_bytes(down) + rest))));
            exchange::session_outcome(offered, proposal) == (match keys::outcome(
                offered,
                primitives::utf8_lossy_text(up),
            ) {
                Outcome::NoCommonCipher => SessionOutcome::NoCommonCipher,
                Outcome::UnsupportedCipher { name } => SessionOutcome::UnsupportedCipher { name },
                Outcome::Chosen { name, .. } => match cipher::kind_of(name) {
                    Some(_) => SessionOutcome::Found { name },
                    None => SessionOutcome::UnsupportedCipher { name },
                },
            })
        }),
{
    law_cipher_lists_of_proposal(head, methods, kinds, up, down, rest);
}

/// A proposal without four whole byte strings behind the cookie gives no session.
pub proof fn law_cut_short_proposal(offered: Seq<char>, proposal: Seq<u8>)
    requires
        !kex::has_cipher_lists(proposal),
    ensures
        exchange::session_outcome(offered, proposal) == SessionOutcome::MalformedProposal,
{
}

/// A result stands for the outcome with its name.
pub proof fn law_session_is_its_outcome(session: Session, name: String)
    ensures
        exchange::session_outcome_of(Ok(session)) == (SessionOutcome::Found {
            name: session.name@,
        }),
        exchange::session_outcome_of(Err(SessionError::MalformedProposal))
            == SessionOutcome::MalformedProposal,
        exchange::session_outcome_of(Err(SessionError::NoCommonCipher))
            == SessionOutcome::NoCommonCipher,
        exchange::session_outcome_of(Err(SessionError::UnsupportedCipher { name })) == (
        SessionOutcome::UnsupportedCipher { name: name@ }),
{
}

/// The ciphers of a session are of the kind that was found, and take their keys from
/// the secret and the hash of the exchange: under the label `C` from client to
/// server, and under `D` from server to client.
pub proof fn law_session_keys(exchange: Exchange, offered: Seq<char>, session: Session)
    requires
        exchange::is_session(exchange, offered, Ok(session)),
    ensures
        ({
            let (secret, hash) = (exchange.said().secret, exchange.session_id());
            let up = session.ciphers.client_to_server;
            let down = session.ciphers.server_to_client;
            &&& exchange::session_outcome(offered, exchange.said().server_kexinit) == (
            SessionOutcome::Found { name: session.name@ })
            &&& cipher::kind_of(session.name@) == Some(up.kind())
            &&& cipher::kind_of(session.name@) == Some(down.kind())
            &&& up.key_material() == keys::derived_key(
                secret,
                hash,
                67,
                hash,
                up.key_material().len(),
            )
            &&& down.key_material() == keys::derived_key(
                secret,
                hash,
                68,
                hash,
                down.key_material().len(),
            )
            &&& keys::blocks_are_whole(secret, hash, 67, hash, up.key_material().len())
            &&& keys::blocks_are_whole(secret, hash, 68, hash, down.key_material().len())
        }),
{
}

/// A lack of a session is reported as it is.
pub proof fn law_no_session(exchange: Exchange, offered: Seq<char>, error: SessionError)
    requires
        exchange::is_session(exchange, offered, Err(error)),
    ensures
        exchange::session_outcome(offered, exchange.said().server_kexinit)
            == exchange::session_outcome_of(Err(error)),
{
}

} // verus!

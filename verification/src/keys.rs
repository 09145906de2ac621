//! From the agreed secret to the two ciphers of the session.

use vstd::prelude::*;
use crate::algorithms;
use crate::cipher;
use crate::cipher::Cipher;
use crate::primitives;
use crate::text;
use crate::wire;

verus! {

/// The label under which the key from client to server is derived: `C`.
pub const CLIENT_LABEL: u8 = 67;

/// The label under which the key from server to client is derived: `D`.
pub const SERVER_LABEL: u8 = 68;

/// The `i`th block of key material: the first is a digest of secret, exchange
/// hash, label and session id, every other one of secret, exchange hash and the
/// block before.
pub open spec fn key_block(
    k: Seq<u8>,
    h: Seq<u8>,
    label: u8,
    session_id: Seq<u8>,
    i: nat,
) -> Seq<u8>
    decreases i,
{
    if i == 0 {
        primitives::sha256_digest(wire::ssh_bytes(k) + h + seq![label] + session_id)
    } else {
        primitives::sha256_digest(
            wire::ssh_bytes(k) + h + key_block(k, h, label, session_id, (i - 1) as nat),
        )
    }
}

/// The first `len` bytes of the blocks of key material, 32 bytes each.
pub open spec fn derived_key(
    k: Seq<u8>,
    h: Seq<u8>,
    label: u8,
    session_id: Seq<u8>,
    len: nat,
) -> Seq<u8> {
    Seq::new(len, |i: int| key_block(k, h, label, session_id, (i / 32) as nat)[i % 32])
}

/// Whether each block that the first `len` bytes of key material come from has 32
/// bytes.
pub open spec fn blocks_are_whole(
    k: Seq<u8>,
    h: Seq<u8>,
    label: u8,
    session_id: Seq<u8>,
    len: nat,
) -> bool {
    forall|i: nat| 32 * i < len ==> #[trigger] key_block(k, h, label, session_id, i).len() == 32
}

/// Derives `len` bytes of key material.
pub fn derive_ssh_key(k: &[u8], h: &[u8], label: u8, session_id: &[u8], len: usize) -> (out: Vec<
    u8,
>)
    requires
        4 + k@.len() + h@.len() + 1 + session_id@.len() <= primitives::SHA256_MAX,
        4 + k@.len() + h@.len() + 32 <= primitives::SHA256_MAX,
    ensures
        out@ == derived_key(k@, h@, label, session_id@, len as nat),
        blocks_are_whole(k@, h@, label, session_id@, len as nat),
        forall|i: int|
            0 <= i < len && i < 32 ==> #[trigger] out@[i] == primitives::sha256_digest(
                wire::ssh_bytes(k@) + h@ + seq![label] + session_id@,
            )[i],
        forall|i: int|
            32 <= i < len ==> #[trigger] out@[i] == primitives::sha256_digest(
                wire::ssh_bytes(k@) + h@ + out@.subrange(i - i % 32 - 32, i - i % 32),
            )[i % 32],
{
    let mut k_enc: Vec<u8> = Vec::new();
    wire::push_ssh_bytes(&mut k_enc, k);
    assert(k_enc@ =~= wire::ssh_bytes(k@));
    let mut first: Vec<u8> = k_enc.clone();
    wire::push_bytes(&mut first, h);
    wire::push_byte(&mut first, label);
    wire::push_bytes(&mut first, session_id);
    let mut current_digest = primitives::sha256(&first);
    let mut out: Vec<u8> = Vec::new();
    wire::push_bytes(&mut out, &current_digest);
    let ghost mut blocks: nat = 1;
    assert(out@ =~= derived_key(k@, h@, label, session_id@, 32));
    while out.len() < len
        invariant
            blocks >= 1,
            4 + k@.len() + h@.len() + 32 <= primitives::SHA256_MAX,
            k_enc@ == wire::ssh_bytes(k@),
            current_digest@ == key_block(k@, h@, label, session_id@, (blocks - 1) as nat),
            current_digest@.len() == 32,
            out@ == derived_key(k@, h@, label, session_id@, 32 * blocks),
            blocks_are_whole(k@, h@, label, session_id@, 32 * blocks),
        decreases len + 32 - out@.len(),
    {
        let mut next: Vec<u8> = k_enc.clone();
        wire::push_bytes(&mut next, h);
        wire::push_bytes(&mut next, &current_digest);
        current_digest = primitives::sha256(&next);
        wire::push_bytes(&mut out, &current_digest);
        proof {
            blocks = blocks + 1;
            assert(out@ =~= derived_key(k@, h@, label, session_id@, 32 * blocks));
        }
    }
    out.truncate(len);
    assert(out@ =~= derived_key(k@, h@, label, session_id@, len as nat));
    proof {
        law_key_is_made_of_digests(k@, h@, label, session_id@, len as nat);
    }
    out
}

/// The first 32 bytes of a key are the digest of the whole secret behind its
/// length, the exchange hash, the label and the session id; each further 32 bytes
/// are the digest of the secret behind its length, the exchange hash and the 32
/// bytes before.
pub proof fn law_key_is_made_of_digests(
    k: Seq<u8>,
    h: Seq<u8>,
    label: u8,
    session_id: Seq<u8>,
    len: nat,
)
    requires
        blocks_are_whole(k, h, label, session_id, len),
    ensures
        ({
            let key = derived_key(k, h, label, session_id, len);
            let secret = wire::be32((k.len() % 0x1_0000_0000) as u32) + k;
            &&& key.len() == len
            &&& forall|i: int|
                0 <= i < len && i < 32 ==> #[trigger] key[i] == primitives::sha256_digest(
                    secret + h + seq![label] + session_id,
                )[i]
            &&& forall|i: int|
                32 <= i < len ==> #[trigger] key[i] == primitives::sha256_digest(
                    secret + h + key.subrange(i - i % 32 - 32, i - i % 32),
                )[i % 32]
        }),
{
    let key = derived_key(k, h, label, session_id, len);
    let secret = wire::be32((k.len() % 0x1_0000_0000) as u32) + k;
    assert(secret == wire::ssh_bytes(k));
    assert forall|i: int| 32 <= i < len implies #[trigger] key[i] == primitives::sha256_digest(
        secret + h + key.subrange(i - i % 32 - 32, i - i % 32),
    )[i % 32] by {
        let n = (i / 32) as nat;
        let before = key_block(k, h, label, session_id, (n - 1) as nat);
        assert(32 * (n - 1) < len);
        assert(before.len() == 32);
        let part = key.subrange(i - i % 32 - 32, i - i % 32);
        assert(part =~= before) by {
            assert forall|j: int| 0 <= j < 32 implies part[j] == before[j] by {
                let at = 32 * (n - 1) + j;
                assert(part[j] == key[at]);
                assert(at / 32 == n - 1 && at % 32 == j);
            }
        }
    }
}

/// A shorter key is the beginning of a longer one.
pub proof fn law_shorter_key_is_prefix(
    k: Seq<u8>,
    h: Seq<u8>,
    label: u8,
    session_id: Seq<u8>,
    short: nat,
    long: nat,
)
    requires
        short <= long,
    ensures
        derived_key(k, h, label, session_id, short) == derived_key(k, h, label, session_id, long).take(
            short as int,
        ),
{
    assert(derived_key(k, h, label, session_id, short) =~= derived_key(
        k,
        h,
        label,
        session_id,
        long,
    ).take(short as int));
}

/// A cipher that both sides have, and how much key material it is given.
pub struct Choice {
    pub name: String,
    pub key_len: usize,
}

/// Why there is no cipher for the session.
pub enum NegotiationError {
    /// The two sides have no cipher in common.
    NoCommonCipher,
    /// The cipher in common is none for which keys are derived.
    UnsupportedCipher { name: String },
}

/// The outcome of a negotiation, with the name of the cipher in common.
pub enum Outcome {
    NoCommonCipher,
    UnsupportedCipher { name: Seq<char> },
    Chosen { name: Seq<char>, key_len: nat },
}

/// How the negotiation between an offer and a server's list ends. An empty name
/// in common does not count as a cipher.
pub open spec fn outcome(offered: Seq<char>, server_list: Seq<char>) -> Outcome {
    match algorithms::first_common(algorithms::names(offered), algorithms::names(server_list)) {
        None => Outcome::NoCommonCipher,
        Some(name) => if name.len() == 0 {
            Outcome::NoCommonCipher
        } else {
            match algorithms::key_len_of(name) {
                None => Outcome::UnsupportedCipher { name },
                Some(key_len) => Outcome::Chosen { name, key_len },
            }
        },
    }
}

/// The outcome that a result stands for.
pub open spec fn outcome_of(choice: Result<Choice, NegotiationError>) -> Outcome {
    match choice {
        Ok(c) => Outcome::Chosen { name: c.name@, key_len: c.key_len as nat },
        Err(NegotiationError::NoCommonCipher) => Outcome::NoCommonCipher,
        Err(NegotiationError::UnsupportedCipher { name }) => Outcome::UnsupportedCipher {
            name: name@,
        },
    }
}

/// Chooses the first cipher of the offer that is in the server's list.
pub fn choose_cipher(offered: &str, server_list: &str) -> (choice: Result<Choice, NegotiationError>)
    ensures
        outcome_of(choice) == outcome(offered@, server_list@),
{
    let name = algorithms::find_common_cipher(offered.to_owned(), server_list);
    if text::is_empty(&name) {
        return Err(NegotiationError::NoCommonCipher);
    }
    match algorithms::cipher_key_len(&name) {
        Some(key_len) => Ok(Choice { name, key_len }),
        None => Err(NegotiationError::UnsupportedCipher { name }),
    }
}

/// Chooses the cipher of the session, the server's list being as it came: what
/// is not UTF-8 in it is replaced.
pub fn negotiate(offered: &str, server_list: &[u8]) -> (choice: Result<Choice, NegotiationError>)
    ensures
        outcome_of(choice) == outcome(offered@, primitives::utf8_lossy_text(server_list@)),
        vstd::utf8::valid_utf8(server_list@) ==> outcome_of(choice) == outcome(
            offered@,
            vstd::utf8::decode_utf8(server_list@),
        ),
{
    let list = primitives::utf8_lossy(server_list);
    choose_cipher(offered, &list)
}

/// The ciphers of a session, one for each direction.
pub struct SessionCiphers {
    pub client_to_server: Cipher,
    pub server_to_client: Cipher,
}

/// Makes the ciphers of a session from the shared secret, as a number on the
/// wire, and the exchange hash, which is the session id too. `None` for a name
/// that stands for no cipher or too little key material for it.
pub fn make_ciphers(name: &str, key_len: usize, secret: &[u8], hash: &[u8]) -> (ciphers: Option<
    SessionCiphers,
>)
    requires
        4 + secret@.len() + 2 * hash@.len() + 1 <= primitives::SHA256_MAX,
        4 + secret@.len() + hash@.len() + 32 <= primitives::SHA256_MAX,
    ensures
        ciphers is Some <==> (cipher::kind_of(name@) matches Some(kind) && key_len
            >= kind.key_len()),
        ciphers matches Some(c) ==> {
            &&& cipher::kind_of(name@) == Some(c.client_to_server.kind())
            &&& cipher::kind_of(name@) == Some(c.server_to_client.kind())
            &&& c.client_to_server.key_material() == derived_key(
                secret@,
                hash@,
                CLIENT_LABEL,
                hash@,
                key_len as nat,
            ).take(c.client_to_server.kind().key_len())
            &&& c.server_to_client.key_material() == derived_key(
                secret@,
                hash@,
                SERVER_LABEL,
                hash@,
                key_len as nat,
            ).take(c.server_to_client.kind().key_len())
            &&& blocks_are_whole(secret@, hash@, CLIENT_LABEL, hash@, key_len as nat)
            &&& blocks_are_whole(secret@, hash@, SERVER_LABEL, hash@, key_len as nat)
        },
{
    let key_c = derive_ssh_key(secret, hash, CLIENT_LABEL, hash, key_len);
    let key_d = derive_ssh_key(secret, hash, SERVER_LABEL, hash, key_len);
    match (Cipher::new(name, &key_c), Cipher::new(name, &key_d)) {
        (Some(client_to_server), Some(server_to_client)) => Some(
            SessionCiphers { client_to_server, server_to_client },
        ),
        _ => None,
    }
}

/// A cipher that was chosen is given just the key material that it takes, so that
/// there are ciphers for the session whenever its name stands for one.
pub proof fn law_chosen_cipher_has_its_keys(offered: Seq<char>, server_list: Seq<char>)
    ensures
        outcome(offered, server_list) matches Outcome::Chosen { name, key_len } ==> (
        cipher::kind_of(name) matches Some(kind) ==> key_len == kind.key_len()),
{
    if let Outcome::Chosen { name, key_len } = outcome(offered, server_list) {
        algorithms::lemma_aes192_gets_no_key();
        if name != "aes192-gcm@openssh.com"@ {
            algorithms::law_key_len_fits_cipher(name);
        }
    }
}

/// The cipher that is chosen was offered, and is in the server's list.
pub proof fn law_chosen_cipher_is_common(offered: Seq<char>, server_list: Seq<char>)
    ensures
        outcome(offered, server_list) matches Outcome::Chosen { name, .. } ==> {
            &&& algorithms::names(offered).contains(name)
            &&& algorithms::names(server_list).contains(name)
        },
{
    algorithms::law_first_common_is_first(
        algorithms::names(offered),
        algorithms::names(server_list),
    );
}

/// A cipher that the client was told to exclude from its own list is never
/// chosen. A list that the client was given instead of its own is offered as it
/// is, so this says nothing of one.
pub proof fn law_excluded_cipher_is_not_chosen(excluded: Seq<char>, server_list: Seq<char>)
    ensures
        outcome(algorithms::offer(None, Some(excluded)), server_list) matches Outcome::Chosen {
            name,
            ..
        } ==> !algorithms::names(excluded).contains(name),
{
    let own = algorithms::DEFAULT_CIPHERS@;
    let offered = algorithms::offer(None, Some(excluded));
    algorithms::law_filtering_leaves_the_rest(own, excluded);
    law_chosen_cipher_is_common(offered, server_list);
    let left = algorithms::without(algorithms::names(own), algorithms::names(excluded));
    if let Outcome::Chosen { name, .. } = outcome(offered, server_list) {
        if left.len() == 0 {
            assert(algorithms::names(offered) =~= seq![Seq::<char>::empty()]);
        } else {
            assert(left.contains(name));
        }
    }
}

} // verus!

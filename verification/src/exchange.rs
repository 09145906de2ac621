//! The end of the key exchange: only a server that has proved who it is gets a
//! session.

use vstd::prelude::*;
use crate::cipher;
use crate::kex;
use crate::kex::{AgreementError, EcdhReply, HostKeyError, KeyPair, Transcript, TranscriptModel};
use crate::keys;
use crate::keys::{NegotiationError, Outcome, SessionCiphers};
use crate::primitives;
use crate::wire;
use ring::agreement::EphemeralPrivateKey;

verus! {

/// What both sides have said before they agree on a secret.
pub struct Opening {
    /// The server's version line, with its newline.
    pub server_version: Vec<u8>,
    pub client_kexinit: Vec<u8>,
    pub server_kexinit: Vec<u8>,
}

/// What goes under the exchange hash once both keys are known: the public key of
/// the client's private key, the server's two keys, and the secret shared between
/// the private key and the server's public key.
pub open spec fn completed(
    opening: Opening,
    private: EphemeralPrivateKey,
    host_key: Seq<u8>,
    public_key: Seq<u8>,
) -> TranscriptModel {
    TranscriptModel {
        server_version: opening.server_version@,
        client_kexinit: opening.client_kexinit@,
        server_kexinit: opening.server_kexinit@,
        host_key,
        client_public: primitives::public_key_of(private).unwrap(),
        server_public: public_key,
        secret: kex::secret_number(primitives::x25519_secret(private, public_key).unwrap()),
    }
}

/// Agrees on a secret with the key in the server's reply and completes what goes
/// under the exchange hash: the client's own public key, and the host key and
/// the public key of that same reply.
pub fn complete(opening: Opening, pair: KeyPair, reply: &EcdhReply) -> (transcript: Result<
    Transcript,
    AgreementError,
>)
    ensures
        transcript is Ok <==> primitives::x25519_secret(
            pair.private_key(),
            reply.public_key@,
        ) is Some,
        transcript matches Err(e) ==> e == AgreementError::NoAgreement,
        transcript matches Ok(t) ==> {
            &&& t@ == completed(
                opening,
                pair.private_key(),
                reply.host_key@,
                reply.public_key@,
            )
            &&& primitives::public_key_of(pair.private_key()) == Some(t.client_public@)
            &&& t.secret@.len() <= 33
        },
{
    let client_public: Vec<u8> = vstd::slice::slice_to_vec(pair.public_key());
    match pair.agree(&reply.public_key) {
        Err(e) => Err(e),
        Ok(secret) => Ok(
            Transcript {
                server_version: opening.server_version,
                client_kexinit: opening.client_kexinit,
                server_kexinit: opening.server_kexinit,
                host_key: vstd::slice::slice_to_vec(&reply.host_key),
                client_public,
                server_public: vstd::slice::slice_to_vec(&reply.public_key),
                secret,
            },
        ),
    }
}

/// A key exchange that the server has signed. There is no other way to have one
/// than [`authenticate`].
pub struct Exchange {
    transcript: Transcript,
    hash: Vec<u8>,
}

/// Why a key exchange came to nothing.
#[derive(Debug, Clone, Copy, PartialEq, Eq, Structural)]
pub enum ExchangeError {
    /// There is more to hash than SHA-256 takes.
    TooLong,
    /// The host key or the signature is refused.
    HostKey(HostKeyError),
}

/// The bytes under the hash of an exchange.
pub open spec fn hashed(transcript: TranscriptModel) -> Seq<u8> {
    transcript.data(primitives::utf8_lossy_text(transcript.server_version))
}

/// Whether a signature is the server's, under the host key of the exchange and of
/// the hash of the exchange.
pub open spec fn is_signed(transcript: TranscriptModel, signature: Seq<u8>) -> bool {
    primitives::ed25519_valid(
        kex::blob_of(transcript.host_key),
        primitives::sha256_digest(hashed(transcript)),
        kex::blob_of(signature),
    )
}

/// The verdict on an exchange and its signature.
pub open spec fn verdict(transcript: TranscriptModel, signature: Seq<u8>) -> Result<(), ExchangeError> {
    if hashed(transcript).len() > primitives::SHA256_MAX {
        Err(ExchangeError::TooLong)
    } else if !kex::has_named_blob(transcript.host_key) || !kex::has_named_blob(signature) {
        Err(ExchangeError::HostKey(HostKeyError::Malformed))
    } else if !is_signed(transcript, signature) {
        Err(ExchangeError::HostKey(HostKeyError::BadSignature))
    } else {
        Ok(())
    }
}

/// An exchange that is not the server's, and why.
pub struct Refusal {
    pub transcript: Transcript,
    pub error: ExchangeError,
}

/// Takes an exchange for the server's if its signature is.
pub fn authenticate(transcript: Transcript, signature: &[u8]) -> (exchange: Result<
    Exchange,
    Refusal,
>)
    requires
        transcript.secret@.len() <= 33,
    ensures
        exchange is Ok <==> verdict(transcript@, signature@) is Ok,
        exchange matches Err(refusal) ==> {
            &&& verdict(transcript@, signature@) == Err::<(), ExchangeError>(refusal.error)
            &&& refusal.transcript@ == transcript@
        },
        exchange matches Ok(e) ==> {
            &&& e.said() == transcript@
            &&& e.session_id() == primitives::sha256_digest(hashed(transcript@))
        },
{
    let hash = match transcript.exchange_hash() {
        Some(hash) => hash,
        None => return Err(Refusal { transcript, error: ExchangeError::TooLong }),
    };
    match kex::verify_host(&transcript.host_key, signature, &hash) {
        Err(e) => Err(Refusal { transcript, error: ExchangeError::HostKey(e) }),
        Ok(_) => Ok(Exchange { transcript, hash }),
    }
}

/// The ciphers of a session and the name that both sides know them by.
pub struct Session {
    pub name: String,
    pub ciphers: SessionCiphers,
}

/// Why there is no session after a key exchange.
pub enum SessionError {
    /// The server's proposal is cut short.
    MalformedProposal,
    /// The two sides have no cipher in common.
    NoCommonCipher,
    /// The cipher in common is none that the client has.
    UnsupportedCipher { name: String },
}

/// How the search for a session ends.
pub enum SessionOutcome {
    MalformedProposal,
    NoCommonCipher,
    UnsupportedCipher { name: Seq<char> },
    Found { name: Seq<char> },
}

/// How the search for a session ends, given the client's offer and the server's
/// proposal. The server's list for what the client sends decides the cipher of
/// both directions.
pub open spec fn session_outcome(offered: Seq<char>, proposal: Seq<u8>) -> SessionOutcome {
    if !kex::has_cipher_lists(proposal) {
        SessionOutcome::MalformedProposal
    } else {
        let list = wire::ssh_bytes_at(proposal, kex::third_list(proposal));
        match keys::outcome(offered, primitives::utf8_lossy_text(list)) {
            Outcome::NoCommonCipher => SessionOutcome::NoCommonCipher,
            Outcome::UnsupportedCipher { name } => SessionOutcome::UnsupportedCipher { name },
            Outcome::Chosen { name, .. } => if cipher::kind_of(name) is None {
                SessionOutcome::UnsupportedCipher { name }
            } else {
                SessionOutcome::Found { name }
            },
        }
    }
}

/// The outcome that a result stands for.
pub open spec fn session_outcome_of(session: Result<Session, SessionError>) -> SessionOutcome {
    match session {
        Ok(s) => SessionOutcome::Found { name: s.name@ },
        Err(SessionError::MalformedProposal) => SessionOutcome::MalformedProposal,
        Err(SessionError::NoCommonCipher) => SessionOutcome::NoCommonCipher,
        Err(SessionError::UnsupportedCipher { name }) => SessionOutcome::UnsupportedCipher {
            name: name@,
        },
    }
}

/// Whether a result is what an exchange and an offer come to: its outcome, and
/// with a session the ciphers of both directions from the keys of the exchange.
pub open spec fn is_session(
    exchange: Exchange,
    offered: Seq<char>,
    session: Result<Session, SessionError>,
) -> bool {
    &&& session_outcome_of(session) == session_outcome(offered, exchange.said().server_kexinit)
    &&& session matches Ok(s) ==> {
        let up = s.ciphers.client_to_server;
        let down = s.ciphers.server_to_client;
        &&& cipher::kind_of(s.name@) == Some(up.kind())
        &&& cipher::kind_of(s.name@) == Some(down.kind())
        &&& up.key_material() == exchange.key_for(keys::CLIENT_LABEL, up.kind().key_len())
        &&& down.key_material() == exchange.key_for(keys::SERVER_LABEL, down.kind().key_len())
        &&& exchange.blocks_are_whole(keys::CLIENT_LABEL, up.kind().key_len())
        &&& exchange.blocks_are_whole(keys::SERVER_LABEL, down.kind().key_len())
    }
}

impl Exchange {
    #[verifier::type_invariant]
    closed spec fn wf(self) -> bool {
        self.transcript.secret@.len() <= 33 && self.hash@.len() == 32
    }

    /// What both sides have said and agreed on.
    pub closed spec fn said(self) -> TranscriptModel {
        self.transcript@
    }

    /// The hash of the exchange, which names the session.
    pub closed spec fn session_id(self) -> Seq<u8> {
        self.hash@
    }

    /// What both sides have said and agreed on.
    pub fn transcript(&self) -> (transcript: &Transcript)
        ensures
            transcript@ == self.said(),
    {
        &self.transcript
    }

    /// The key material of a cipher in the direction with this label.
    pub open spec fn key_for(self, label: u8, len: int) -> Seq<u8> {
        keys::derived_key(self.said().secret, self.session_id(), label, self.session_id(), len as nat)
    }

    /// Whether the blocks under that key material have 32 bytes each.
    pub open spec fn blocks_are_whole(self, label: u8, len: int) -> bool {
        keys::blocks_are_whole(
            self.said().secret,
            self.session_id(),
            label,
            self.session_id(),
            len as nat,
        )
    }

    /// Finds the cipher that both sides have and makes it for both directions.
    /// A [`crate::handshake::Handshake`] does so with the list in its own proposal.
    pub fn session(&self, offered: &str) -> (session: Result<Session, SessionError>)
        ensures
            is_session(*self, offered@, session),
    {
        proof {
            use_type_invariant(self);
        }
        let lists = match kex::parse_kexinit(&self.transcript.server_kexinit) {
            Some(lists) => lists,
            None => return Err(SessionError::MalformedProposal),
        };
        let ghost list = primitives::utf8_lossy_text(lists.client_to_server@);
        let choice = match keys::negotiate(offered, &lists.client_to_server) {
            Ok(choice) => choice,
            Err(NegotiationError::NoCommonCipher) => return Err(SessionError::NoCommonCipher),
            Err(NegotiationError::UnsupportedCipher { name }) => return Err(
                SessionError::UnsupportedCipher { name },
            ),
        };
        proof {
            keys::law_chosen_cipher_has_its_keys(offered@, list);
        }
        match keys::make_ciphers(&choice.name, choice.key_len, &self.transcript.secret, &self.hash) {
            Some(ciphers) => {
                proof {
                    let kind = ciphers.client_to_server.kind();
                    let len = choice.key_len as int;
                    assert(len == kind.key_len());
                    let up = self.key_for(keys::CLIENT_LABEL, len);
                    assert(up.take(len) =~= up);
                    let down = self.key_for(keys::SERVER_LABEL, len);
                    assert(down.take(len) =~= down);
                }
                Ok(Session { name: choice.name, ciphers })
            },
            None => Err(SessionError::UnsupportedCipher { name: choice.name }),
        }
    }
}

} // verus!

//! The order of the key exchange: what the client waits for, what it makes of it
//! and what it sends next, from the two proposals to the ciphers of the session.

use vstd::prelude::*;
use crate::exchange;
use crate::exchange::{Exchange, Opening, Refusal, Session, SessionError};
use crate::kex;
use crate::kex::{AgreementError, KeyPair, Transcript};
use crate::message;
use crate::message::{MessageError, SshMessage};
use crate::primitives;
use crate::wire;

verus! {

/// How far the key exchange has come, with what is needed to go on.
pub enum KexPhase {
    /// The client's proposal is out, and the server's is waited for.
    KexInit { server_version: Vec<u8>, offered: String, client_kexinit: Vec<u8> },
    /// The client's public key is out, and the server's reply is waited for.
    Reply { offered: String, opening: Opening, pair: KeyPair },
    /// The server has proved who it is, the new keys are announced, and the
    /// server's announcement is waited for.
    NewKeys { offered: String, exchange: Exchange },
}

/// The one kind of message that a phase waits for.
pub open spec fn kind_due(phase: KexPhase) -> SshMessage {
    match phase {
        KexPhase::KexInit { .. } => SshMessage::KexInit,
        KexPhase::Reply { .. } => SshMessage::KexEcdhReply,
        KexPhase::NewKeys { .. } => SshMessage::NewKeys,
    }
}

/// The list of ciphers that the session is to be found with.
pub open spec fn list_of(phase: KexPhase) -> Seq<char> {
    match phase {
        KexPhase::KexInit { offered, .. } => offered@,
        KexPhase::Reply { offered, .. } => offered@,
        KexPhase::NewKeys { offered, .. } => offered@,
    }
}

/// The proposal that the client has sent.
pub open spec fn proposal_of(phase: KexPhase) -> Seq<u8> {
    match phase {
        KexPhase::KexInit { client_kexinit, .. } => client_kexinit@,
        KexPhase::Reply { opening, .. } => opening.client_kexinit@,
        KexPhase::NewKeys { exchange, .. } => exchange.said().client_kexinit,
    }
}

/// Whether a proposal of the client's offers just this list.
pub open spec fn proposes(proposal: Seq<u8>, offered: Seq<char>) -> bool {
    proposal.len() >= 17 && proposal == kex::kexinit_message(proposal.subrange(1, 17), offered)
}

/// A key exchange under way. The list in it is the one in the client's proposal.
pub struct Handshake {
    phase: KexPhase,
}

/// What comes of a message.
pub enum Step {
    /// This is sent, and the exchange goes on.
    Send { next: Handshake, payload: Vec<u8> },
    /// The session is there, and nothing is sent.
    Settled { session: Session },
}

/// Why a key exchange is given up.
pub enum HandshakeError {
    /// The message is not the one that is due.
    Message(MessageError),
    /// The client has no keys, or no secret in common with the server.
    Agreement(AgreementError),
    /// The server's reply is cut short.
    MalformedReply,
    /// The server has not proved who it is.
    Unauthentic(Refusal),
    /// There is no session.
    NoSession(SessionError),
}

/// What follows the server's proposal, for the key pair that the client has got:
/// the client's public key is sent.
pub open spec fn follows_proposal(
    phase: KexPhase,
    server_kexinit: Seq<u8>,
    pair: Result<KeyPair, AgreementError>,
    step: Result<Step, HandshakeError>,
) -> bool
    recommends
        phase is KexInit,
{
    match (pair, step) {
        (Err(e), Err(HandshakeError::Agreement(reported))) => reported == e,
        (Ok(p), Ok(Step::Send { next, payload })) => {
            &&& primitives::public_key_of(p.private_key()) is Some
            &&& payload@ == kex::ecdh_init_message(
                primitives::public_key_of(p.private_key()).unwrap(),
            )
            &&& next.phase() matches KexPhase::Reply { offered, opening, pair: kept }
            &&& offered@ == list_of(phase)
            &&& opening.server_version@ == phase->server_version@
            &&& opening.client_kexinit@ == proposal_of(phase)
            &&& opening.server_kexinit@ == server_kexinit
            &&& kept == p
        },
        _ => false,
    }
}

/// What the exchange comes to with the server's reply: the host key and the
/// public key of the reply, under the secret shared with that key.
pub open spec fn said_with_reply(phase: KexPhase, reply: Seq<u8>) -> kex::TranscriptModel
    recommends
        phase is Reply,
{
    exchange::completed(
        phase->opening,
        phase->pair.private_key(),
        wire::ssh_bytes_at(reply, 1),
        wire::ssh_bytes_at(reply, wire::ssh_bytes_end(reply, 1)),
    )
}

/// The signature in the server's reply.
pub open spec fn signature_in(reply: Seq<u8>) -> Seq<u8> {
    wire::ssh_bytes_at(
        reply,
        wire::ssh_bytes_end(reply, wire::ssh_bytes_end(reply, 1)),
    )
}

/// What follows the server's reply: the new keys are announced if the server has
/// signed the exchange, and only then.
pub open spec fn follows_reply(
    phase: KexPhase,
    reply: Seq<u8>,
    step: Result<Step, HandshakeError>,
) -> bool
    recommends
        phase is Reply,
{
    let said = said_with_reply(phase, reply);
    let peer = wire::ssh_bytes_at(reply, wire::ssh_bytes_end(reply, 1));
    if !kex::has_ecdh_reply(reply) {
        step matches Err(HandshakeError::MalformedReply)
    } else if primitives::x25519_secret(phase->pair.private_key(), peer) is None {
        &&& step matches Err(HandshakeError::Agreement(e))
        &&& e == AgreementError::NoAgreement
    } else {
        match exchange::verdict(said, signature_in(reply)) {
            Err(refusal) => {
                &&& step matches Err(HandshakeError::Unauthentic(refused))
                &&& refused.transcript@ == said
                &&& refused.error == refusal
            },
            Ok(_) => {
                &&& step matches Ok(Step::Send { next, payload })
                &&& payload@ == seq![SshMessage::NewKeys.number()]
                &&& next.phase() matches KexPhase::NewKeys { offered, exchange: authentic }
                &&& offered@ == list_of(phase)
                &&& authentic.said() == said
                &&& authentic.session_id() == primitives::sha256_digest(exchange::hashed(said))
            },
        }
    }
}

/// What follows the server's announcement of new keys: the session, found with
/// the list in the client's proposal.
pub open spec fn follows_new_keys(phase: KexPhase, step: Result<Step, HandshakeError>) -> bool
    recommends
        phase is NewKeys,
{
    match step {
        Ok(Step::Settled { session }) => exchange::is_session(
            phase->exchange,
            list_of(phase),
            Ok(session),
        ),
        Err(HandshakeError::NoSession(e)) => exchange::is_session(
            phase->exchange,
            list_of(phase),
            Err(e),
        ),
        _ => false,
    }
}

/// Whether a step is what a phase makes of a message. Which key pair the client
/// gets in the first phase is left to chance.
pub open spec fn follows(
    phase: KexPhase,
    payload: Seq<u8>,
    step: Result<Step, HandshakeError>,
) -> bool {
    match message::check_kind(payload, kind_due(phase)) {
        Err(wrong) => {
            &&& step matches Err(HandshakeError::Message(e))
            &&& e == wrong
        },
        Ok(_) => match phase {
            KexPhase::KexInit { .. } => exists|pair: Result<KeyPair, AgreementError>|
                {
                    &&& #[trigger] follows_proposal(phase, payload, pair, step)
                    &&& pair matches Err(e) ==> e != AgreementError::NoAgreement
                },
            KexPhase::Reply { .. } => follows_reply(phase, payload, step),
            KexPhase::NewKeys { .. } => follows_new_keys(phase, step),
        },
    }
}

/// Takes the server's proposal, with the key pair that the client has got.
pub fn take_proposal(
    server_version: Vec<u8>,
    offered: String,
    client_kexinit: Vec<u8>,
    server_kexinit: &[u8],
    pair: Result<KeyPair, AgreementError>,
) -> (step: Result<Step, HandshakeError>)
    requires
        proposes(client_kexinit@, offered@),
    ensures
        follows_proposal(
            KexPhase::KexInit { server_version, offered, client_kexinit },
            server_kexinit@,
            pair,
            step,
        ),
{
    match pair {
        Err(e) => Err(HandshakeError::Agreement(e)),
        Ok(pair) => {
            let payload = kex::ecdh_init(pair.public_key());
            let opening = Opening {
                server_version,
                client_kexinit,
                server_kexinit: vstd::slice::slice_to_vec(server_kexinit),
            };
            let next = Handshake { phase: KexPhase::Reply { offered, opening, pair } };
            Ok(Step::Send { next, payload })
        },
    }
}

impl Handshake {
    #[verifier::type_invariant]
    closed spec fn wf(self) -> bool {
        proposes(proposal_of(self.phase), list_of(self.phase))
    }

    /// How far the exchange has come.
    pub closed spec fn phase(self) -> KexPhase {
        self.phase
    }

    /// Begins the exchange with a server of this version: the client's proposal,
    /// with a random cookie, is sent.
    pub fn start(server_version: Vec<u8>, offered: &str) -> (begun: (Handshake, Vec<u8>))
        ensures
            begun.0.phase() matches KexPhase::KexInit {
                server_version: version,
                offered: list,
                client_kexinit,
            } && version@ == server_version@ && list@ == offered@ && client_kexinit@ == begun.1@,
            proposes(begun.1@, offered@),
    {
        let payload = kex::client_kexinit(offered);
        let client_kexinit: Vec<u8> = vstd::slice::slice_to_vec(&payload);
        let phase = KexPhase::KexInit {
            server_version,
            offered: offered.to_owned(),
            client_kexinit,
        };
        (Handshake { phase }, payload)
    }

    /// The kind of message that is waited for.
    pub fn due(&self) -> (kind: SshMessage)
        ensures
            kind == kind_due(self.phase()),
    {
        match self.phase {
            KexPhase::KexInit { .. } => SshMessage::KexInit,
            KexPhase::Reply { .. } => SshMessage::KexEcdhReply,
            KexPhase::NewKeys { .. } => SshMessage::NewKeys,
        }
    }

    /// What both sides have said and agreed on, once the server has signed it.
    pub fn signed_transcript(&self) -> (transcript: Option<&Transcript>)
        ensures
            transcript is Some <==> self.phase() is NewKeys,
            transcript matches Some(t) ==> t@ == self.phase()->exchange.said(),
    {
        match &self.phase {
            KexPhase::NewKeys { exchange, .. } => Some(exchange.transcript()),
            _ => None,
        }
    }

    /// Takes one message from the server.
    pub fn step(self, payload: &[u8]) -> (step: Result<Step, HandshakeError>)
        ensures
            follows(self.phase(), payload@, step),
            proposes(proposal_of(self.phase()), list_of(self.phase())),
            step matches Ok(Step::Send { next, .. }) ==> proposes(
                proposal_of(next.phase()),
                list_of(next.phase()),
            ),
    {
        proof {
            use_type_invariant(&self);
        }
        if let Err(e) = message::expect_message(payload, self.due()) {
            return Err(HandshakeError::Message(e));
        }
        let ghost phase = self.phase;
        match self.phase {
            KexPhase::KexInit { server_version, offered, client_kexinit } => {
                let pair = KeyPair::generate();
                let step = take_proposal(server_version, offered, client_kexinit, payload, pair);
                assert(follows_proposal(phase, payload@, pair, step));
                step
            },
            KexPhase::Reply { offered, opening, pair } => {
                let reply = match kex::parse_ecdh_reply(payload) {
                    Some(reply) => reply,
                    None => return Err(HandshakeError::MalformedReply),
                };
                let transcript = match exchange::complete(opening, pair, &reply) {
                    Ok(transcript) => transcript,
                    Err(e) => return Err(HandshakeError::Agreement(e)),
                };
                match exchange::authenticate(transcript, &reply.signature) {
                    Ok(exchange) => {
                        let next = Handshake { phase: KexPhase::NewKeys { offered, exchange } };
                        Ok(Step::Send { next, payload: message::new_keys() })
                    },
                    Err(refusal) => Err(HandshakeError::Unauthentic(refusal)),
                }
            },
            KexPhase::NewKeys { offered, exchange } => match exchange.session(&offered) {
                Ok(session) => Ok(Step::Settled { session }),
                Err(e) => Err(HandshakeError::NoSession(e)),
            },
        }
    }
}

/// The exchange goes its way one message at a time, each of the one kind that is
/// due: the server's proposal leads to waiting for its reply, the reply to
/// waiting for new keys, and only the announcement of new keys to a session.
pub proof fn law_exchange_in_order(
    phase: KexPhase,
    payload: Seq<u8>,
    step: Result<Step, HandshakeError>,
)
    requires
        follows(phase, payload, step),
        step is Ok,
    ensures
        payload.len() > 0 && payload[0] == kind_due(phase).number(),
        match step->Ok_0 {
            Step::Send { next, .. } => {
                ||| phase is KexInit && next.phase() is Reply
                ||| phase is Reply && next.phase() is NewKeys
            },
            Step::Settled { .. } => phase is NewKeys,
        },
{
}

/// New keys are announced, and waited for, only after a reply with the server's
/// signature of the whole exchange.
pub proof fn law_new_keys_only_when_signed(
    phase: KexPhase,
    payload: Seq<u8>,
    step: Result<Step, HandshakeError>,
)
    requires
        follows(phase, payload, step),
        step matches Ok(Step::Send { next, payload: sent }) && (next.phase() is NewKeys || sent@
            == seq![SshMessage::NewKeys.number()]),
    ensures
        phase is Reply,
        kex::has_ecdh_reply(payload),
        exchange::is_signed(said_with_reply(phase, payload), signature_in(payload)),
{
    if phase is KexInit {
        let sent = step->Ok_0->payload;
        assert(sent@[0] == SshMessage::KexEcdhInit.number());
        assert(seq![SshMessage::NewKeys.number()][0] == SshMessage::NewKeys.number());
    }
}

/// The list of ciphers and the proposal that it went out in stay as they are, from
/// the first message to the session.
pub proof fn law_list_is_kept(
    phase: KexPhase,
    payload: Seq<u8>,
    step: Result<Step, HandshakeError>,
)
    requires
        follows(phase, payload, step),
    ensures
        step matches Ok(Step::Send { next, .. }) ==> {
            &&& list_of(next.phase()) == list_of(phase)
            &&& proposal_of(next.phase()) == proposal_of(phase)
        },
{
}

} // verus!

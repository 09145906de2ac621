//! Laws of the order of the key exchange.

use vstd::prelude::*;
use crate::exchange;
use crate::exchange::{Opening, Session, SessionError};
use crate::handshake;
use crate::handshake::{HandshakeError, KexPhase, Step};
use crate::kex;
use crate::kex::{AgreementError, KeyPair};
use crate::message::MessageError;
use crate::primitives;
use crate::wire;

verus! {

/// The list and the proposal of a phase are those that it holds.
pub proof fn law_phase_holds_list_and_proposal(phase: KexPhase)
    ensures
        match phase {
            KexPhase::KexInit { offered, client_kexinit, .. } => handshake::list_of(phase)
                == offered@ && handshake::proposal_of(phase) == client_kexinit@,
            KexPhase::Reply { offered, opening, .. } => handshake::list_of(phase) == offered@
                && handshake::proposal_of(phase) == opening.client_kexinit@,
            KexPhase::NewKeys { offered, exchange } => handshake::list_of(phase) == offered@
                && handshake::proposal_of(phase) == exchange.said().client_kexinit,
        },
{
}

/// A proposal offers just the list in it: each of its two cipher lists is that list.
pub proof fn law_proposal_holds_its_list(proposal: Seq<u8>, offered: Seq<char>)
    requires
        handshake::proposes(proposal, offered),
        vstd::utf8::encode_utf8(offered).len() < 0x1_0000_0000,
    ensures
        ({
            let second = wire::ssh_bytes_end(proposal, 17);
            let third = wire::ssh_bytes_end(proposal, second);
            let fourth = wire::ssh_bytes_end(proposal, third);
            &&& proposal[0] == 20
            &&& wire::ssh_bytes_at(proposal, third) == vstd::utf8::encode_utf8(offered)
            &&& wire::ssh_bytes_at(proposal, fourth) == vstd::utf8::encode_utf8(offered)
        }),
{
    crate::laws::exchanges::law_proposal_parts(proposal.subrange(1, 17), offered);
}

/// Each phase takes one kind of message: the server's proposal has the number 20, its
/// reply 31, its announcement of new keys 21. Every other message ends the exchange.
pub proof fn law_one_kind_each(
    phase: KexPhase,
    first: u8,
    rest: Seq<u8>,
    step: Result<Step, HandshakeError>,
)
    requires
        handshake::follows(phase, seq![first] + rest, step),
    ensures
        ({
            let due: u8 = match phase {
                KexPhase::KexInit { .. } => 20,
                KexPhase::Reply { .. } => 31,
                KexPhase::NewKeys { .. } => 21,
            };
            if first == due {
                !(step matches Err(HandshakeError::Message(_)))
            } else {
                step matches Err(HandshakeError::Message(e)) && e == MessageError::Unexpected(first)
            }
        }),
{
}

/// The number of the message that a phase waits for.
pub proof fn law_number_due(phase: KexPhase)
    ensures
        handshake::kind_due(phase).number() == (match phase {
            KexPhase::KexInit { .. } => 20u8,
            KexPhase::Reply { .. } => 31u8,
            KexPhase::NewKeys { .. } => 21u8,
        }),
{
}

/// A message without a first byte ends the exchange.
pub proof fn law_empty_message_ends_exchange(
    phase: KexPhase,
    step: Result<Step, HandshakeError>,
)
    requires
        handshake::follows(phase, Seq::empty(), step),
    ensures
        step matches Err(HandshakeError::Message(e)) && e == MessageError::Empty,
{
}

/// Behind the server's proposal the client sends the public key of the key pair that
/// it keeps, and remembers both proposals and the server's version as they were.
pub proof fn law_after_proposal(
    server_version: Vec<u8>,
    offered: String,
    client_kexinit: Vec<u8>,
    server_kexinit: Seq<u8>,
    step: Result<Step, HandshakeError>,
)
    requires
        handshake::follows(
            KexPhase::KexInit { server_version, offered, client_kexinit },
            server_kexinit,
            step,
        ),
        server_kexinit.len() > 0 && server_kexinit[0] == 20,
    ensures
        match step {
            Err(HandshakeError::Agreement(e)) => e == AgreementError::NoPrivateKey || e
                == AgreementError::NoPublicKey,
            Ok(Step::Send { next, payload }) => {
                &&& next.phase() matches KexPhase::Reply { offered: kept, opening, pair }
                &&& kept@ == offered@
                &&& opening.server_version@ == server_version@
                &&& opening.client_kexinit@ == client_kexinit@
                &&& opening.server_kexinit@ == server_kexinit
                &&& primitives::public_key_of(pair.private_key()) matches Some(key)
                &&& payload@ == seq![30u8] + wire::ssh_bytes(key)
            },
            _ => false,
        },
{
}

/// With a given key pair, or without one, it is settled what follows the server's
/// proposal.
pub proof fn law_after_proposal_with_keys(
    phase: KexPhase,
    server_kexinit: Seq<u8>,
    pair: Result<KeyPair, AgreementError>,
    step: Result<Step, HandshakeError>,
)
    requires
        phase is KexInit,
        handshake::follows_proposal(phase, server_kexinit, pair, step),
    ensures
        match pair {
            Err(e) => step matches Err(HandshakeError::Agreement(reported)) && reported == e,
            Ok(p) => {
                &&& step matches Ok(Step::Send { next, payload })
                &&& next.phase() matches KexPhase::Reply { offered, opening, pair: kept }
                &&& kept == p
                &&& offered@ == phase->KexInit_offered@
                &&& opening.server_version@ == phase->server_version@
                &&& opening.client_kexinit@ == phase->client_kexinit@
                &&& opening.server_kexinit@ == server_kexinit
                &&& primitives::public_key_of(p.private_key()) matches Some(key)
                &&& payload@ == seq![30u8] + wire::ssh_bytes(key)
            },
        },
{
}

/// What follows a reply that holds these three byte strings.
proof fn lemma_after_reply(
    offered: String,
    opening: Opening,
    pair: KeyPair,
    host_key: Seq<u8>,
    public_key: Seq<u8>,
    signature: Seq<u8>,
    reply: Seq<u8>,
    step: Result<Step, HandshakeError>,
)
    requires
        reply.len() > 0 && reply[0] == 31,
        kex::has_ecdh_reply(reply),
        wire::ssh_bytes_at(reply, 1) == host_key,
        wire::ssh_bytes_at(reply, wire::ssh_bytes_end(reply, 1)) == public_key,
        handshake::signature_in(reply) == signature,
        handshake::follows(KexPhase::Reply { offered, opening, pair }, reply, step),
    ensures
        ({
            let said = exchange::completed(opening, pair.private_key(), host_key, public_key);
            if primitives::x25519_secret(pair.private_key(), public_key) is None {
                &&& step matches Err(HandshakeError::Agreement(e))
                &&& e == AgreementError::NoAgreement
            } else {
                match exchange::verdict(said, signature) {
                    Err(error) => {
                        &&& step matches Err(HandshakeError::Unauthentic(refusal))
                        &&& refusal.transcript@ == said
                        &&& refusal.error == error
                    },
                    Ok(_) => {
                        &&& step matches Ok(Step::Send { next, payload })
                        &&& payload@ == seq![21u8]
                        &&& next.phase() matches KexPhase::NewKeys { offered: kept, exchange }
                        &&& kept@ == offered@
                        &&& exchange.said() == said
                        &&& exchange.session_id() == primitives::sha256_digest(
                            said.data(primitives::utf8_lossy_text(opening.server_version@)),
                        )
                    },
                }
            }
        }),
{
    let phase = KexPhase::Reply { offered, opening, pair };
    assert(handshake::follows_reply(phase, reply, step));
}

/// The server's reply holds its host key, its public key and its signature. The
/// client agrees with that public key, takes that host key and that signature for
/// the server's, and announces new keys exactly if the exchange is the server's.
pub proof fn law_after_reply(
    offered: String,
    opening: Opening,
    pair: KeyPair,
    host_key: Seq<u8>,
    public_key: Seq<u8>,
    signature: Seq<u8>,
    rest: Seq<u8>,
    step: Result<Step, HandshakeError>,
)
    requires
        host_key.len() < 0x1_0000_0000,
        public_key.len() < 0x1_0000_0000,
        signature.len() < 0x1_0000_0000,
        handshake::follows(
            KexPhase::Reply { offered, opening, pair },
            seq![31u8] + (wire::ssh_bytes(host_key) + (wire::ssh_bytes(public_key) + (
            wire::ssh_bytes(signature) + rest))),
            step,
        ),
    ensures
        ({
            let said = exchange::completed(opening, pair.private_key(), host_key, public_key);
            if primitives::x25519_secret(pair.private_key(), public_key) is None {
                &&& step matches Err(HandshakeError::Agreement(e))
                &&& e == AgreementError::NoAgreement
            } else {
                match exchange::verdict(said, signature) {
                    Err(error) => {
                        &&& step matches Err(HandshakeError::Unauthentic(refusal))
                        &&& refusal.transcript@ == said
                        &&& refusal.error == error
                    },
                    Ok(_) => {
                        &&& step matches Ok(Step::Send { next, payload })
                        &&& payload@ == seq![21u8]
                        &&& next.phase() matches KexPhase::NewKeys { offered: kept, exchange }
                        &&& kept@ == offered@
                        &&& exchange.said() == said
                        &&& exchange.session_id() == primitives::sha256_digest(
                            said.data(primitives::utf8_lossy_text(opening.server_version@)),
                        )
                    },
                }
            }
        }),
{
    let reply = seq![31u8] + (wire::ssh_bytes(host_key) + (wire::ssh_bytes(public_key) + (
    wire::ssh_bytes(signature) + rest)));
    crate::laws::exchanges::law_key_agreement_reply(31, host_key, public_key, signature, rest);
    assert(reply[0] == 31);
    lemma_after_reply(offered, opening, pair, host_key, public_key, signature, reply, step);
}

/// A reply without its three byte strings ends the exchange.
pub proof fn law_reply_cut_short(
    offered: String,
    opening: Opening,
    pair: KeyPair,
    reply: Seq<u8>,
    step: Result<Step, HandshakeError>,
)
    requires
        reply.len() > 0 && reply[0] == 31,
        handshake::follows(KexPhase::Reply { offered, opening, pair }, reply, step),
        !wire::ssh_bytes_fit(reply, 1) || !wire::ssh_bytes_fit(
            reply,
            wire::ssh_bytes_end(reply, 1),
        ) || !wire::ssh_bytes_fit(
            reply,
            wire::ssh_bytes_end(reply, wire::ssh_bytes_end(reply, 1)),
        ),
    ensures
        step matches Err(HandshakeError::MalformedReply),
{
}

/// The server's announcement of new keys gives the session that the exchange and the
/// client's list come to, or tells why there is none.
pub proof fn law_after_new_keys(
    offered: String,
    exchange: exchange::Exchange,
    rest: Seq<u8>,
    step: Result<Step, HandshakeError>,
)
    requires
        handshake::follows(KexPhase::NewKeys { offered, exchange }, seq![21u8] + rest, step),
    ensures
        match step {
            Ok(Step::Settled { session }) => exchange::is_session(
                exchange,
                offered@,
                Ok::<Session, SessionError>(session),
            ),
            Err(HandshakeError::NoSession(e)) => exchange::is_session(
                exchange,
                offered@,
                Err::<Session, SessionError>(e),
            ),
            _ => false,
        },
{
}

} // verus!

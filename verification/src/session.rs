//! The client's side of the conversation once packets are encrypted: what each
//! packet from the server means.

use vstd::prelude::*;
use crate::message;
use crate::message::SshMessage;
use crate::wire;

verus! {

/// How far the session has come.
#[derive(Debug, Clone, Copy, PartialEq, Eq, Structural)]
pub enum Phase {
    /// The authentication service was asked for.
    Service,
    /// A password was sent.
    Auth,
    /// A channel was asked for.
    Opening,
    /// A shell runs on the channel that the server knows by this number.
    Shell { channel: u32 },
}

/// What a packet from the server means to the client.
pub enum Event {
    /// The authentication service is there: log in.
    ServiceAccepted,
    /// Extension information, of which no use is made.
    ExtInfo,
    /// A message with this number, of which no use is made.
    Ignored(u8),
    /// The password was accepted: open a channel.
    Authenticated,
    /// The password was not accepted.
    WrongPassword,
    /// A banner.
    Banner,
    /// The channel is open: ask for a terminal and a shell.
    ChannelOpened,
    /// The shell's output.
    Output(Vec<u8>),
    /// The server sends no more.
    Closed,
    /// Nothing to do.
    Nothing,
}

/// The content of an [`Event`].
pub enum EventModel {
    ServiceAccepted,
    ExtInfo,
    Ignored(u8),
    Authenticated,
    WrongPassword,
    Banner,
    ChannelOpened,
    Output(Seq<u8>),
    Closed,
    Nothing,
}

impl View for Event {
    type V = EventModel;

    open spec fn view(&self) -> EventModel {
        match self {
            Event::ServiceAccepted => EventModel::ServiceAccepted,
            Event::ExtInfo => EventModel::ExtInfo,
            Event::Ignored(n) => EventModel::Ignored(*n),
            Event::Authenticated => EventModel::Authenticated,
            Event::WrongPassword => EventModel::WrongPassword,
            Event::Banner => EventModel::Banner,
            Event::ChannelOpened => EventModel::ChannelOpened,
            Event::Output(data) => EventModel::Output(data@),
            Event::Closed => EventModel::Closed,
            Event::Nothing => EventModel::Nothing,
        }
    }
}

/// A packet that is too short for what its message has to hold.
#[derive(Debug, Clone, Copy, PartialEq, Eq, Structural)]
pub struct MalformedMessage;

/// The messages that the client sends when a phase begins, in their order.
pub open spec fn opening_messages(phase: Phase, user: Seq<char>, password: Seq<char>) -> Seq<
    Seq<u8>,
> {
    match phase {
        Phase::Service => seq![message::service_message()],
        Phase::Auth => seq![message::password_message(user, password)],
        Phase::Opening => seq![message::open_message()],
        Phase::Shell { channel } => seq![
            message::pty_message(channel),
            message::shell_message(channel),
        ],
    }
}

/// The bytes of each payload.
pub open spec fn contents(payloads: Seq<Vec<u8>>) -> Seq<Seq<u8>> {
    payloads.map_values(|payload: Vec<u8>| payload@)
}

/// What the client sends when a phase begins; user and password go into the login
/// alone.
pub fn to_send(phase: Phase, user: &str, password: &str) -> (payloads: Vec<Vec<u8>>)
    ensures
        contents(payloads@) == opening_messages(phase, user@, password@),
{
    let mut payloads: Vec<Vec<u8>> = Vec::new();
    match phase {
        Phase::Service => payloads.push(message::service_request()),
        Phase::Auth => payloads.push(message::password_request(user, password)),
        Phase::Opening => payloads.push(message::channel_open()),
        Phase::Shell { channel } => {
            payloads.push(message::pty_request(channel));
            payloads.push(message::shell_request(channel));
        },
    }
    assert(contents(payloads@) =~= opening_messages(phase, user@, password@));
    payloads
}

/// Whether the payload is a message of this kind.
pub open spec fn is_kind(payload: Seq<u8>, kind: SshMessage) -> bool {
    payload.len() > 0 && payload[0] == kind.number()
}

/// What comes of a packet while waiting for the authentication service.
pub open spec fn service_step(payload: Seq<u8>) -> (Phase, EventModel) {
    if is_kind(payload, SshMessage::ServiceAccept) {
        (Phase::Auth, EventModel::ServiceAccepted)
    } else if is_kind(payload, SshMessage::ExtInfo) {
        (Phase::Service, EventModel::ExtInfo)
    } else {
        (Phase::Service, EventModel::Ignored(payload[0]))
    }
}

/// What comes of a packet while waiting for the verdict on a password.
pub open spec fn auth_step(payload: Seq<u8>) -> (Phase, EventModel) {
    if is_kind(payload, SshMessage::UserauthSuccess) {
        (Phase::Opening, EventModel::Authenticated)
    } else if is_kind(payload, SshMessage::UserauthFailure) {
        (Phase::Auth, EventModel::WrongPassword)
    } else if is_kind(payload, SshMessage::UserauthBanner) {
        (Phase::Auth, EventModel::Banner)
    } else {
        (Phase::Auth, EventModel::Nothing)
    }
}

/// What comes of a packet while waiting for the channel. The confirmation holds
/// the client's number of the channel, then the server's.
pub open spec fn opening_step(payload: Seq<u8>) -> Option<(Phase, EventModel)> {
    if !is_kind(payload, SshMessage::ChannelOpenConfirmation) {
        Some((Phase::Opening, EventModel::Nothing))
    } else if !wire::u32_fits(payload, 5) {
        None
    } else {
        Some((Phase::Shell { channel: wire::u32_at(payload, 5) }, EventModel::ChannelOpened))
    }
}

/// What comes of a packet while the shell runs. Data comes behind the number of
/// the channel.
pub open spec fn shell_step(channel: u32, payload: Seq<u8>) -> Option<(Phase, EventModel)> {
    let phase = Phase::Shell { channel };
    if is_kind(payload, SshMessage::ChannelData) {
        if wire::ssh_bytes_fit(payload, 5) {
            Some((phase, EventModel::Output(wire::ssh_bytes_at(payload, 5))))
        } else {
            None
        }
    } else if is_kind(payload, SshMessage::ChannelEOF) {
        Some((phase, EventModel::Closed))
    } else {
        Some((phase, EventModel::Nothing))
    }
}

/// What comes of a packet: the next phase and the event, or `None` for a packet
/// that is too short.
pub open spec fn step(phase: Phase, payload: Seq<u8>) -> Option<(Phase, EventModel)> {
    if payload.len() == 0 {
        None
    } else {
        match phase {
            Phase::Service => Some(service_step(payload)),
            Phase::Auth => Some(auth_step(payload)),
            Phase::Opening => opening_step(payload),
            Phase::Shell { channel } => shell_step(channel, payload),
        }
    }
}

/// Takes one packet from the server.
pub fn on_packet(phase: Phase, payload: &[u8]) -> (next: Result<(Phase, Event), MalformedMessage>)
    ensures
        next is Err <==> step(phase, payload@) is None,
        next matches Ok(n) ==> step(phase, payload@) == Some((n.0, n.1@)),
{
    if payload.len() == 0 {
        return Err(MalformedMessage);
    }
    let kind: u8 = payload[0];
    match phase {
        Phase::Service => {
            if kind == SshMessage::ServiceAccept.code() {
                Ok((Phase::Auth, Event::ServiceAccepted))
            } else if kind == SshMessage::ExtInfo.code() {
                Ok((phase, Event::ExtInfo))
            } else {
                Ok((phase, Event::Ignored(kind)))
            }
        },
        Phase::Auth => {
            if kind == SshMessage::UserauthSuccess.code() {
                Ok((Phase::Opening, Event::Authenticated))
            } else if kind == SshMessage::UserauthFailure.code() {
                Ok((phase, Event::WrongPassword))
            } else if kind == SshMessage::UserauthBanner.code() {
                Ok((phase, Event::Banner))
            } else {
                Ok((phase, Event::Nothing))
            }
        },
        Phase::Opening => {
            if kind == SshMessage::ChannelOpenConfirmation.code() {
                if payload.len() < 9 {
                    return Err(MalformedMessage);
                }
                let mut offset: usize = 1;
                let _my_channel: u32 = wire::read_u32(payload, &mut offset);
                let channel: u32 = wire::read_u32(payload, &mut offset);
                Ok((Phase::Shell { channel }, Event::ChannelOpened))
            } else {
                Ok((phase, Event::Nothing))
            }
        },
        Phase::Shell { .. } => {
            if kind == SshMessage::ChannelData.code() {
                if payload.len() < 5 {
                    return Err(MalformedMessage);
                }
                let mut offset: usize = 1;
                let _channel: u32 = wire::read_u32(payload, &mut offset);
                match wire::try_pop_ssh_bytes(payload, &mut offset) {
                    Some(data) => Ok((phase, Event::Output(vstd::slice::slice_to_vec(data)))),
                    None => Err(MalformedMessage),
                }
            } else if kind == SshMessage::ChannelEOF.code() {
                Ok((phase, Event::Closed))
            } else {
                Ok((phase, Event::Nothing))
            }
        },
    }
}

/// A packet takes the session at most one phase further: to the login only when
/// the service is accepted, to a channel only after a successful login, to a
/// shell only on a confirmed channel. From the shell no packet leads back.
pub proof fn law_phases_in_order(phase: Phase, payload: Seq<u8>)
    requires
        step(phase, payload) is Some,
    ensures
        ({
            let (next, _) = step(phase, payload).unwrap();
            ||| next == phase
            ||| phase == Phase::Service && next == Phase::Auth && is_kind(
                payload,
                SshMessage::ServiceAccept,
            )
            ||| phase == Phase::Auth && next == Phase::Opening && is_kind(
                payload,
                SshMessage::UserauthSuccess,
            )
            ||| phase == Phase::Opening && next is Shell && is_kind(
                payload,
                SshMessage::ChannelOpenConfirmation,
            )
        }),
{
}

/// Data that is sent over a channel comes out of it as it went in.
pub proof fn law_data_comes_out(channel: u32, number: u32, data: Seq<u8>)
    requires
        data.len() < 0x1_0000_0000,
    ensures
        step(Phase::Shell { channel }, message::data_message(number, data)) == Some(
            (Phase::Shell { channel }, EventModel::Output(data)),
        ),
{
    let before = seq![SshMessage::ChannelData.number()] + wire::be32(number);
    let message = message::data_message(number, data);
    wire::law_pop_gives_back_push(before, data, Seq::<u8>::empty());
    assert(before + wire::ssh_bytes(data) + Seq::<u8>::empty() =~= message);
}

} // verus!

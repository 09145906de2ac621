//! The messages of the protocol: their numbers, and those that the client sends.

use vstd::prelude::*;
use crate::wire;

verus! {

/// A kind of message.
#[derive(Debug, Clone, Copy, PartialEq, Eq, Structural)]
pub enum SshMessage {
    Disconnect,
    Ignore,
    Unimplemented,
    ServiceRequest,
    ServiceAccept,
    ExtInfo,
    KexInit,
    NewKeys,
    KexEcdhInit,
    KexEcdhReply,
    UserauthRequest,
    UserauthFailure,
    UserauthSuccess,
    UserauthBanner,
    ChannelOpen,
    ChannelOpenConfirmation,
    ChannelData,
    ChannelEOF,
    ChannelClose,
    ChannelRequest,
}

impl SshMessage {
    /// The number in the first byte of a message of this kind.
    pub open spec fn number(self) -> u8 {
        match self {
            SshMessage::Disconnect => 1,
            SshMessage::Ignore => 2,
            SshMessage::Unimplemented => 3,
            SshMessage::ServiceRequest => 5,
            SshMessage::ServiceAccept => 6,
            SshMessage::ExtInfo => 7,
            SshMessage::KexInit => 20,
            SshMessage::NewKeys => 21,
            SshMessage::KexEcdhInit => 30,
            SshMessage::KexEcdhReply => 31,
            SshMessage::UserauthRequest => 50,
            SshMessage::UserauthFailure => 51,
            SshMessage::UserauthSuccess => 52,
            SshMessage::UserauthBanner => 53,
            SshMessage::ChannelOpen => 90,
            SshMessage::ChannelOpenConfirmation => 91,
            SshMessage::ChannelData => 94,
            SshMessage::ChannelEOF => 96,
            SshMessage::ChannelClose => 97,
            SshMessage::ChannelRequest => 98,
        }
    }

    /// Computes [`SshMessage::number`].
    pub fn code(self) -> (code: u8)
        ensures
            code == self.number(),
    {
        match self {
            SshMessage::Disconnect => 1,
            SshMessage::Ignore => 2,
            SshMessage::Unimplemented => 3,
            SshMessage::ServiceRequest => 5,
            SshMessage::ServiceAccept => 6,
            SshMessage::ExtInfo => 7,
            SshMessage::KexInit => 20,
            SshMessage::NewKeys => 21,
            SshMessage::KexEcdhInit => 30,
            SshMessage::KexEcdhReply => 31,
            SshMessage::UserauthRequest => 50,
            SshMessage::UserauthFailure => 51,
            SshMessage::UserauthSuccess => 52,
            SshMessage::UserauthBanner => 53,
            SshMessage::ChannelOpen => 90,
            SshMessage::ChannelOpenConfirmation => 91,
            SshMessage::ChannelData => 94,
            SshMessage::ChannelEOF => 96,
            SshMessage::ChannelClose => 97,
            SshMessage::ChannelRequest => 98,
        }
    }
}

/// Why a payload is not the message that was expected.
#[derive(Debug, Clone, Copy, PartialEq, Eq, Structural)]
pub enum MessageError {
    /// The payload has no first byte.
    Empty,
    /// The payload is a message with this number.
    Unexpected(u8),
}

/// Whether a payload is the expected message, and if not, what it is.
pub open spec fn check_kind(payload: Seq<u8>, expected: SshMessage) -> Result<(), MessageError> {
    if payload.len() == 0 {
        Err(MessageError::Empty)
    } else if payload[0] != expected.number() {
        Err(MessageError::Unexpected(payload[0]))
    } else {
        Ok(())
    }
}

/// Computes [`check_kind`].
pub fn expect_message(payload: &[u8], expected: SshMessage) -> (checked: Result<(), MessageError>)
    ensures
        checked == check_kind(payload@, expected),
{
    if payload.len() == 0 {
        Err(MessageError::Empty)
    } else if payload[0] != expected.code() {
        Err(MessageError::Unexpected(payload[0]))
    } else {
        Ok(())
    }
}

/// A message that starts with the number of its kind.
fn start(kind: SshMessage) -> (payload: Vec<u8>)
    ensures
        payload@ == seq![kind.number()],
{
    let mut payload: Vec<u8> = Vec::new();
    payload.push(kind.code());
    assert(payload@ =~= seq![kind.number()]);
    payload
}

/// The announcement that what follows is under the new keys.
pub fn new_keys() -> (payload: Vec<u8>)
    ensures
        payload@ == seq![SshMessage::NewKeys.number()],
{
    start(SshMessage::NewKeys)
}

/// The request for the user authentication service.
pub open spec fn service_message() -> Seq<u8> {
    seq![SshMessage::ServiceRequest.number()] + wire::ssh_string("ssh-userauth"@)
}

/// Puts together [`service_message`].
pub fn service_request() -> (payload: Vec<u8>)
    ensures
        payload@ == service_message(),
{
    let mut req = start(SshMessage::ServiceRequest);
    wire::push_ssh_string(&mut req, "ssh-userauth");
    req
}

/// The request to log in with a password.
pub open spec fn password_message(user: Seq<char>, password: Seq<char>) -> Seq<u8> {
    seq![SshMessage::UserauthRequest.number()] + wire::ssh_string(user) + wire::ssh_string(
        "ssh-connection"@,
    ) + wire::ssh_string("password"@) + seq![0u8] + wire::ssh_string(password)
}

/// Puts together [`password_message`].
pub fn password_request(user: &str, password: &str) -> (payload: Vec<u8>)
    ensures
        payload@ == password_message(user@, password@),
{
    let mut auth_req = start(SshMessage::UserauthRequest);
    wire::push_ssh_string(&mut auth_req, user);
    wire::push_ssh_string(&mut auth_req, "ssh-connection");
    wire::push_ssh_string(&mut auth_req, "password");
    wire::push_byte(&mut auth_req, 0);
    wire::push_ssh_string(&mut auth_req, password);
    auth_req
}

/// The number by which the client knows its channel.
pub const CHANNEL_ID: u32 = 0;

/// How many bytes the server may send before the window is widened.
pub const WINDOW_SIZE: u32 = 2097152;

/// The largest piece of data that the server may send at once.
pub const MAX_PACKET: u32 = 32768;

/// The request to open a session channel.
pub open spec fn open_message() -> Seq<u8> {
    seq![SshMessage::ChannelOpen.number()] + wire::ssh_string("session"@) + wire::be32(CHANNEL_ID)
        + wire::be32(WINDOW_SIZE) + wire::be32(MAX_PACKET)
}

/// Puts together [`open_message`].
pub fn channel_open() -> (payload: Vec<u8>)
    ensures
        payload@ == open_message(),
{
    let mut chan_req = start(SshMessage::ChannelOpen);
    wire::push_ssh_string(&mut chan_req, "session");
    wire::push_u32(&mut chan_req, CHANNEL_ID);
    wire::push_u32(&mut chan_req, WINDOW_SIZE);
    wire::push_u32(&mut chan_req, MAX_PACKET);
    chan_req
}

/// The request for a terminal of 80 by 24 characters on a channel, to which no
/// answer is wanted.
pub open spec fn pty_message(channel: u32) -> Seq<u8> {
    seq![SshMessage::ChannelRequest.number()] + wire::be32(channel) + wire::ssh_string("pty-req"@)
        + seq![0u8] + wire::ssh_string("xterm"@) + wire::be32(80) + wire::be32(24) + wire::be32(0)
        + wire::be32(0) + wire::ssh_string(""@)
}

/// Puts together [`pty_message`].
pub fn pty_request(channel: u32) -> (payload: Vec<u8>)
    ensures
        payload@ == pty_message(channel),
{
    let mut pty_req = start(SshMessage::ChannelRequest);
    wire::push_u32(&mut pty_req, channel);
    wire::push_ssh_string(&mut pty_req, "pty-req");
    wire::push_byte(&mut pty_req, 0);
    wire::push_ssh_string(&mut pty_req, "xterm");
    wire::push_u32(&mut pty_req, 80);
    wire::push_u32(&mut pty_req, 24);
    wire::push_u32(&mut pty_req, 0);
    wire::push_u32(&mut pty_req, 0);
    wire::push_ssh_string(&mut pty_req, "");
    pty_req
}

/// The request for a shell on a channel, to which no answer is wanted.
pub open spec fn shell_message(channel: u32) -> Seq<u8> {
    seq![SshMessage::ChannelRequest.number()] + wire::be32(channel) + wire::ssh_string("shell"@)
        + seq![0u8]
}

/// Puts together [`shell_message`].
pub fn shell_request(channel: u32) -> (payload: Vec<u8>)
    ensures
        payload@ == shell_message(channel),
{
    let mut shell_req = start(SshMessage::ChannelRequest);
    wire::push_u32(&mut shell_req, channel);
    wire::push_ssh_string(&mut shell_req, "shell");
    wire::push_byte(&mut shell_req, 0);
    shell_req
}

/// A message that carries data over a channel.
pub open spec fn data_message(channel: u32, data: Seq<u8>) -> Seq<u8> {
    seq![SshMessage::ChannelData.number()] + wire::be32(channel) + wire::ssh_bytes(data)
}

/// Puts together [`data_message`].
pub fn channel_data(channel: u32, data: &[u8]) -> (payload: Vec<u8>)
    ensures
        payload@ == data_message(channel, data@),
{
    let mut data_req = start(SshMessage::ChannelData);
    wire::push_u32(&mut data_req, channel);
    wire::push_ssh_bytes(&mut data_req, data);
    data_req
}

} // verus!

//! Laws of the messages that the client sends and of what it makes of those that
//! it gets.

use vstd::prelude::*;
use crate::message;
use crate::message::{MessageError, SshMessage};
use crate::session;
use crate::session::{Event, EventModel, Phase};
use crate::wire;

verus! {

/// The ASCII words of the protocol are short.
proof fn lemma_words_are_short()
    ensures
        vstd::utf8::encode_utf8("ssh-connection"@).len() == 14,
        vstd::utf8::encode_utf8("password"@).len() == 8,
        vstd::utf8::encode_utf8("pty-req"@).len() == 7,
        vstd::utf8::encode_utf8("xterm"@).len() == 5,
        vstd::utf8::encode_utf8("shell"@).len() == 5,
        vstd::utf8::encode_utf8(""@).len() == 0,
{
    reveal_strlit("ssh-connection");
    reveal_strlit("password");
    reveal_strlit("pty-req");
    reveal_strlit("xterm");
    reveal_strlit("shell");
    reveal_strlit("");
    vstd::utf8::is_ascii_chars_encode_utf8("ssh-connection"@);
    vstd::utf8::is_ascii_chars_encode_utf8("password"@);
    vstd::utf8::is_ascii_chars_encode_utf8("pty-req"@);
    vstd::utf8::is_ascii_chars_encode_utf8("xterm"@);
    vstd::utf8::is_ascii_chars_encode_utf8("shell"@);
    vstd::utf8::is_ascii_chars_encode_utf8(""@);
}

/// A byte string is read behind whatever stands before it.
proof fn lemma_read_behind(s: Seq<u8>, before: Seq<u8>, data: Seq<u8>, behind: Seq<u8>)
    requires
        s == before + (wire::ssh_bytes(data) + behind),
        data.len() < 0x1_0000_0000,
    ensures
        wire::ssh_bytes_fit(s, before.len() as int),
        wire::ssh_bytes_at(s, before.len() as int) == data,
        wire::ssh_bytes_end(s, before.len() as int) == (before + wire::ssh_bytes(data)).len(),
        s == (before + wire::ssh_bytes(data)) + behind,
{
    wire::law_pop_gives_back_push(before, data, behind);
    assert(s =~= before + wire::ssh_bytes(data) + behind);
}

/// A number is read behind whatever stands before it.
proof fn lemma_number_behind(s: Seq<u8>, before: Seq<u8>, x: u32, behind: Seq<u8>)
    requires
        s == before + (wire::be32(x) + behind),
    ensures
        wire::u32_fits(s, before.len() as int),
        wire::u32_at(s, before.len() as int) == x,
        s == (before + wire::be32(x)) + behind,
{
    crate::laws::bytes::law_number_is_read_in_place(before, x, behind);
    assert(s =~= before + wire::be32(x) + behind);
}

/// A request to log in holds, behind its number, the user, the service to log in
/// to, the method, a zero byte and the password.
pub proof fn law_login_request_parts(user: Seq<char>, password: Seq<char>)
    requires
        vstd::utf8::encode_utf8(user).len() < 0x1_0000_0000,
        vstd::utf8::encode_utf8(password).len() < 0x1_0000_0000,
    ensures
        ({
            let payload = message::password_message(user, password);
            let service = wire::ssh_bytes_end(payload, 1);
            let method = wire::ssh_bytes_end(payload, service);
            let flag = wire::ssh_bytes_end(payload, method);
            &&& payload[0] == 50
            &&& wire::ssh_bytes_fit(payload, 1)
            &&& wire::ssh_bytes_at(payload, 1) == vstd::utf8::encode_utf8(user)
            &&& wire::ssh_bytes_fit(payload, service)
            &&& wire::ssh_bytes_at(payload, service) == vstd::utf8::encode_utf8("ssh-connection"@)
            &&& wire::ssh_bytes_fit(payload, method)
            &&& wire::ssh_bytes_at(payload, method) == vstd::utf8::encode_utf8("password"@)
            &&& payload[flag] == 0
            &&& wire::ssh_bytes_fit(payload, flag + 1)
            &&& wire::ssh_bytes_at(payload, flag + 1) == vstd::utf8::encode_utf8(password)
            &&& wire::ssh_bytes_end(payload, flag + 1) == payload.len()
        }),
{
    lemma_words_are_short();
    let (u, p) = (vstd::utf8::encode_utf8(user), vstd::utf8::encode_utf8(password));
    let (c, m) = (
        vstd::utf8::encode_utf8("ssh-connection"@),
        vstd::utf8::encode_utf8("password"@),
    );
    lemma_login_parts(message::password_message(user, password), u, c, m, p);
}

proof fn lemma_login_parts(payload: Seq<u8>, u: Seq<u8>, c: Seq<u8>, m: Seq<u8>, p: Seq<u8>)
    requires
        u.len() < 0x1_0000_0000,
        c.len() < 0x1_0000_0000,
        m.len() < 0x1_0000_0000,
        p.len() < 0x1_0000_0000,
        payload == seq![50u8] + wire::ssh_bytes(u) + wire::ssh_bytes(c) + wire::ssh_bytes(m)
            + seq![0u8] + wire::ssh_bytes(p),
    ensures
        ({
            let service = wire::ssh_bytes_end(payload, 1);
            let method = wire::ssh_bytes_end(payload, service);
            let flag = wire::ssh_bytes_end(payload, method);
            &&& payload[0] == 50
            &&& wire::ssh_bytes_fit(payload, 1)
            &&& wire::ssh_bytes_at(payload, 1) == u
            &&& wire::ssh_bytes_fit(payload, service)
            &&& wire::ssh_bytes_at(payload, service) == c
            &&& wire::ssh_bytes_fit(payload, method)
            &&& wire::ssh_bytes_at(payload, method) == m
            &&& payload[flag] == 0
            &&& wire::ssh_bytes_fit(payload, flag + 1)
            &&& wire::ssh_bytes_at(payload, flag + 1) == p
            &&& wire::ssh_bytes_end(payload, flag + 1) == payload.len()
        }),
{
    let (su, sc, sm, sp) = (
        wire::ssh_bytes(u),
        wire::ssh_bytes(c),
        wire::ssh_bytes(m),
        wire::ssh_bytes(p),
    );
    let h0 = seq![50u8];
    let h1 = h0 + su;
    let h2 = h1 + sc;
    let h3 = h2 + sm;
    let h4 = h3 + seq![0u8];
    let r3 = seq![0u8] + sp;
    let r2 = sm + r3;
    let r1 = sc + r2;
    assert(payload =~= h0 + (su + r1));
    lemma_read_behind(payload, h0, u, r1);
    lemma_read_behind(payload, h1, c, r2);
    lemma_read_behind(payload, h2, m, r3);
    assert(payload[h3.len() as int] == r3[0]);
    assert(payload =~= h4 + (sp + Seq::empty()));
    lemma_read_behind(payload, h4, p, Seq::empty());
}

/// A request for a terminal holds, behind its number, the channel, its name, a zero
/// byte, the kind of terminal, its size in characters and in pixels, and no modes.
pub proof fn law_terminal_request_parts(channel: u32)
    ensures
        ({
            let payload = message::pty_message(channel);
            let flag = wire::ssh_bytes_end(payload, 5);
            let size = wire::ssh_bytes_end(payload, flag + 1);
            &&& payload[0] == 98
            &&& wire::u32_at(payload, 1) == channel
            &&& wire::ssh_bytes_fit(payload, 5)
            &&& wire::ssh_bytes_at(payload, 5) == vstd::utf8::encode_utf8("pty-req"@)
            &&& payload[flag] == 0
            &&& wire::ssh_bytes_fit(payload, flag + 1)
            &&& wire::ssh_bytes_at(payload, flag + 1) == vstd::utf8::encode_utf8("xterm"@)
            &&& wire::u32_at(payload, size) == 80
            &&& wire::u32_at(payload, size + 4) == 24
            &&& wire::u32_at(payload, size + 8) == 0
            &&& wire::u32_at(payload, size + 12) == 0
            &&& wire::ssh_bytes_fit(payload, size + 16)
            &&& wire::ssh_bytes_at(payload, size + 16).len() == 0
            &&& wire::ssh_bytes_end(payload, size + 16) == payload.len()
        }),
{
    lemma_words_are_short();
    lemma_terminal_parts(
        message::pty_message(channel),
        channel,
        vstd::utf8::encode_utf8("pty-req"@),
        vstd::utf8::encode_utf8("xterm"@),
        vstd::utf8::encode_utf8(""@),
    );
}

proof fn lemma_terminal_parts(
    payload: Seq<u8>,
    channel: u32,
    name: Seq<u8>,
    kind: Seq<u8>,
    modes: Seq<u8>,
)
    requires
        name.len() < 0x1_0000_0000,
        kind.len() < 0x1_0000_0000,
        modes.len() == 0,
        payload == seq![98u8] + wire::be32(channel) + wire::ssh_bytes(name) + seq![0u8]
            + wire::ssh_bytes(kind) + wire::be32(80) + wire::be32(24) + wire::be32(0)
            + wire::be32(0) + wire::ssh_bytes(modes),
    ensures
        ({
            let flag = wire::ssh_bytes_end(payload, 5);
            let size = wire::ssh_bytes_end(payload, flag + 1);
            &&& payload[0] == 98
            &&& wire::u32_at(payload, 1) == channel
            &&& wire::ssh_bytes_fit(payload, 5)
            &&& wire::ssh_bytes_at(payload, 5) == name
            &&& payload[flag] == 0
            &&& wire::ssh_bytes_fit(payload, flag + 1)
            &&& wire::ssh_bytes_at(payload, flag + 1) == kind
            &&& wire::u32_at(payload, size) == 80
            &&& wire::u32_at(payload, size + 4) == 24
            &&& wire::u32_at(payload, size + 8) == 0
            &&& wire::u32_at(payload, size + 12) == 0
            &&& wire::ssh_bytes_fit(payload, size + 16)
            &&& wire::ssh_bytes_at(payload, size + 16).len() == 0
            &&& wire::ssh_bytes_end(payload, size + 16) == payload.len()
        }),
{
    let (sn, sk, sm) = (wire::ssh_bytes(name), wire::ssh_bytes(kind), wire::ssh_bytes(modes));
    let (ch, w, h, z) = (wire::be32(channel), wire::be32(80), wire::be32(24), wire::be32(0));
    wire::law_be32_read_back(channel);
    wire::law_be32_read_back(80);
    wire::law_be32_read_back(24);
    wire::law_be32_read_back(0);
    let h0 = seq![98u8];
    let h1 = h0 + ch;
    let h2 = h1 + sn;
    let h3 = h2 + seq![0u8];
    let h4 = h3 + sk;
    let h5 = h4 + w;
    let h6 = h5 + h;
    let h7 = h6 + z;
    let h8 = h7 + z;
    let r7 = z + sm;
    let r6 = z + r7;
    let r5 = h + r6;
    let r4 = w + r5;
    let r3 = sk + r4;
    let r2 = seq![0u8] + r3;
    let r1 = sn + r2;
    assert(h8 + sm =~= h7 + r7);
    assert(h7 + r7 =~= h6 + r6);
    assert(h6 + r6 =~= h5 + r5);
    assert(h5 + r5 =~= h4 + r4);
    assert(h4 + r4 =~= h3 + r3);
    assert(h3 + r3 =~= h2 + r2);
    assert(h2 + r2 =~= h1 + r1);
    assert(h1 + r1 =~= h0 + (ch + r1));
    lemma_number_behind(payload, h0, channel, r1);
    lemma_read_behind(payload, h1, name, r2);
    assert(payload[h2.len() as int] == r2[0]);
    lemma_read_behind(payload, h3, kind, r4);
    lemma_number_behind(payload, h4, 80, r5);
    lemma_number_behind(payload, h5, 24, r6);
    lemma_number_behind(payload, h6, 0, r7);
    lemma_number_behind(payload, h7, 0, sm);
    assert(payload =~= h8 + (sm + Seq::empty()));
    lemma_read_behind(payload, h8, modes, Seq::empty());
}

/// A request for a shell holds, behind its number, the channel, its name and a zero
/// byte.
pub proof fn law_shell_request_parts(channel: u32)
    ensures
        ({
            let payload = message::shell_message(channel);
            let flag = wire::ssh_bytes_end(payload, 5);
            &&& payload[0] == 98
            &&& wire::u32_at(payload, 1) == channel
            &&& wire::ssh_bytes_fit(payload, 5)
            &&& wire::ssh_bytes_at(payload, 5) == vstd::utf8::encode_utf8("shell"@)
            &&& payload[flag] == 0
            &&& payload.len() == flag + 1
        }),
{
    lemma_words_are_short();
    let name = vstd::utf8::encode_utf8("shell"@);
    let (payload, ch, sn) = (
        message::shell_message(channel),
        wire::be32(channel),
        wire::ssh_bytes(name),
    );
    let h0 = seq![98u8];
    let r1 = sn + seq![0u8];
    assert(payload =~= h0 + (ch + r1));
    lemma_number_behind(payload, h0, channel, r1);
    lemma_read_behind(payload, h0 + ch, name, seq![0u8]);
}

/// A message with data holds, behind its number, the channel and the data.
pub proof fn law_data_message_parts(channel: u32, data: Seq<u8>)
    requires
        data.len() < 0x1_0000_0000,
    ensures
        ({
            let payload = message::data_message(channel, data);
            &&& payload[0] == 94
            &&& wire::u32_at(payload, 1) == channel
            &&& wire::ssh_bytes_fit(payload, 5)
            &&& wire::ssh_bytes_at(payload, 5) == data
            &&& wire::ssh_bytes_end(payload, 5) == payload.len()
        }),
{
    let (payload, ch, sd) = (
        message::data_message(channel, data),
        wire::be32(channel),
        wire::ssh_bytes(data),
    );
    let h0 = seq![94u8];
    assert(payload =~= h0 + (ch + sd));
    lemma_number_behind(payload, h0, channel, sd);
    assert(payload =~= (h0 + ch) + (sd + Seq::empty()));
    lemma_read_behind(payload, h0 + ch, data, Seq::empty());
}

/// A payload is the expected message exactly if its first byte is the number of
/// that message.
pub proof fn law_expected_kind(first: u8, rest: Seq<u8>, expected: SshMessage)
    ensures
        message::check_kind(Seq::empty(), expected) == Err::<(), MessageError>(MessageError::Empty),
        first == expected.number() ==> message::check_kind(seq![first] + rest, expected) == Ok::<
            (),
            MessageError,
        >(()),
        first != expected.number() ==> message::check_kind(seq![first] + rest, expected) == Err::<
            (),
            MessageError,
        >(MessageError::Unexpected(first)),
{
}

/// What each phase begins with: the request for the service, the login with this
/// user and this password, the request for a channel, and on that channel the
/// request for a terminal and then the one for a shell.
pub proof fn law_phases_begin(user: Seq<char>, password: Seq<char>, channel: u32)
    ensures
        session::opening_messages(Phase::Service, user, password) == seq![
            message::service_message(),
        ],
        session::opening_messages(Phase::Auth, user, password) == seq![
            message::password_message(user, password),
        ],
        session::opening_messages(Phase::Opening, user, password) == seq![message::open_message()],
        session::opening_messages(Phase::Shell { channel }, user, password) == seq![
            message::pty_message(channel),
            message::shell_message(channel),
        ],
{
}

/// The bytes of a row of payloads, each in its place.
pub proof fn law_contents_in_place(payloads: Seq<Vec<u8>>)
    ensures
        session::contents(payloads).len() == payloads.len(),
        forall|i: int|
            0 <= i < payloads.len() ==> #[trigger] session::contents(payloads)[i] == payloads[i]@,
{
}

/// Waiting for the service: its acceptance leads to the login, and everything else
/// is passed over.
pub proof fn law_waiting_for_service(first: u8, rest: Seq<u8>)
    ensures
        session::step(Phase::Service, seq![first] + rest) == Some(
            if first == 6 {
                (Phase::Auth, EventModel::ServiceAccepted)
            } else if first == 7 {
                (Phase::Service, EventModel::ExtInfo)
            } else {
                (Phase::Service, EventModel::Ignored(first))
            },
        ),
{
}

/// Waiting for the login: only its success leads on, and a failure or a banner is
/// reported.
pub proof fn law_waiting_for_login(first: u8, rest: Seq<u8>)
    ensures
        session::step(Phase::Auth, seq![first] + rest) == Some(
            if first == 52 {
                (Phase::Opening, EventModel::Authenticated)
            } else if first == 51 {
                (Phase::Auth, EventModel::WrongPassword)
            } else if first == 53 {
                (Phase::Auth, EventModel::Banner)
            } else {
                (Phase::Auth, EventModel::Nothing)
            },
        ),
{
}

/// The confirmation of a channel holds the client's number of it and then the
/// server's; the shell goes over the server's number, whatever follows.
pub proof fn law_confirmed_channel(mine: u32, theirs: u32, rest: Seq<u8>)
    ensures
        session::step(
            Phase::Opening,
            seq![91u8] + wire::be32(mine) + wire::be32(theirs) + rest,
        ) == Some((Phase::Shell { channel: theirs }, EventModel::ChannelOpened)),
{
    let payload = seq![91u8] + wire::be32(mine) + wire::be32(theirs) + rest;
    let before = seq![91u8] + wire::be32(mine);
    wire::law_be32_read_back(mine);
    crate::laws::bytes::law_number_is_read_in_place(before, theirs, rest);
}

/// While a channel is waited for, a confirmation without room for both numbers is
/// refused, and every other message is passed over.
pub proof fn law_waiting_for_channel(first: u8, rest: Seq<u8>)
    ensures
        first == 91 && rest.len() < 8 ==> session::step(Phase::Opening, seq![first] + rest) is None,
        first != 91 ==> session::step(Phase::Opening, seq![first] + rest) == Some(
            (Phase::Opening, EventModel::Nothing),
        ),
{
}

/// While the shell runs, data comes out as it is, on whatever channel it came and
/// whatever follows it.
pub proof fn law_shell_output(channel: u32, number: u32, data: Seq<u8>, rest: Seq<u8>)
    requires
        data.len() < 0x1_0000_0000,
    ensures
        session::step(
            Phase::Shell { channel },
            seq![94u8] + wire::be32(number) + wire::ssh_bytes(data) + rest,
        ) == Some((Phase::Shell { channel }, EventModel::Output(data))),
{
    let before = seq![94u8] + wire::be32(number);
    wire::law_be32_read_back(number);
    wire::law_pop_gives_back_push(before, data, rest);
}

/// While the shell runs, data that is cut short is refused.
pub proof fn law_shell_output_cut_short(channel: u32, number: u32, len: u32, rest: Seq<u8>)
    requires
        rest.len() < len,
    ensures
        session::step(
            Phase::Shell { channel },
            seq![94u8] + wire::be32(number) + wire::be32(len) + rest,
        ) is None,
{
    let before = seq![94u8] + wire::be32(number);
    wire::law_be32_read_back(number);
    wire::law_be32_read_back(len);
    crate::laws::bytes::law_byte_string_is_read_in_place(before, len, rest);
}

/// While the shell runs, data without a whole channel number and length is refused.
pub proof fn law_shell_output_without_length(channel: u32, head: Seq<u8>)
    requires
        head.len() < 8,
    ensures
        session::step(Phase::Shell { channel }, seq![94u8] + head) is None,
{
}

/// While the shell runs, the end of the server's data closes it, and every other
/// message but data is passed over.
pub proof fn law_shell_goes_on(channel: u32, first: u8, rest: Seq<u8>)
    requires
        first != 94,
    ensures
        session::step(Phase::Shell { channel }, seq![first] + rest) == Some(
            if first == 96 {
                (Phase::Shell { channel }, EventModel::Closed)
            } else {
                (Phase::Shell { channel }, EventModel::Nothing)
            },
        ),
{
}

/// A payload without a first byte is refused in every phase.
pub proof fn law_empty_message_is_refused(phase: Phase)
    ensures
        session::step(phase, Seq::empty()) is None,
{
}

/// The model of an event holds what the event holds.
pub proof fn law_event_is_its_content(number: u8, data: Vec<u8>)
    ensures
        Event::ServiceAccepted@ == EventModel::ServiceAccepted,
        Event::ExtInfo@ == EventModel::ExtInfo,
        Event::Ignored(number)@ == EventModel::Ignored(number),
        Event::Authenticated@ == EventModel::Authenticated,
        Event::WrongPassword@ == EventModel::WrongPassword,
        Event::Banner@ == EventModel::Banner,
        Event::ChannelOpened@ == EventModel::ChannelOpened,
        Event::Output(data)@ == EventModel::Output(data@),
        Event::Closed@ == EventModel::Closed,
        Event::Nothing@ == EventModel::Nothing,
{
}

} // verus!

use fssh::destination::{names_user, parse_destination};
use fssh::message::{
    channel_data, channel_open, expect_message, new_keys, password_request, pty_request,
    service_request, shell_request, MessageError, SshMessage,
};
use fssh::session::{on_packet, to_send, Event, MalformedMessage, Phase};

fn after(phase: Phase, payload: &[u8]) -> Phase {
    match on_packet(phase, payload) {
        Ok((next, _)) => next,
        Err(MalformedMessage) => panic!("malformed"),
    }
}

#[test]
fn messages_have_their_numbers() {
    let numbers = [
        (SshMessage::Disconnect, 1),
        (SshMessage::Ignore, 2),
        (SshMessage::Unimplemented, 3),
        (SshMessage::ServiceRequest, 5),
        (SshMessage::ServiceAccept, 6),
        (SshMessage::ExtInfo, 7),
        (SshMessage::KexInit, 20),
        (SshMessage::NewKeys, 21),
        (SshMessage::KexEcdhInit, 30),
        (SshMessage::KexEcdhReply, 31),
        (SshMessage::UserauthRequest, 50),
        (SshMessage::UserauthFailure, 51),
        (SshMessage::UserauthSuccess, 52),
        (SshMessage::UserauthBanner, 53),
        (SshMessage::ChannelOpen, 90),
        (SshMessage::ChannelOpenConfirmation, 91),
        (SshMessage::ChannelData, 94),
        (SshMessage::ChannelEOF, 96),
        (SshMessage::ChannelClose, 97),
        (SshMessage::ChannelRequest, 98),
    ];
    for (kind, number) in numbers {
        assert_eq!(kind.code(), number);
    }
}

#[test]
fn only_the_expected_message_is_taken() {
    assert_eq!(expect_message(&[20, 1], SshMessage::KexInit), Ok(()));
    assert_eq!(expect_message(&[1], SshMessage::KexInit), Err(MessageError::Unexpected(1)));
    assert_eq!(expect_message(&[], SshMessage::NewKeys), Err(MessageError::Empty));
}

#[test]
fn the_clients_messages() {
    assert_eq!(new_keys(), vec![21]);
    assert_eq!(service_request(), b"\x05\x00\x00\x00\x0cssh-userauth".to_vec());
    assert_eq!(
        password_request("me", "pw"),
        b"\x32\x00\x00\x00\x02me\x00\x00\x00\x0essh-connection\x00\x00\x00\x08password\x00\x00\x00\x00\x02pw".to_vec()
    );
    assert_eq!(
        channel_open(),
        b"\x5a\x00\x00\x00\x07session\x00\x00\x00\x00\x00\x20\x00\x00\x00\x00\x80\x00".to_vec()
    );
    assert_eq!(
        pty_request(0x0102),
        b"\x62\x00\x00\x01\x02\x00\x00\x00\x07pty-req\x00\x00\x00\x00\x05xterm\x00\x00\x00\x50\x00\x00\x00\x18\x00\x00\x00\x00\x00\x00\x00\x00\x00\x00\x00\x00".to_vec()
    );
    assert_eq!(
        shell_request(3),
        b"\x62\x00\x00\x00\x03\x00\x00\x00\x05shell\x00".to_vec()
    );
    assert_eq!(
        channel_data(3, b"ls\n"),
        b"\x5e\x00\x00\x00\x03\x00\x00\x00\x03ls\n".to_vec()
    );
}

#[test]
fn each_phase_begins_with_its_messages() {
    assert_eq!(to_send(Phase::Service, "me", "pw"), vec![service_request()]);
    assert_eq!(to_send(Phase::Auth, "me", "pw"), vec![password_request("me", "pw")]);
    assert_eq!(to_send(Phase::Opening, "me", "pw"), vec![channel_open()]);
    assert_eq!(
        to_send(Phase::Shell { channel: 5 }, "me", "pw"),
        vec![pty_request(5), shell_request(5)]
    );
}

#[test]
fn waiting_for_the_service() {
    let phase = Phase::Service;
    assert!(matches!(on_packet(phase, &[6, 0]), Ok((Phase::Auth, Event::ServiceAccepted))));
    assert!(matches!(on_packet(phase, &[7]), Ok((Phase::Service, Event::ExtInfo))));
    assert!(matches!(on_packet(phase, &[2, 9]), Ok((Phase::Service, Event::Ignored(2)))));
    assert!(matches!(on_packet(phase, &[]), Err(MalformedMessage)));
}

#[test]
fn waiting_for_the_login() {
    let phase = Phase::Auth;
    assert!(matches!(on_packet(phase, &[52]), Ok((Phase::Opening, Event::Authenticated))));
    assert!(matches!(on_packet(phase, &[51]), Ok((Phase::Auth, Event::WrongPassword))));
    assert!(matches!(on_packet(phase, &[53]), Ok((Phase::Auth, Event::Banner))));
    assert!(matches!(on_packet(phase, &[80]), Ok((Phase::Auth, Event::Nothing))));
    assert!(matches!(on_packet(phase, &[]), Err(MalformedMessage)));
}

#[test]
fn waiting_for_the_channel() {
    let phase = Phase::Opening;
    let confirmation = [91u8, 0, 0, 0, 0, 0, 0, 1, 2, 0, 0];
    match on_packet(phase, &confirmation) {
        Ok((Phase::Shell { channel }, Event::ChannelOpened)) => assert_eq!(channel, 258),
        _ => panic!("no channel"),
    }
    assert!(matches!(on_packet(phase, &confirmation[..8]), Err(MalformedMessage)));
    assert!(on_packet(phase, &confirmation[..9]).is_ok());
    assert!(matches!(on_packet(phase, &[80]), Ok((Phase::Opening, Event::Nothing))));
}

#[test]
fn the_shell_prints_what_comes() {
    let phase = Phase::Shell { channel: 4 };
    match on_packet(phase, &channel_data(0, b"hello")) {
        Ok((Phase::Shell { channel: 4 }, Event::Output(data))) => assert_eq!(data, b"hello"),
        _ => panic!("no output"),
    }
    assert!(matches!(on_packet(phase, &[94, 0, 0, 0, 0, 0, 0, 0, 5, 1]), Err(MalformedMessage)));
    assert!(matches!(on_packet(phase, &[94, 0, 0]), Err(MalformedMessage)));
    assert!(matches!(on_packet(phase, &[96, 0, 0, 0, 0]), Ok((_, Event::Closed))));
    assert!(matches!(on_packet(phase, &[97, 0, 0, 0, 0]), Ok((_, Event::Nothing))));
}

#[test]
fn phases_follow_in_order() {
    for number in 0..=255u8 {
        let payload = [number, 0, 0, 0, 0, 0, 0, 0, 0];
        let next = after(Phase::Service, &payload);
        assert_eq!(next, if number == 6 { Phase::Auth } else { Phase::Service });
        let next = after(Phase::Auth, &payload);
        assert_eq!(next, if number == 52 { Phase::Opening } else { Phase::Auth });
        let next = after(Phase::Opening, &payload);
        assert_eq!(next, if number == 91 { Phase::Shell { channel: 0 } } else { Phase::Opening });
        let next = after(Phase::Shell { channel: 9 }, &payload);
        assert_eq!(next, Phase::Shell { channel: 9 });
    }
}

#[test]
fn destinations() {
    let to = parse_destination("me@example.com", "login").unwrap();
    assert_eq!((to.user.as_str(), to.server.as_str()), ("me", "example.com"));
    let to = parse_destination("example.com", "login").unwrap();
    assert_eq!((to.user.as_str(), to.server.as_str()), ("login", "example.com"));
    let to = parse_destination("a@b@c", "login").unwrap();
    assert_eq!((to.user.as_str(), to.server.as_str()), ("a", "c"));
    let to = parse_destination("me@", "").unwrap();
    assert_eq!((to.user.as_str(), to.server.as_str()), ("me", ""));
    assert!(parse_destination("example.com", "").is_none());
    assert!(parse_destination("@example.com", "login").is_none());
    assert!(names_user("me@x") && names_user("@") && !names_user("x"));
}

use fssh::packet::{
    build_body, frame_packet, padding_len, write_packet, BadPacketLength, PacketRead, Transport,
};

fn read_all(mut stream: &[u8], transport: &mut Transport) -> Result<(Vec<u8>, Vec<u8>), BadPacketLength> {
    let mut read = PacketRead::start(transport);
    loop {
        if let PacketRead::Done { payload } = read {
            return Ok((payload, stream.to_vec()));
        }
        let n = read.wanted();
        let bytes = stream[..n].to_vec();
        stream = &stream[n..];
        read = read.feed(bytes)?;
    }
}

#[test]
fn padding_fills_blocks_with_four_bytes_at_least() {
    assert_eq!(padding_len(8, 5), 11);
    assert_eq!(padding_len(8, 8), 8);
    assert_eq!(padding_len(8, 12), 4);
    assert_eq!(padding_len(8, 13), 11);
    assert_eq!(padding_len(16, 1), 15);
    assert_eq!(padding_len(16, 13), 19);
    assert_eq!(padding_len(16, 12), 4);
    assert_eq!(padding_len(16, 16), 16);
}

#[test]
fn padding_is_the_least_amount() {
    for block in [8usize, 16] {
        for unpadded in 0..100 {
            let padding = padding_len(block, unpadded);
            assert_eq!((unpadded + padding) % block, 0);
            for less in 4..padding {
                assert_ne!((unpadded + less) % block, 0);
            }
        }
    }
}

#[test]
fn a_packet_is_framed_with_length_and_padding_length() {
    assert_eq!(build_body(&[21, 22], &[1, 2, 3, 4]), vec![4, 21, 22, 1, 2, 3, 4]);
    let padding = [0xaa; 10];
    let wire = frame_packet(&[21], &padding);
    assert_eq!(&wire[..6], &[0, 0, 0, 12, 10, 21]);
    assert_eq!(&wire[6..], &padding);
    assert_eq!(wire.len() % 8, 0);
}

#[test]
fn a_written_packet_is_counted_and_random_in_its_padding() {
    let mut transport = Transport::new();
    assert_eq!((transport.send_sequence, transport.recv_sequence), (0, 0));
    let one = write_packet(&[1, 2, 3], &mut transport);
    let two = write_packet(&[1, 2, 3], &mut transport);
    assert_eq!((transport.send_sequence, transport.recv_sequence), (2, 0));
    assert_eq!(&one[..8], &[0, 0, 0, 12, 8, 1, 2, 3]);
    assert_eq!(one.len(), 16);
    assert_eq!(&one[..8], &two[..8]);
    assert_ne!(&one[8..], &two[8..]);
    assert_ne!(&one[8..], &[0u8; 8]);
    transport.send_sequence = u32::MAX;
    write_packet(&[], &mut transport);
    assert_eq!(transport.send_sequence, 0);
}

#[test]
fn reading_gives_back_what_was_written() {
    for len in 0..40usize {
        let payload: Vec<u8> = (0..len as u8).collect();
        let mut transport = Transport::new();
        let mut stream = write_packet(&payload, &mut transport);
        stream.extend_from_slice(&[77, 78]);
        let (read, rest) = read_all(&stream, &mut transport).unwrap();
        assert_eq!(read, payload);
        assert_eq!(rest, vec![77, 78]);
        assert_eq!((transport.send_sequence, transport.recv_sequence), (1, 1));
    }
}

#[test]
fn a_packet_without_room_for_its_padding_is_refused() {
    let mut transport = Transport::new();
    assert_eq!(read_all(&[0, 0, 0, 5, 5, 0, 0, 0, 0, 0], &mut transport), Err(BadPacketLength));
    assert_eq!(read_all(&[0, 0, 0, 0, 0], &mut transport), Err(BadPacketLength));
    let (payload, rest) = read_all(&[0, 0, 0, 6, 5, 1, 2, 3, 4, 5], &mut transport).unwrap();
    assert_eq!(payload, Vec::<u8>::new());
    assert_eq!(rest, Vec::<u8>::new());
    assert_eq!(transport.recv_sequence, 3);
}

#[test]
fn the_receive_count_wraps() {
    let mut transport = Transport { send_sequence: 5, recv_sequence: u32::MAX };
    let read = PacketRead::start(&mut transport);
    assert_eq!(read.wanted(), 4);
    assert_eq!((transport.send_sequence, transport.recv_sequence), (5, 0));
}

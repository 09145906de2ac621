//! Packets before encryption: padding, framing and reading them from a stream.

use vstd::prelude::*;
use crate::primitives::random_bytes;
use crate::wire;

verus! {

/// The numbers of packets sent and received so far, modulo 2^32. They keep
/// counting when encryption starts.
pub struct Transport {
    pub send_sequence: u32,
    pub recv_sequence: u32,
}

impl Transport {
    /// A connection on which no packet has passed yet.
    pub fn new() -> (transport: Transport)
        ensures
            transport.send_sequence == 0,
            transport.recv_sequence == 0,
    {
        Transport { send_sequence: 0, recv_sequence: 0 }
    }
}

/// The sequence number that follows `seq`.
pub open spec fn next_sequence(seq: u32) -> u32 {
    if seq == u32::MAX {
        0
    } else {
        (seq + 1) as u32
    }
}

/// How much padding goes behind `unpadded` bytes so that they fill whole blocks
/// of `block` bytes, four bytes of padding at least.
pub open spec fn padding_for(block: int, unpadded: int) -> int {
    let gap = block - unpadded % block;
    if gap < 4 {
        gap + block
    } else {
        gap
    }
}

/// Whether packets are padded to blocks of this size: 8 bytes, or 16 under
/// AES-GCM.
pub open spec fn is_block_size(block: int) -> bool {
    block == 8 || block == 16
}

/// Computes [`padding_for`].
pub fn padding_len(block: usize, unpadded: usize) -> (len: usize)
    requires
        is_block_size(block as int),
    ensures
        len == padding_for(block as int, unpadded as int),
        4 <= len <= 19,
{
    let gap: usize = block - unpadded % block;
    if gap < 4 {
        gap + block
    } else {
        gap
    }
}

/// What a packet carries behind its length: the number of padding bytes, the
/// payload, the padding.
pub open spec fn packet_body(payload: Seq<u8>, padding: Seq<u8>) -> Seq<u8> {
    seq![padding.len() as u8] + payload + padding
}

/// The length field of a packet with this body.
pub open spec fn packet_header(body: Seq<u8>) -> Seq<u8> {
    wire::be32(wire::len32(body.len()))
}

/// An unencrypted packet as it goes over the wire.
pub open spec fn plain_packet(payload: Seq<u8>, padding: Seq<u8>) -> Seq<u8> {
    packet_header(packet_body(payload, padding)) + packet_body(payload, padding)
}

/// The amount of padding in an unencrypted packet; the length field counts
/// towards its blocks.
pub open spec fn plain_padding(payload_len: nat) -> int {
    padding_for(8, 4 + payload_len as int + 1)
}

/// Whether `wire` is an unencrypted packet with this payload, whatever the
/// padding bytes are.
pub open spec fn is_plain_packet(wire: Seq<u8>, payload: Seq<u8>) -> bool {
    let padding = wire.skip(5 + payload.len() as int);
    &&& padding.len() == plain_padding(payload.len())
    &&& wire == plain_packet(payload, padding)
}

/// Puts together [`packet_body`].
pub fn build_body(payload: &[u8], padding: &[u8]) -> (body: Vec<u8>)
    requires
        padding@.len() < 0x100,
    ensures
        body@ == packet_body(payload@, padding@),
{
    let mut body: Vec<u8> = Vec::new();
    body.push(padding.len() as u8);
    wire::push_bytes(&mut body, payload);
    wire::push_bytes(&mut body, padding);
    assert(body@ =~= packet_body(payload@, padding@));
    body
}

/// Frames `payload` as an unencrypted packet with the given padding bytes.
pub fn frame_packet(payload: &[u8], padding: &[u8]) -> (wire: Vec<u8>)
    requires
        padding@.len() == plain_padding(payload@.len()),
    ensures
        wire@ == plain_packet(payload@, padding@),
{
    let body = build_body(payload, padding);
    let mut out: Vec<u8> = Vec::new();
    wire::push_u32(&mut out, wire::length_field(body.len()));
    wire::push_bytes(&mut out, &body);
    assert(out@ =~= plain_packet(payload@, padding@));
    out
}

/// The bytes to send for one unencrypted packet, padded with random bytes; the
/// packet is counted as sent.
pub fn write_packet(payload: &[u8], transport: &mut Transport) -> (wire: Vec<u8>)
    requires
        payload@.len() + 32 <= usize::MAX,
    ensures
        is_plain_packet(wire@, payload@),
        final(transport).send_sequence == next_sequence(old(transport).send_sequence),
        final(transport).recv_sequence == old(transport).recv_sequence,
{
    let padding = random_bytes(padding_len(8, 4 + payload.len() + 1));
    let wire = frame_packet(payload, &padding);
    assert(wire@.skip((5 + payload@.len()) as int) =~= padding@);
    transport.send_sequence = transport.send_sequence.wrapping_add(1);
    wire
}

/// How far the reading of one unencrypted packet has come.
pub enum PacketRead {
    /// The length field comes next.
    Length,
    /// The padding length comes next.
    PaddingLength { packet_len: u32 },
    /// The payload comes next.
    Payload { payload_len: usize, padding_len: usize },
    /// The padding comes next.
    Padding { payload: Vec<u8>, padding_len: usize },
    /// The packet has been read.
    Done { payload: Vec<u8> },
}

/// The content of a [`PacketRead`].
pub enum PacketReadState {
    Length,
    PaddingLength { packet_len: int },
    Payload { payload_len: int, padding_len: int },
    Padding { payload: Seq<u8>, padding_len: int },
    Done { payload: Seq<u8> },
}

impl View for PacketRead {
    type V = PacketReadState;

    open spec fn view(&self) -> PacketReadState {
        match self {
            PacketRead::Length => PacketReadState::Length,
            PacketRead::PaddingLength { packet_len } => PacketReadState::PaddingLength {
                packet_len: *packet_len as int,
            },
            PacketRead::Payload { payload_len, padding_len } => PacketReadState::Payload {
                payload_len: *payload_len as int,
                padding_len: *padding_len as int,
            },
            PacketRead::Padding { payload, padding_len } => PacketReadState::Padding {
                payload: payload@,
                padding_len: *padding_len as int,
            },
            PacketRead::Done { payload } => PacketReadState::Done { payload: payload@ },
        }
    }
}

impl PacketReadState {
    /// How many bytes are read next.
    pub open spec fn wanted(self) -> int {
        match self {
            PacketReadState::Length => 4,
            PacketReadState::PaddingLength { .. } => 1,
            PacketReadState::Payload { payload_len, .. } => payload_len,
            PacketReadState::Padding { padding_len, .. } => padding_len,
            PacketReadState::Done { .. } => 0,
        }
    }

    /// Where reading stands once these bytes, as many as wanted, have come;
    /// `None` for a packet too short for its padding.
    pub open spec fn fed(self, bytes: Seq<u8>) -> Option<PacketReadState> {
        match self {
            PacketReadState::Length => Some(
                PacketReadState::PaddingLength { packet_len: wire::from_be32(bytes) as int },
            ),
            PacketReadState::PaddingLength { packet_len } => if packet_len < bytes[0] + 1 {
                None
            } else {
                Some(
                    PacketReadState::Payload {
                        payload_len: packet_len - bytes[0] - 1,
                        padding_len: bytes[0] as int,
                    },
                )
            },
            PacketReadState::Payload { padding_len, .. } => Some(
                PacketReadState::Padding { payload: bytes, padding_len },
            ),
            PacketReadState::Padding { payload, .. } => Some(PacketReadState::Done { payload }),
            PacketReadState::Done { .. } => Some(self),
        }
    }

    /// How many more times bytes have to come.
    pub open spec fn rounds_left(self) -> nat {
        match self {
            PacketReadState::Length => 4,
            PacketReadState::PaddingLength { .. } => 3,
            PacketReadState::Payload { .. } => 2,
            PacketReadState::Padding { .. } => 1,
            PacketReadState::Done { .. } => 0,
        }
    }

    /// Reads on from `stream`, each time as many bytes as wanted: the payload,
    /// and what is left of the stream. `None` if the stream ends too early or
    /// the packet is too short for its padding.
    pub open spec fn read_from(self, stream: Seq<u8>) -> Option<(Seq<u8>, Seq<u8>)>
        decreases self.rounds_left(),
    {
        if let PacketReadState::Done { payload } = self {
            Some((payload, stream))
        } else if self.wanted() < 0 || stream.len() < self.wanted() {
            None
        } else {
            match self.fed(stream.take(self.wanted())) {
                None => None,
                Some(next) => if next.rounds_left() < self.rounds_left() {
                    next.read_from(stream.skip(self.wanted()))
                } else {
                    None
                },
            }
        }
    }
}

/// A packet whose length leaves no room for its padding.
#[derive(Debug, Clone, Copy, PartialEq, Eq, Structural)]
pub struct BadPacketLength;

impl PacketRead {
    /// Starts to read a packet, which is counted as received.
    pub fn start(transport: &mut Transport) -> (read: PacketRead)
        ensures
            read@ == PacketReadState::Length,
            final(transport).recv_sequence == next_sequence(old(transport).recv_sequence),
            final(transport).send_sequence == old(transport).send_sequence,
    {
        transport.recv_sequence = transport.recv_sequence.wrapping_add(1);
        PacketRead::Length
    }

    /// How many bytes to read next.
    pub fn wanted(&self) -> (n: usize)
        ensures
            n == self@.wanted(),
    {
        match self {
            PacketRead::Length => 4,
            PacketRead::PaddingLength { .. } => 1,
            PacketRead::Payload { payload_len, .. } => *payload_len,
            PacketRead::Padding { padding_len, .. } => *padding_len,
            PacketRead::Done { .. } => 0,
        }
    }

    /// Takes the bytes that were wanted.
    pub fn feed(self, bytes: Vec<u8>) -> (read: Result<PacketRead, BadPacketLength>)
        requires
            bytes@.len() == self@.wanted(),
        ensures
            read is Err <==> self@.fed(bytes@) is None,
            read matches Ok(next) ==> self@.fed(bytes@) == Some(next@),
    {
        match self {
            PacketRead::Length => Ok(
                PacketRead::PaddingLength { packet_len: wire::u32_from_be_bytes(&bytes) },
            ),
            PacketRead::PaddingLength { packet_len } => {
                let padding_len: usize = bytes[0] as usize;
                let packet_len: usize = packet_len as usize;
                if packet_len < padding_len + 1 {
                    Err(BadPacketLength)
                } else {
                    Ok(PacketRead::Payload { payload_len: packet_len - padding_len - 1, padding_len })
                }
            },
            PacketRead::Payload { padding_len, .. } => Ok(
                PacketRead::Padding { payload: bytes, padding_len },
            ),
            PacketRead::Padding { payload, .. } => Ok(PacketRead::Done { payload }),
            PacketRead::Done { payload } => Ok(PacketRead::Done { payload }),
        }
    }
}

/// Padding fills the last block, takes four bytes at least, and no smaller
/// amount does both.
pub proof fn law_padding_is_least(block: int, unpadded: int, other: int)
    requires
        is_block_size(block),
        0 <= unpadded,
    ensures
        (unpadded + padding_for(block, unpadded)) % block == 0,
        4 <= padding_for(block, unpadded) < block + 4,
        4 <= other < padding_for(block, unpadded) ==> (unpadded + other) % block != 0,
{
    if block == 8 {
        lemma_least_to_8(unpadded, other);
    } else {
        lemma_least_to_16(unpadded, other);
    }
}

proof fn lemma_least_to_8(unpadded: int, other: int)
    requires
        0 <= unpadded,
    ensures
        (unpadded + padding_for(8, unpadded)) % 8 == 0,
        4 <= padding_for(8, unpadded) < 12,
        4 <= other < padding_for(8, unpadded) ==> (unpadded + other) % 8 != 0,
{
}

proof fn lemma_least_to_16(unpadded: int, other: int)
    requires
        0 <= unpadded,
    ensures
        (unpadded + padding_for(16, unpadded)) % 16 == 0,
        4 <= padding_for(16, unpadded) < 20,
        4 <= other < padding_for(16, unpadded) ==> (unpadded + other) % 16 != 0,
{
}

/// One round of reading: when the wanted bytes stand at the head of the stream,
/// reading goes on behind them.
proof fn lemma_read_round(
    state: PacketReadState,
    bytes: Seq<u8>,
    next: PacketReadState,
    rest: Seq<u8>,
)
    requires
        state !is Done,
        bytes.len() == state.wanted(),
        state.fed(bytes) == Some(next),
        next.rounds_left() < state.rounds_left(),
    ensures
        state.read_from(bytes + rest) == next.read_from(rest),
{
    let stream = bytes + rest;
    assert(stream.take(state.wanted()) =~= bytes);
    assert(stream.skip(state.wanted()) =~= rest);
}

/// Reading gives back the payload that was written and leaves what follows the
/// packet untouched.
pub proof fn law_read_gives_back_write(wire: Seq<u8>, payload: Seq<u8>, rest: Seq<u8>)
    requires
        is_plain_packet(wire, payload),
        wire.len() - 4 < 0x1_0000_0000,
    ensures
        PacketReadState::Length.read_from(wire + rest) == Some((payload, rest)),
{
    let padding = wire.skip(5 + payload.len() as int);
    let body = packet_body(payload, padding);
    let (payload_len, padding_len) = (payload.len() as int, padding.len() as int);
    let header = packet_header(body);
    let count = seq![padding.len() as u8];
    let length_read = PacketReadState::PaddingLength { packet_len: body.len() as int };
    let count_read = PacketReadState::Payload { payload_len, padding_len };
    let payload_read = PacketReadState::Padding { payload, padding_len };
    let read = PacketReadState::Done { payload };
    wire::law_be32_read_back(wire::len32(body.len()));
    assert(wire + rest =~= header + (body + rest));
    assert(body + rest =~= count + (payload + (padding + rest)));
    lemma_read_round(PacketReadState::Length, header, length_read, body + rest);
    lemma_read_round(length_read, count, count_read, payload + (padding + rest));
    lemma_read_round(count_read, payload, payload_read, padding + rest);
    lemma_read_round(payload_read, padding, read, rest);
}

} // verus!

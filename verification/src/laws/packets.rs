//! Laws of packets before encryption and of reading them.

use vstd::prelude::*;
use crate::packet;
use crate::packet::{PacketRead, PacketReadState};
use crate::wire;

verus! {

/// Sequence numbers go up by one, and from the last back to zero.
pub proof fn law_next_sequence(seq: u32)
    ensures
        packet::next_sequence(seq) == (seq + 1) % 0x1_0000_0000,
{
}

/// A packet before encryption fills whole blocks of eight bytes with as little
/// padding as can be, four bytes at least.
pub proof fn law_plain_padding(payload_len: nat)
    ensures
        (4 + 1 + payload_len + packet::plain_padding(payload_len)) % 8 == 0,
        4 <= packet::plain_padding(payload_len) < 12,
{
}

/// Padding goes by the blocks that are to be filled.
pub proof fn law_padding_fills_blocks(unpadded: nat)
    ensures
        (unpadded + packet::padding_for(8, unpadded as int)) % 8 == 0,
        4 <= packet::padding_for(8, unpadded as int) < 12,
        (unpadded + packet::padding_for(16, unpadded as int)) % 16 == 0,
        4 <= packet::padding_for(16, unpadded as int) < 20,
        packet::is_block_size(8),
        packet::is_block_size(16),
{
}

/// The body of a packet: how many bytes of padding there are, the payload, the
/// padding.
pub proof fn law_body_parts(payload: Seq<u8>, padding: Seq<u8>)
    requires
        padding.len() < 0x100,
    ensures
        ({
            let body = packet::packet_body(payload, padding);
            &&& body.len() == 1 + payload.len() + padding.len()
            &&& body[0] == padding.len()
            &&& body.subrange(1, 1 + payload.len() as int) == payload
            &&& body.skip(1 + payload.len() as int) == padding
            &&& body == seq![padding.len() as u8] + payload + padding
            &&& packet::packet_header(body) == wire::be32((body.len() % 0x1_0000_0000) as u32)
        }),
{
    let body = packet::packet_body(payload, padding);
    assert(body.subrange(1, 1 + payload.len() as int) =~= payload);
    assert(body.skip(1 + payload.len() as int) =~= padding);
}

/// A packet before encryption: the length of what follows, how many bytes of
/// padding there are, the payload, the padding.
pub proof fn law_plain_packet_parts(payload: Seq<u8>, padding: Seq<u8>)
    requires
        padding.len() < 0x100,
    ensures
        ({
            let wire = packet::plain_packet(payload, padding);
            let len = 1 + payload.len() + padding.len();
            &&& wire.len() == 4 + len
            &&& wire.take(4) == wire::be32((len % 0x1_0000_0000) as u32)
            &&& wire[4] == padding.len()
            &&& wire.subrange(5, 5 + payload.len() as int) == payload
            &&& wire.skip(5 + payload.len() as int) == padding
        }),
{
    let wire = packet::plain_packet(payload, padding);
    law_body_parts(payload, padding);
    assert(wire.take(4) =~= packet::packet_header(packet::packet_body(payload, padding)));
    assert(wire.subrange(5, 5 + payload.len() as int) =~= payload);
    assert(wire.skip(5 + payload.len() as int) =~= padding);
}

/// What is sent for a payload before encryption, whatever the padding bytes are:
/// a whole number of blocks, with the payload behind the length and the number of
/// padding bytes.
pub proof fn law_sent_packet(wire: Seq<u8>, payload: Seq<u8>)
    requires
        packet::is_plain_packet(wire, payload),
    ensures
        wire.len() % 8 == 0,
        9 <= wire.len() - payload.len() < 17,
        wire.take(4) == wire::be32(((wire.len() - 4) % 0x1_0000_0000) as u32),
        wire[4] == wire.len() - 5 - payload.len(),
        wire.subrange(5, 5 + payload.len() as int) == payload,
{
    law_plain_packet_parts(payload, wire.skip(5 + payload.len() as int));
}

/// A packet is read in four parts: the length, the number of padding bytes, the
/// payload, the padding. It gives the payload, however much padding there is.
pub proof fn law_packet_is_read_in_parts(payload: Seq<u8>, padding: Seq<u8>)
    requires
        padding.len() < 0x100,
        1 + payload.len() + padding.len() < 0x1_0000_0000,
    ensures
        ({
            let len = (1 + payload.len() + padding.len()) as u32;
            let start = PacketReadState::Length;
            &&& start.wanted() == 4
            &&& start.fed(wire::be32(len)) matches Some(counted)
            &&& counted.wanted() == 1
            &&& counted.fed(seq![padding.len() as u8]) matches Some(sized)
            &&& sized.wanted() == payload.len()
            &&& sized.fed(payload) matches Some(carried)
            &&& carried.wanted() == padding.len()
            &&& carried.fed(padding) matches Some(read)
            &&& read == PacketReadState::Done { payload }
            &&& read.wanted() == 0
            &&& read.fed(Seq::empty()) == Some(read)
        }),
{
    wire::law_be32_read_back((1 + payload.len() + padding.len()) as u32);
}

/// A packet is refused exactly if its length leaves no room for its padding.
pub proof fn law_short_packet_is_refused(len: u32, count: u8)
    ensures
        ({
            &&& PacketReadState::Length.fed(wire::be32(len)) matches Some(counted)
            &&& counted.fed(seq![count]) is None <==> len < 1 + count
        }),
{
    wire::law_be32_read_back(len);
}

/// The model of reading holds what the reader holds.
pub proof fn law_reader_is_its_content(
    packet_len: u32,
    payload_len: usize,
    padding_len: usize,
    payload: Vec<u8>,
)
    ensures
        PacketRead::Length@ == PacketReadState::Length,
        (PacketRead::PaddingLength { packet_len })@ == (PacketReadState::PaddingLength {
            packet_len: packet_len as int,
        }),
        (PacketRead::Payload { payload_len, padding_len })@ == (PacketReadState::Payload {
            payload_len: payload_len as int,
            padding_len: padding_len as int,
        }),
        (PacketRead::Padding { payload, padding_len })@ == (PacketReadState::Padding {
            payload: payload@,
            padding_len: padding_len as int,
        }),
        (PacketRead::Done { payload })@ == (PacketReadState::Done { payload: payload@ }),
{
}

} // verus!

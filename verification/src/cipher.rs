//! The ciphers that the client knows, and whole encrypted packets.

use vstd::prelude::*;
use crate::packet;
use crate::primitives;
use crate::sealing;
use crate::sealing::DecryptError;
use crate::text::same_text;
use crate::wire;

verus! {

/// A packet cipher with its keys.
#[allow(inconsistent_fields)]
pub enum Cipher {
    ChaCha20Poly1305 { main_key: [u8; 32], header_key: [u8; 32] },
    Aes128Gcm { key: [u8; 16], iv: [u8; 12] },
    Aes256Gcm { key: [u8; 32], iv: [u8; 12] },
}

impl Clone for Cipher {
    fn clone(&self) -> (copy: Cipher)
        ensures
            copy == *self,
    {
        match self {
            Cipher::ChaCha20Poly1305 { main_key, header_key } => Cipher::ChaCha20Poly1305 {
                main_key: *main_key,
                header_key: *header_key,
            },
            Cipher::Aes128Gcm { key, iv } => Cipher::Aes128Gcm { key: *key, iv: *iv },
            Cipher::Aes256Gcm { key, iv } => Cipher::Aes256Gcm { key: *key, iv: *iv },
        }
    }
}

/// The construction behind an algorithm name.
pub enum CipherKind {
    ChaCha20Poly1305,
    Aes128Gcm,
    Aes256Gcm,
}

/// The construction that an algorithm name stands for. AES-192-GCM is run with a
/// 256-bit key.
pub open spec fn kind_of(alg: Seq<char>) -> Option<CipherKind> {
    if alg == "chacha20-poly1305@openssh.com"@ {
        Some(CipherKind::ChaCha20Poly1305)
    } else if alg == "aes128-gcm@openssh.com"@ {
        Some(CipherKind::Aes128Gcm)
    } else if alg == "aes256-gcm@openssh.com"@ || alg == "aes192-gcm@openssh.com"@ {
        Some(CipherKind::Aes256Gcm)
    } else {
        None
    }
}

impl CipherKind {
    /// How many bytes of key material the construction takes.
    pub open spec fn key_len(self) -> int {
        match self {
            CipherKind::ChaCha20Poly1305 => 64,
            CipherKind::Aes128Gcm => 28,
            CipherKind::Aes256Gcm => 44,
        }
    }
}

impl Cipher {
    /// The construction of this cipher.
    pub open spec fn kind(self) -> CipherKind {
        match self {
            Cipher::ChaCha20Poly1305 { .. } => CipherKind::ChaCha20Poly1305,
            Cipher::Aes128Gcm { .. } => CipherKind::Aes128Gcm,
            Cipher::Aes256Gcm { .. } => CipherKind::Aes256Gcm,
        }
    }

    /// The key material that this cipher was made of: the main key and the
    /// header key, or the key and the initial vector.
    pub open spec fn key_material(self) -> Seq<u8> {
        match self {
            Cipher::ChaCha20Poly1305 { main_key, header_key } => main_key@ + header_key@,
            Cipher::Aes128Gcm { key, iv } => key@ + iv@,
            Cipher::Aes256Gcm { key, iv } => key@ + iv@,
        }
    }

    /// The block size to which packets are padded.
    pub open spec fn block_size(self) -> int {
        match self {
            Cipher::ChaCha20Poly1305 { .. } => 8,
            Cipher::Aes128Gcm { .. } => 16,
            Cipher::Aes256Gcm { .. } => 16,
        }
    }

    /// The length of an encrypted packet with a payload of this length.
    pub open spec fn packet_len(self, payload_len: nat) -> int {
        4 + 1 + payload_len + sealing::sealed_padding(self.block_size(), payload_len) + 16
    }

    /// Whether the cipher can seal a payload of this length.
    pub open spec fn fits(self, payload_len: nat) -> bool {
        match self {
            Cipher::ChaCha20Poly1305 { .. } => sealing::chacha20_fits(payload_len),
            Cipher::Aes128Gcm { .. } => sealing::aes_gcm_fits(payload_len),
            Cipher::Aes256Gcm { .. } => sealing::aes_gcm_fits(payload_len),
        }
    }

    /// Whether `packet` is packet `seq` with this payload, for some padding.
    pub open spec fn seals_to(self, seq: u32, payload: Seq<u8>, packet: Seq<u8>) -> bool {
        match self {
            Cipher::ChaCha20Poly1305 { main_key, header_key } => sealing::is_chacha20_packet(
                main_key@,
                header_key@,
                seq,
                payload,
                packet,
            ),
            Cipher::Aes128Gcm { key, iv } => sealing::is_aes128_packet(
                key@,
                iv@,
                seq,
                payload,
                packet,
            ),
            Cipher::Aes256Gcm { key, iv } => sealing::is_aes256_packet(
                key@,
                iv@,
                seq,
                payload,
                packet,
            ),
        }
    }

    /// Whether `header` has the length that [`Cipher::decrypt_length`] reads from.
    pub open spec fn is_header(self, header: Seq<u8>) -> bool {
        match self {
            Cipher::ChaCha20Poly1305 { .. } => header.len() >= 4,
            Cipher::Aes128Gcm { .. } => header.len() == 4,
            Cipher::Aes256Gcm { .. } => header.len() == 4,
        }
    }

    /// The length that the header of packet `seq` announces for its body.
    pub open spec fn announced(self, seq: u32, header: Seq<u8>) -> u32 {
        match self {
            Cipher::ChaCha20Poly1305 { header_key, .. } => sealing::chacha20_length(
                header_key@,
                seq,
                header,
            ),
            Cipher::Aes128Gcm { .. } => wire::from_be32(header),
            Cipher::Aes256Gcm { .. } => wire::from_be32(header),
        }
    }

    /// Whether the cipher takes header and rest of these lengths as a packet.
    pub open spec fn takes(self, header: Seq<u8>, rest: Seq<u8>) -> bool {
        match self {
            Cipher::ChaCha20Poly1305 { .. } => {
                &&& header.len() >= 4
                &&& 16 <= rest.len()
                &&& 64 + rest.len() - 16 <= primitives::CHACHA20_MAX
            },
            Cipher::Aes128Gcm { .. } => true,
            Cipher::Aes256Gcm { .. } => true,
        }
    }

    /// What packet `seq` holds, given its header and the rest of it.
    pub open spec fn opened(self, seq: u32, header: Seq<u8>, rest: Seq<u8>) -> Result<
        Seq<u8>,
        DecryptError,
    > {
        match self {
            Cipher::ChaCha20Poly1305 { main_key, .. } => sealing::chacha20_opened(
                main_key@,
                seq,
                header,
                rest,
            ),
            Cipher::Aes128Gcm { key, iv } => sealing::aes128_opened(key@, iv@, seq, header, rest),
            Cipher::Aes256Gcm { key, iv } => sealing::aes256_opened(key@, iv@, seq, header, rest),
        }
    }

    /// Whether `packet` reads as packet `seq` with this payload: its header
    /// announces what follows, and what follows opens to the payload.
    pub open spec fn reads_as(self, seq: u32, packet: Seq<u8>, payload: Seq<u8>) -> bool {
        &&& packet.len() >= 20
        &&& self.announced(seq, packet.take(4)) == wire::len32((packet.len() - 20) as nat)
        &&& self.opened(seq, packet.take(4), packet.skip(4)) == Ok::<Seq<u8>, DecryptError>(payload)
    }

    /// Makes the cipher with this name from the first bytes of `key_bytes`;
    /// `None` for an unknown name or too few bytes.
    pub fn new(alg: &str, key_bytes: &[u8]) -> (cipher: Option<Cipher>)
        ensures
            cipher is Some <==> (kind_of(alg@) matches Some(kind) && key_bytes@.len()
                >= kind.key_len()),
            cipher matches Some(c) ==> kind_of(alg@) == Some(c.kind()),
            cipher matches Some(c) ==> c.key_material() == key_bytes@.take(c.kind().key_len()),
    {
        if same_text(alg, "chacha20-poly1305@openssh.com") {
            if key_bytes.len() < 64 {
                return None;
            }
            let main_key: [u8; 32] = wire::array_at(key_bytes, 0);
            let header_key: [u8; 32] = wire::array_at(key_bytes, 32);
            assert(main_key@ + header_key@ =~= key_bytes@.take(64));
            Some(Cipher::ChaCha20Poly1305 { main_key, header_key })
        } else if same_text(alg, "aes128-gcm@openssh.com") {
            if key_bytes.len() < 28 {
                return None;
            }
            let key: [u8; 16] = wire::array_at(key_bytes, 0);
            let iv: [u8; 12] = wire::array_at(key_bytes, 16);
            assert(key@ + iv@ =~= key_bytes@.take(28));
            Some(Cipher::Aes128Gcm { key, iv })
        } else if same_text(alg, "aes256-gcm@openssh.com") || same_text(
            alg,
            "aes192-gcm@openssh.com",
        ) {
            if key_bytes.len() < 44 {
                return None;
            }
            let key: [u8; 32] = wire::array_at(key_bytes, 0);
            let iv: [u8; 12] = wire::array_at(key_bytes, 32);
            assert(key@ + iv@ =~= key_bytes@.take(44));
            Some(Cipher::Aes256Gcm { key, iv })
        } else {
            None
        }
    }

    /// Whether the cipher can seal a payload of this length.
    pub fn can_seal(&self, payload_len: usize) -> (can: bool)
        ensures
            can == (self.fits(payload_len as nat) && payload_len + 32 <= usize::MAX),
    {
        if payload_len > usize::MAX - 32 {
            return false;
        }
        match self {
            Cipher::ChaCha20Poly1305 { .. } => 64 + 1 + payload_len as u128 + packet::padding_len(
                8,
                1 + payload_len,
            ) as u128 <= primitives::CHACHA20_MAX as u128,
            _ => 1 + payload_len as u128 + packet::padding_len(16, 1 + payload_len) as u128
                <= primitives::AES_GCM_MAX as u128,
        }
    }

    /// Seals a payload as packet `seq`, with random padding. The packet reads as
    /// that payload again.
    pub fn encrypt(&self, seq: u32, payload: &[u8]) -> (packet: Vec<u8>)
        requires
            self.fits(payload@.len()),
            payload@.len() + 32 <= usize::MAX,
        ensures
            self.seals_to(seq, payload@, packet@),
            packet@.len() == self.packet_len(payload@.len()),
            self.reads_as(seq, packet@, payload@),
    {
        match self {
            Cipher::ChaCha20Poly1305 { main_key, header_key } => sealing::encrypt_chacha20(
                main_key,
                header_key,
                seq,
                payload,
            ),
            Cipher::Aes128Gcm { key, iv } => sealing::encrypt_aes128(key, iv, seq, payload),
            Cipher::Aes256Gcm { key, iv } => sealing::encrypt_aes256(key, iv, seq, payload),
        }
    }

    /// The length that the header of packet `seq` announces.
    pub fn decrypt_length(&self, seq: u32, encrypted_data: &[u8]) -> (len: u32)
        requires
            self.is_header(encrypted_data@),
        ensures
            len == self.announced(seq, encrypted_data@),
    {
        match self {
            Cipher::ChaCha20Poly1305 { header_key, .. } => sealing::decrypt_length_chacha20(
                header_key,
                seq,
                encrypted_data,
            ),
            Cipher::Aes128Gcm { .. } => sealing::decrypt_length_aes128(encrypted_data),
            Cipher::Aes256Gcm { .. } => sealing::decrypt_length_aes256(encrypted_data),
        }
    }

    /// Opens packet `seq`, given its header and the rest of it.
    pub fn decrypt_payload(
        &self,
        seq: u32,
        encrypted_header: &[u8],
        encrypted_body_with_tag: &[u8],
    ) -> (payload: Result<Vec<u8>, DecryptError>)
        requires
            self.takes(encrypted_header@, encrypted_body_with_tag@),
        ensures
            sealing::result_view(payload) == self.opened(
                seq,
                encrypted_header@,
                encrypted_body_with_tag@,
            ),
    {
        match self {
            Cipher::ChaCha20Poly1305 { main_key, .. } => sealing::decrypt_payload_chacha20(
                main_key,
                seq,
                encrypted_header,
                encrypted_body_with_tag,
            ),
            Cipher::Aes128Gcm { key, iv } => sealing::decrypt_payload_aes128(
                key,
                iv,
                seq,
                encrypted_body_with_tag,
                encrypted_header,
            ),
            Cipher::Aes256Gcm { key, iv } => sealing::decrypt_payload_aes256(
                key,
                iv,
                seq,
                encrypted_body_with_tag,
                encrypted_header,
            ),
        }
    }
}

/// The bytes to send for one encrypted packet; the packet is counted as sent.
pub fn write_enc_packet(cipher: &Cipher, seq: &mut u32, payload: &[u8]) -> (wire: Vec<u8>)
    requires
        cipher.fits(payload@.len()),
        payload@.len() + 32 <= usize::MAX,
    ensures
        cipher.seals_to(*old(seq), payload@, wire@),
        wire@.len() == cipher.packet_len(payload@.len()),
        cipher.reads_as(*old(seq), wire@, payload@),
        wire@.len() - 20 < 0x1_0000_0000 ==> forall|rest: Seq<u8>|
            #[trigger] EncPacketReadState::Header.read_from(*cipher, *old(seq), wire@ + rest)
                == Some((payload@, rest)),
        *final(seq) == packet::next_sequence(*old(seq)),
{
    let wire_bytes = cipher.encrypt(*seq, payload);
    proof {
        if wire_bytes@.len() - 20 < 0x1_0000_0000 {
            assert forall|rest: Seq<u8>|
                #[trigger] EncPacketReadState::Header.read_from(*cipher, *old(seq), wire_bytes@ + rest)
                    == Some((payload@, rest)) by {
                law_read_gives_back_sealed(*cipher, *old(seq), wire_bytes@, payload@, rest);
            }
        }
    }
    *seq = seq.wrapping_add(1);
    wire_bytes
}

/// How far the reading of one encrypted packet has come.
pub enum EncPacketRead {
    /// The header comes next.
    Header,
    /// The body, whose length the header announced, comes next with its tag.
    Body { header: Vec<u8>, announced: u32 },
    /// The packet has been read.
    Done { payload: Vec<u8> },
}

/// The content of an [`EncPacketRead`].
pub enum EncPacketReadState {
    Header,
    Body { header: Seq<u8>, announced: int },
    Done { payload: Seq<u8> },
}

impl View for EncPacketRead {
    type V = EncPacketReadState;

    open spec fn view(&self) -> EncPacketReadState {
        match self {
            EncPacketRead::Header => EncPacketReadState::Header,
            EncPacketRead::Body { header, announced } => EncPacketReadState::Body {
                header: header@,
                announced: *announced as int,
            },
            EncPacketRead::Done { payload } => EncPacketReadState::Done { payload: payload@ },
        }
    }
}

impl EncPacketReadState {
    /// How many bytes are read next.
    pub open spec fn wanted(self) -> int {
        match self {
            EncPacketReadState::Header => 4,
            EncPacketReadState::Body { announced, .. } => announced + 16,
            EncPacketReadState::Done { .. } => 0,
        }
    }

    /// Whether the header, if it has been read, has four bytes.
    pub open spec fn wf(self) -> bool {
        self matches EncPacketReadState::Body { header, announced } ==> header.len() == 4 && 0
            <= announced < 0x1_0000_0000
    }

    /// Where reading packet `seq` stands once these bytes, as many as wanted,
    /// have come.
    pub open spec fn fed(self, cipher: Cipher, seq: u32, bytes: Seq<u8>) -> Result<
        EncPacketReadState,
        DecryptError,
    > {
        match self {
            EncPacketReadState::Header => Ok(
                EncPacketReadState::Body {
                    header: bytes,
                    announced: cipher.announced(seq, bytes) as int,
                },
            ),
            EncPacketReadState::Body { header, .. } => match cipher.opened(seq, header, bytes) {
                Ok(payload) => Ok(EncPacketReadState::Done { payload }),
                Err(e) => Err(e),
            },
            EncPacketReadState::Done { .. } => Ok(self),
        }
    }

    /// How many more times bytes have to come.
    pub open spec fn rounds_left(self) -> nat {
        match self {
            EncPacketReadState::Header => 2,
            EncPacketReadState::Body { .. } => 1,
            EncPacketReadState::Done { .. } => 0,
        }
    }

    /// Reads on from `stream`, each time as many bytes as wanted: the payload,
    /// and what is left of the stream. `None` if the stream ends too early or
    /// the packet is refused.
    pub open spec fn read_from(self, cipher: Cipher, seq: u32, stream: Seq<u8>) -> Option<
        (Seq<u8>, Seq<u8>),
    >
        decreases self.rounds_left(),
    {
        if let EncPacketReadState::Done { payload } = self {
            Some((payload, stream))
        } else if self.wanted() < 0 || stream.len() < self.wanted() {
            None
        } else {
            match self.fed(cipher, seq, stream.take(self.wanted())) {
                Err(_) => None,
                Ok(next) => if next.rounds_left() < self.rounds_left() {
                    next.read_from(cipher, seq, stream.skip(self.wanted()))
                } else {
                    None
                },
            }
        }
    }
}

impl EncPacketRead {
    /// Starts to read a packet.
    pub fn start() -> (read: EncPacketRead)
        ensures
            read@ == EncPacketReadState::Header,
            read@.wf(),
    {
        EncPacketRead::Header
    }

    /// How many bytes to read next.
    pub fn wanted(&self) -> (n: u64)
        ensures
            n == self@.wanted(),
    {
        match self {
            EncPacketRead::Header => 4,
            EncPacketRead::Body { announced, .. } => *announced as u64 + 16,
            EncPacketRead::Done { .. } => 0,
        }
    }

    /// Takes the bytes that were wanted of packet `seq`. Once the packet has been
    /// opened it is counted as received.
    pub fn feed(self, cipher: &Cipher, seq: &mut u32, bytes: Vec<u8>) -> (read: Result<
        EncPacketRead,
        DecryptError,
    >)
        requires
            self@.wf(),
            bytes@.len() == self@.wanted(),
        ensures
            read matches Ok(next) ==> self@.fed(*cipher, *old(seq), bytes@) == Ok::<
                EncPacketReadState,
                DecryptError,
            >(next@),
            read matches Ok(next) ==> next@.wf(),
            read matches Err(e) ==> self@.fed(*cipher, *old(seq), bytes@) == Err::<
                EncPacketReadState,
                DecryptError,
            >(e),
            *final(seq) == (if self@ is Body && read is Ok {
                packet::next_sequence(*old(seq))
            } else {
                *old(seq)
            }),
    {
        match self {
            EncPacketRead::Header => {
                let announced: u32 = cipher.decrypt_length(*seq, &bytes);
                Ok(EncPacketRead::Body { header: bytes, announced })
            },
            EncPacketRead::Body { header, .. } => {
                match cipher.decrypt_payload(*seq, &header, &bytes) {
                    Ok(payload) => {
                        *seq = seq.wrapping_add(1);
                        Ok(EncPacketRead::Done { payload })
                    },
                    Err(e) => Err(e),
                }
            },
            EncPacketRead::Done { payload } => Ok(EncPacketRead::Done { payload }),
        }
    }
}

/// Reading gives back the payload that was sealed, under the same cipher and
/// sequence number, and leaves what follows the packet untouched.
pub proof fn law_read_gives_back_sealed(
    cipher: Cipher,
    seq: u32,
    packet: Seq<u8>,
    payload: Seq<u8>,
    rest: Seq<u8>,
)
    requires
        cipher.reads_as(seq, packet, payload),
        packet.len() - 20 < 0x1_0000_0000,
    ensures
        EncPacketReadState::Header.read_from(cipher, seq, packet + rest) == Some((payload, rest)),
{
    reveal_with_fuel(EncPacketReadState::read_from, 3);
    let stream = packet + rest;
    let body = packet.skip(4);
    assert(stream.take(4) =~= packet.take(4));
    assert(stream.skip(4).take(body.len() as int) =~= body);
    assert(stream.skip(4).skip(body.len() as int) =~= rest);
}

/// Packets one after the other.
pub open spec fn in_a_row(packets: Seq<Seq<u8>>) -> Seq<u8>
    decreases packets.len(),
{
    if packets.len() == 0 {
        Seq::<u8>::empty()
    } else {
        packets[0] + in_a_row(packets.drop_first())
    }
}

/// Whether each packet reads as the payload in its place, the first being packet
/// `seq` and the others following it.
pub open spec fn read_in_turn(
    cipher: Cipher,
    seq: u32,
    packets: Seq<Seq<u8>>,
    payloads: Seq<Seq<u8>>,
) -> bool
    decreases packets.len(),
{
    if packets.len() == 0 {
        payloads.len() == 0
    } else {
        &&& payloads.len() > 0
        &&& cipher.reads_as(seq, packets[0], payloads[0])
        &&& packets[0].len() - 20 < 0x1_0000_0000
        &&& read_in_turn(
            cipher,
            packet::next_sequence(seq),
            packets.drop_first(),
            payloads.drop_first(),
        )
    }
}

/// Reads `n` packets from a stream, the first being packet `seq`: their payloads,
/// and what is left of the stream.
pub open spec fn read_packets(cipher: Cipher, seq: u32, stream: Seq<u8>, n: nat) -> Option<
    (Seq<Seq<u8>>, Seq<u8>),
>
    decreases n,
{
    if n == 0 {
        Some((Seq::<Seq<u8>>::empty(), stream))
    } else {
        match EncPacketReadState::Header.read_from(cipher, seq, stream) {
            None => None,
            Some((payload, rest)) => match read_packets(
                cipher,
                packet::next_sequence(seq),
                rest,
                (n - 1) as nat,
            ) {
                None => None,
                Some((payloads, left)) => Some((seq![payload] + payloads, left)),
            },
        }
    }
}

/// Both ends count packets alike: a row of packets, each sealed under the next
/// sequence number, is read back packet by packet.
pub proof fn law_row_gives_back_payloads(
    cipher: Cipher,
    seq: u32,
    packets: Seq<Seq<u8>>,
    payloads: Seq<Seq<u8>>,
    rest: Seq<u8>,
)
    requires
        read_in_turn(cipher, seq, packets, payloads),
    ensures
        read_packets(cipher, seq, in_a_row(packets) + rest, packets.len()) == Some((payloads, rest)),
    decreases packets.len(),
{
    if packets.len() == 0 {
        assert(in_a_row(packets) + rest =~= rest);
        assert(payloads =~= Seq::<Seq<u8>>::empty());
    } else {
        let others = in_a_row(packets.drop_first()) + rest;
        assert(in_a_row(packets) + rest =~= packets[0] + others);
        law_read_gives_back_sealed(cipher, seq, packets[0], payloads[0], others);
        law_row_gives_back_payloads(
            cipher,
            packet::next_sequence(seq),
            packets.drop_first(),
            payloads.drop_first(),
            rest,
        );
        assert(seq![payloads[0]] + payloads.drop_first() =~= payloads);
    }
}

/// The construction and the key material determine a cipher: two ends that make
/// their ciphers from the same key material have the same cipher.
pub proof fn law_key_material_determines_cipher(one: Cipher, two: Cipher)
    requires
        one.kind() == two.kind(),
        one.key_material() == two.key_material(),
    ensures
        one == two,
{
    match (one, two) {
        (
            Cipher::ChaCha20Poly1305 { main_key: m1, header_key: h1 },
            Cipher::ChaCha20Poly1305 { main_key: m2, header_key: h2 },
        ) => {
            assert(m1@ =~= (m1@ + h1@).take(32) && m2@ =~= (m2@ + h2@).take(32));
            assert(h1@ =~= (m1@ + h1@).skip(32) && h2@ =~= (m2@ + h2@).skip(32));
            assert(m1 =~= m2 && h1 =~= h2);
        },
        (Cipher::Aes128Gcm { key: k1, iv: v1 }, Cipher::Aes128Gcm { key: k2, iv: v2 }) => {
            assert(k1@ =~= (k1@ + v1@).take(16) && k2@ =~= (k2@ + v2@).take(16));
            assert(v1@ =~= (k1@ + v1@).skip(16) && v2@ =~= (k2@ + v2@).skip(16));
            assert(k1 =~= k2 && v1 =~= v2);
        },
        (Cipher::Aes256Gcm { key: k1, iv: v1 }, Cipher::Aes256Gcm { key: k2, iv: v2 }) => {
            assert(k1@ =~= (k1@ + v1@).take(32) && k2@ =~= (k2@ + v2@).take(32));
            assert(v1@ =~= (k1@ + v1@).skip(32) && v2@ =~= (k2@ + v2@).skip(32));
            assert(k1 =~= k2 && v1 =~= v2);
        },
        _ => {},
    }
}

} // verus!

//! Packet types, frames and the payload union.
use vstd::prelude::*;

pub mod assign;
pub mod encrypt;
pub mod handshake;
pub mod header;
pub mod message;

use crate::packet::assign::{AssignPacket, AssignRequestPacket, NameRequestPacket, NameResponsePacket};
use crate::packet::handshake::{HandshakePacket, WrapMode};
use crate::packet::header::{Header, header_bytes, header_len, header_type, lemma_header_round_trip};
use crate::packet::message::MessagePacket;

verus! {

/// The kind of payload a frame carries, written as the first header byte.
#[derive(Copy, Clone, Debug, PartialEq, Eq, Structural)]
pub enum PacketType {
    NameAssign,
    Message,
    Handshake,
    NameAssignRequest,
    NameRequest,
    NameResponse,
}

/// Bytes with a fixed meaning on the wire.
#[derive(Copy, Clone, Debug, PartialEq, Eq, Structural)]
pub enum PacketSymbols {
    Eom,
}

/// Number of bytes in every frame header.
pub const HEADER_SIZE: usize = 8;

/// Largest body length that the header's 16-bit length field can record.
pub const MAX_BODY_LEN: usize = 65535;

/// Errors in the framing of a byte sequence.
#[derive(Copy, Clone, Debug, PartialEq, Eq, Structural)]
pub enum FramingError {
    /// The type byte is none of the six known codes.
    UnknownType(u8),
    /// A body longer than the 16-bit length field can record.
    BodyTooLong(usize),
    /// Fewer bytes than a header needs.
    ShortHeader(usize),
    /// A length field (first) that differs from the body's length (second).
    LengthMismatch(usize, usize),
}

/// The wire code of each packet type.
pub open spec fn type_code(t: PacketType) -> u8 {
    match t {
        PacketType::NameAssign => 0xF0u8,
        PacketType::Message => 0xF1u8,
        PacketType::Handshake => 0xF2u8,
        PacketType::NameAssignRequest => 0xF3u8,
        PacketType::NameRequest => 0xF4u8,
        PacketType::NameResponse => 0xF5u8,
    }
}

/// Whether a byte is the code of some packet type.
pub open spec fn is_type_code(b: u8) -> bool {
    0xF0 <= b && b <= 0xF5
}

/// The packet type a known code stands for.
pub open spec fn type_of_code(b: u8) -> PacketType
    recommends
        is_type_code(b),
{
    if b == 0xF0 {
        PacketType::NameAssign
    } else if b == 0xF1 {
        PacketType::Message
    } else if b == 0xF2 {
        PacketType::Handshake
    } else if b == 0xF3 {
        PacketType::NameAssignRequest
    } else if b == 0xF4 {
        PacketType::NameRequest
    } else {
        PacketType::NameResponse
    }
}

/// Each type's code is a known code that decodes back to that type, and each
/// known code is the code of the type it decodes to.
pub proof fn lemma_type_code_round_trip(t: PacketType, b: u8)
    ensures
        is_type_code(type_code(t)),
        type_of_code(type_code(t)) == t,
        is_type_code(b) ==> type_code(type_of_code(b)) == b,
{
}

impl PacketType {
    /// The byte written for this type.
    pub fn to_byte(self) -> (r: u8)
        ensures
            r == type_code(self),
    {
        match self {
            PacketType::NameAssign => 0xF0,
            PacketType::Message => 0xF1,
            PacketType::Handshake => 0xF2,
            PacketType::NameAssignRequest => 0xF3,
            PacketType::NameRequest => 0xF4,
            PacketType::NameResponse => 0xF5,
        }
    }

    /// Reads a type byte; an unknown code is an error.
    pub fn try_from_byte(value: u8) -> (r: Result<PacketType, FramingError>)
        ensures
            is_type_code(value) ==> r == Ok::<PacketType, FramingError>(type_of_code(value)),
            !is_type_code(value) ==> r == Err::<PacketType, FramingError>(
                FramingError::UnknownType(value),
            ),
    {
        match value {
            0xF0 => Ok(PacketType::NameAssign),
            0xF1 => Ok(PacketType::Message),
            0xF2 => Ok(PacketType::Handshake),
            0xF3 => Ok(PacketType::NameAssignRequest),
            0xF4 => Ok(PacketType::NameRequest),
            0xF5 => Ok(PacketType::NameResponse),
            _ => Err(FramingError::UnknownType(value)),
        }
    }
}

impl PacketSymbols {
    /// The byte written for this symbol.
    pub fn to_byte(self) -> (r: u8)
        ensures
            r == 0x04u8,
    {
        0x04
    }
}

/// A frame split into its header and its body.
#[derive(Debug)]
pub struct Packet {
    pub header: Vec<u8>,
    pub data: Vec<u8>,
}

/// The payload of a frame: one variant per packet type.
#[derive(Clone, Debug, PartialEq, Eq)]
pub enum ProcessedPacket {
    Assign(AssignPacket),
    Message(MessagePacket),
    Handshake(HandshakePacket),
    AssignRequest(AssignRequestPacket),
    NameRequest(NameRequestPacket),
    NameResponse(NameResponsePacket),
}

/// A frame whose payload cannot be accepted.
#[derive(Copy, Clone, Debug, PartialEq, Eq, Structural)]
pub enum ProtocolError {
    /// The header is short, its tag is unknown, the body does not parse, or
    /// the body's variant differs from the tag.
    Malformed,
}

/// The packet type of a payload's variant.
pub open spec fn packet_type_of(p: ProcessedPacket) -> PacketType {
    match p {
        ProcessedPacket::Assign(_) => PacketType::NameAssign,
        ProcessedPacket::Message(_) => PacketType::Message,
        ProcessedPacket::Handshake(_) => PacketType::Handshake,
        ProcessedPacket::AssignRequest(_) => PacketType::NameAssignRequest,
        ProcessedPacket::NameRequest(_) => PacketType::NameRequest,
        ProcessedPacket::NameResponse(_) => PacketType::NameResponse,
    }
}

/// Whether a header and the payload parsed from its body agree: the header is
/// whole, the body parsed, and the tag names the payload's variant.
pub open spec fn payload_matches(header: Seq<u8>, parsed: Option<ProcessedPacket>) -> bool {
    &&& header.len() >= HEADER_SIZE
    &&& parsed is Some
    &&& header_type(header) == Ok::<PacketType, FramingError>(packet_type_of(parsed->0))
}

/// Block size of the session cipher.
pub const AES_BLOCK: usize = 16;

/// The padding byte appended to a body before session encryption.
pub const PAD_BYTE: u8 = 0x20;

/// How many padding bytes bring a length of `n` to a block boundary.
pub open spec fn pad_len(n: nat) -> nat {
    ((AES_BLOCK as int - (n % (AES_BLOCK as nat)) as int) % (AES_BLOCK as int)) as nat
}

/// `n` padding bytes.
pub open spec fn padding(n: nat) -> Seq<u8> {
    Seq::new(n, |i: int| PAD_BYTE)
}

/// The frame written for a packet type and a serialized body: the header
/// records the padded length, and the body is followed by its padding.
pub open spec fn frame_of(t: PacketType, body: Seq<u8>) -> Seq<u8> {
    header_bytes(t, body.len() + pad_len(body.len())) + body + padding(pad_len(body.len()))
}

/// The frame written for a body in a wrapping mode: padded to whole blocks
/// for the session cipher, as it is for RSA.
pub open spec fn frame_for(mode: WrapMode, t: PacketType, body: Seq<u8>) -> Seq<u8> {
    match mode {
        WrapMode::Aes => frame_of(t, body),
        WrapMode::Rsa => header_bytes(t, body.len()) + body,
    }
}

/// The body length that a wrapping mode writes for a body of `n` bytes.
pub open spec fn framed_len(mode: WrapMode, n: nat) -> nat {
    match mode {
        WrapMode::Aes => n + pad_len(n),
        WrapMode::Rsa => n,
    }
}

/// A frame written for a type and a body reads back as that type; its length
/// field counts exactly the bytes after the header; those bytes are the body
/// followed by spaces up to a whole number of cipher blocks; and a payload
/// parsed from them is accepted exactly when its variant is that type.
pub proof fn lemma_frame_round_trip(t: PacketType, body: Seq<u8>, parsed: ProcessedPacket)
    requires
        body.len() + pad_len(body.len()) <= MAX_BODY_LEN,
    ensures
        ({
            let f = frame_of(t, body);
            let h = f.subrange(0, HEADER_SIZE as int);
            &&& f.len() >= HEADER_SIZE
            &&& header_type(h) == Ok::<PacketType, FramingError>(t)
            &&& header_len(h) == f.len() - HEADER_SIZE
            &&& f.subrange(HEADER_SIZE as int, f.len() as int) == body + padding(pad_len(body.len()))
            &&& (f.len() - HEADER_SIZE) % (AES_BLOCK as int) == 0
            &&& payload_matches(h, Some(parsed)) == (packet_type_of(parsed) == t)
        }),
{
    let n = body.len() + pad_len(body.len());
    lemma_header_round_trip(t, n);
    let f = frame_of(t, body);
    let hb = header_bytes(t, n);
    assert(f.subrange(0, HEADER_SIZE as int) =~= hb);
    assert(f.subrange(HEADER_SIZE as int, f.len() as int) =~= body + padding(pad_len(body.len())));
    assert((body.len() + pad_len(body.len())) % 16 == 0);
    lemma_type_code_round_trip(t, 0);
    if packet_type_of(parsed) != t {
        assert(Ok::<PacketType, FramingError>(t) != Ok::<PacketType, FramingError>(packet_type_of(parsed)));
    }
}

/// The bytes of `v` from `from` up to `to`.
pub fn copy_bytes(v: &Vec<u8>, from: usize, to: usize) -> (r: Vec<u8>)
    requires
        from <= to <= v@.len(),
    ensures
        r@ == v@.subrange(from as int, to as int),
{
    let mut r: Vec<u8> = Vec::new();
    let mut i: usize = from;
    while i < to
        invariant
            from <= i <= to <= v@.len(),
            r@ == v@.subrange(from as int, i as int),
        decreases to - i,
    {
        r.push(v[i]);
        i = i + 1;
    }
    r
}

/// Whether a frame holds a whole header whose length field counts exactly the
/// bytes after it.
pub open spec fn length_field_matches(frame: Seq<u8>) -> bool {
    frame.len() >= HEADER_SIZE && header_len(frame) == frame.len() - HEADER_SIZE
}

/// Checks a received frame: a whole header of a known type whose length field
/// counts exactly the bytes after it. Gives the frame's packet type.
pub fn check_frame(frame: &Vec<u8>) -> (r: Result<PacketType, FramingError>)
    ensures
        frame@.len() < HEADER_SIZE ==> r == Err::<PacketType, FramingError>(
            FramingError::ShortHeader(frame@.len() as usize),
        ),
        frame@.len() >= HEADER_SIZE && !is_type_code(frame@[0]) ==> r == Err::<
            PacketType,
            FramingError,
        >(FramingError::UnknownType(frame@[0])),
        frame@.len() >= HEADER_SIZE && is_type_code(frame@[0]) && header_len(frame@) != frame@.len()
            - HEADER_SIZE ==> r == Err::<PacketType, FramingError>(
            FramingError::LengthMismatch(
                header_len(frame@) as usize,
                (frame@.len() - HEADER_SIZE) as usize,
            ),
        ),
        frame@.len() >= HEADER_SIZE && is_type_code(frame@[0]) && header_len(frame@) == frame@.len()
            - HEADER_SIZE ==> r == Ok::<PacketType, FramingError>(type_of_code(frame@[0])),
{
    if frame.len() < HEADER_SIZE {
        return Err(FramingError::ShortHeader(frame.len()));
    }
    let t = match frame.get_type() {
        Ok(t) => t,
        Err(e) => return Err(e),
    };
    let declared = frame.get_data_length();
    let actual = frame.len() - HEADER_SIZE;
    if declared != actual {
        return Err(FramingError::LengthMismatch(declared, actual));
    }
    Ok(t)
}

impl Packet {
    /// Splits a received frame into header and body, leaving `bytes` empty. A
    /// frame shorter than a header, or whose length field differs from the
    /// number of bytes after the header, is refused and `bytes` is left as it
    /// was.
    pub fn from_bytes(bytes: &mut Vec<u8>) -> (r: Result<Packet, FramingError>)
        ensures
            old(bytes)@.len() < HEADER_SIZE ==> r == Err::<Packet, FramingError>(
                FramingError::ShortHeader(old(bytes)@.len() as usize),
            ),
            old(bytes)@.len() >= HEADER_SIZE && header_len(old(bytes)@) != old(bytes)@.len()
                - HEADER_SIZE ==> r == Err::<Packet, FramingError>(
                FramingError::LengthMismatch(
                    header_len(old(bytes)@) as usize,
                    (old(bytes)@.len() - HEADER_SIZE) as usize,
                ),
            ),
            r is Err ==> final(bytes)@ == old(bytes)@,
            length_field_matches(old(bytes)@) ==> (r matches Ok(p) && p.header@ == old(bytes)@.subrange(
                0,
                HEADER_SIZE as int,
            ) && p.data@ == old(bytes)@.subrange(HEADER_SIZE as int, old(bytes)@.len() as int)
                && final(bytes)@.len() == 0),
            r matches Ok(p) ==> header_len(p.header@) == p.data@.len(),
    {
        if bytes.len() < HEADER_SIZE {
            return Err(FramingError::ShortHeader(bytes.len()));
        }
        let declared = bytes.get_data_length();
        let actual = bytes.len() - HEADER_SIZE;
        if declared != actual {
            return Err(FramingError::LengthMismatch(declared, actual));
        }
        let header = copy_bytes(bytes, 0, HEADER_SIZE);
        let data = copy_bytes(bytes, HEADER_SIZE, bytes.len());
        proof {
            assert(header@[1] == bytes@[1] && header@[2] == bytes@[2]);
        }
        *bytes = Vec::new();
        Ok(Packet { header, data })
    }

    /// Accepts the payload parsed from this packet's body (`None` when the
    /// body did not parse) only where the header's tag names its variant.
    pub fn process(&self, parsed: Option<ProcessedPacket>) -> (r: Result<ProcessedPacket, ProtocolError>)
        ensures
            payload_matches(self.header@, parsed) ==> r == Ok::<ProcessedPacket, ProtocolError>(
                parsed->0,
            ),
            !payload_matches(self.header@, parsed) ==> r == Err::<ProcessedPacket, ProtocolError>(
                ProtocolError::Malformed,
            ),
    {
        if self.header.len() < HEADER_SIZE {
            return Err(ProtocolError::Malformed);
        }
        match parsed {
            None => Err(ProtocolError::Malformed),
            Some(p) => match self.header.get_type() {
                Ok(t) => {
                    if p.packet_type() == t {
                        Ok(p)
                    } else {
                        Err(ProtocolError::Malformed)
                    }
                },
                Err(_) => Err(ProtocolError::Malformed),
            },
        }
    }
}

impl ProcessedPacket {
    /// The packet type of this payload's variant.
    pub fn packet_type(&self) -> (r: PacketType)
        ensures
            r == packet_type_of(*self),
    {
        match self {
            ProcessedPacket::Assign(_) => PacketType::NameAssign,
            ProcessedPacket::Message(_) => PacketType::Message,
            ProcessedPacket::Handshake(_) => PacketType::Handshake,
            ProcessedPacket::AssignRequest(_) => PacketType::NameAssignRequest,
            ProcessedPacket::NameRequest(_) => PacketType::NameRequest,
            ProcessedPacket::NameResponse(_) => PacketType::NameResponse,
        }
    }

    /// Whether this payload is of the given type.
    pub fn is_type(&self, t: PacketType) -> (r: bool)
        ensures
            r == (packet_type_of(*self) == t),
    {
        self.packet_type() == t
    }

    /// A header with this payload's type byte and every other byte zero.
    pub fn get_header(&self) -> (r: [u8; 8])
        ensures
            r@ == header_bytes(packet_type_of(*self), 0),
    {
        let mut header = [0u8; 8];
        header[0] = self.packet_type().to_byte();
        proof {
            assert(header@ =~= header_bytes(packet_type_of(*self), 0));
        }
        header
    }

    /// The header of `get_header` as a growable buffer.
    pub fn start_packet(&self) -> (r: Vec<u8>)
        ensures
            r@ == header_bytes(packet_type_of(*self), 0),
    {
        let header = self.get_header();
        let mut v: Vec<u8> = Vec::new();
        let mut i: usize = 0;
        while i < HEADER_SIZE
            invariant
                i <= HEADER_SIZE,
                header@.len() == HEADER_SIZE,
                v@ == header@.subrange(0, i as int),
            decreases HEADER_SIZE - i,
        {
            v.push(header[i]);
            i = i + 1;
        }
        proof {
            assert(v@ =~= header@);
        }
        v
    }

    /// The frame for this payload whose serialized form is `body`: the body is
    /// padded with spaces to a block boundary and the header records the
    /// padded length. A padded body longer than the length field allows is
    /// refused.
    pub fn new_raw(packet: &ProcessedPacket, body: Vec<u8>) -> (r: Result<Vec<u8>, FramingError>)
        ensures
            body@.len() + pad_len(body@.len()) <= MAX_BODY_LEN ==> (r matches Ok(f) && f@ == frame_of(
                packet_type_of(*packet),
                body@,
            )),
            body@.len() + pad_len(body@.len()) > MAX_BODY_LEN ==> r == Err::<Vec<u8>, FramingError>(
                FramingError::BodyTooLong(body@.len() as usize),
            ),
    {
        let n = body.len();
        if n > MAX_BODY_LEN || n + (AES_BLOCK - n % AES_BLOCK) % AES_BLOCK > MAX_BODY_LEN {
            return Err(FramingError::BodyTooLong(n));
        }
        let mut header = packet.start_packet();
        let mut body = body;
        let ghost orig = body@;
        while body.len() % AES_BLOCK != 0
            invariant
                n == orig.len(),
                n <= body@.len() <= n + pad_len(n as nat),
                n + pad_len(n as nat) <= MAX_BODY_LEN,
                body@ == orig + padding((body@.len() - n) as nat),
            decreases n + pad_len(n as nat) - body@.len(),
        {
            body.push(PAD_BYTE);
            proof {
                assert(body@ =~= orig + padding((body@.len() - n) as nat));
            }
        }
        header.set_data_length(body.len());
        proof {
            assert(body@.len() == n + pad_len(n as nat));
            assert(header@ =~= header_bytes(packet_type_of(*packet), body@.len() as nat));
        }
        header.append(&mut body);
        proof {
            assert(header@ =~= frame_of(packet_type_of(*packet), orig));
        }
        Ok(header)
    }

    /// The frame for this payload whose serialized form is `body`, for the
    /// given wrapping mode: padded with spaces to a block boundary for the
    /// session cipher, unpadded for RSA. The header records the written body
    /// length; a body longer than the length field allows is refused.
    pub fn new_raw_for(packet: &ProcessedPacket, body: Vec<u8>, mode: WrapMode) -> (r: Result<
        Vec<u8>,
        FramingError,
    >)
        ensures
            framed_len(mode, body@.len()) <= MAX_BODY_LEN ==> (r matches Ok(f) && f@ == frame_for(
                mode,
                packet_type_of(*packet),
                body@,
            )),
            framed_len(mode, body@.len()) > MAX_BODY_LEN ==> r == Err::<Vec<u8>, FramingError>(
                FramingError::BodyTooLong(body@.len() as usize),
            ),
    {
        match mode {
            WrapMode::Aes => ProcessedPacket::new_raw(packet, body),
            WrapMode::Rsa => {
                if body.len() > MAX_BODY_LEN {
                    return Err(FramingError::BodyTooLong(body.len()));
                }
                let mut header = packet.start_packet();
                header.set_data_length(body.len());
                let mut body = body;
                let ghost b = body@;
                proof {
                    assert(header@ =~= header_bytes(packet_type_of(*packet), b.len()));
                }
                header.append(&mut body);
                Ok(header)
            },
        }
    }
}
} // verus!

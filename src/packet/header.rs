//! The eight-byte frame header: a type byte, a big-endian 16-bit body length
//! and five reserved zero bytes.
use vstd::prelude::*;
use crate::packet::{
    FramingError, PacketType, HEADER_SIZE, MAX_BODY_LEN, type_code, is_type_code, type_of_code,
    lemma_type_code_round_trip,
};

verus! {

/// The value of a big-endian pair of bytes.
pub open spec fn be16(hi: u8, lo: u8) -> nat {
    hi as nat * 256 + lo as nat
}

/// The body length that a header records.
pub open spec fn header_len(h: Seq<u8>) -> nat
    recommends
        h.len() >= HEADER_SIZE,
{
    be16(h[1], h[2])
}

/// What reading the type byte of a header gives.
pub open spec fn header_type(h: Seq<u8>) -> Result<PacketType, FramingError>
    recommends
        h.len() >= 1,
{
    if is_type_code(h[0]) {
        Ok(type_of_code(h[0]))
    } else {
        Err(FramingError::UnknownType(h[0]))
    }
}

/// The header written for a packet type and a body length that fits in 16 bits.
pub open spec fn header_bytes(t: PacketType, len: nat) -> Seq<u8>
    recommends
        len <= MAX_BODY_LEN,
{
    seq![type_code(t), (len / 256) as u8, (len % 256) as u8, 0u8, 0u8, 0u8, 0u8, 0u8]
}

/// A header written for a type and length reads back as that type and length.
pub proof fn lemma_header_round_trip(t: PacketType, len: nat)
    requires
        len <= MAX_BODY_LEN,
    ensures
        header_bytes(t, len).len() == HEADER_SIZE,
        header_type(header_bytes(t, len)) == Ok::<PacketType, FramingError>(t),
        header_len(header_bytes(t, len)) == len,
{
    let h = header_bytes(t, len);
    assert(h[0] == type_code(t));
    assert(h[1] == (len / 256) as u8);
    assert(h[2] == (len % 256) as u8);
}

/// A type byte that was written reads back as the type written, whatever the
/// rest of the buffer holds.
pub proof fn lemma_set_type_then_get_type(h: Seq<u8>, t: PacketType)
    requires
        h.len() >= 1,
    ensures
        header_type(h.update(0, type_code(t))) == Ok::<PacketType, FramingError>(t),
{
    lemma_type_code_round_trip(t, 0);
}

/// Reading and writing the fields of a header held in a byte buffer.
pub trait Header {
    /// The bytes of the buffer.
    spec fn header_view(&self) -> Seq<u8>;

    /// The packet type of the first byte.
    fn get_type(&self) -> (r: Result<PacketType, FramingError>)
        requires
            self.header_view().len() >= 1,
        ensures
            r == header_type(self.header_view()),
    ;

    /// The body length recorded in bytes one and two.
    fn get_data_length(&self) -> (r: usize)
        requires
            self.header_view().len() >= HEADER_SIZE,
        ensures
            r as nat == header_len(self.header_view()),
    ;

    /// Writes the type byte and leaves the other bytes as they were.
    fn set_type(&mut self, packet_type: PacketType)
        requires
            old(self).header_view().len() >= 1,
        ensures
            final(self).header_view() == old(self).header_view().update(0, type_code(packet_type)),
    ;

    /// Records a body length and leaves the other bytes as they were.
    fn set_data_length(&mut self, len: usize)
        requires
            old(self).header_view().len() >= HEADER_SIZE,
            len <= MAX_BODY_LEN,
        ensures
            final(self).header_view() == old(self).header_view().update(1, (len / 256) as u8).update(
                2,
                (len % 256) as u8,
            ),
            header_len(final(self).header_view()) == len,
    ;
}

impl Header for Vec<u8> {
    open spec fn header_view(&self) -> Seq<u8> {
        self@
    }

    fn get_type(&self) -> (r: Result<PacketType, FramingError>) {
        PacketType::try_from_byte(self[0])
    }

    fn get_data_length(&self) -> (r: usize) {
        (self[1] as usize) * 256 + self[2] as usize
    }

    fn set_type(&mut self, packet_type: PacketType) {
        self.set(0, packet_type.to_byte());
    }

    fn set_data_length(&mut self, len: usize) {
        self.set(1, (len / 256) as u8);
        self.set(2, (len % 256) as u8);
    }
}

/// Builds the header for a body of `body_len` bytes; a length over 16 bits is
/// refused.
pub fn encode_header(packet_type: PacketType, body_len: usize) -> (r: Result<Vec<u8>, FramingError>)
    ensures
        body_len <= MAX_BODY_LEN ==> (r matches Ok(h) && h@ == header_bytes(packet_type, body_len as nat)),
        body_len > MAX_BODY_LEN ==> r == Err::<Vec<u8>, FramingError>(FramingError::BodyTooLong(body_len)),
{
    if body_len > MAX_BODY_LEN {
        return Err(FramingError::BodyTooLong(body_len));
    }
    let mut h: Vec<u8> = vec![0u8; HEADER_SIZE];
    h.set_type(packet_type);
    h.set_data_length(body_len);
    proof {
        assert(h@ =~= header_bytes(packet_type, body_len as nat));
    }
    Ok(h)
}

/// The packet type of a header; too short a header or an unknown code is an error.
pub fn decode_type(header: &Vec<u8>) -> (r: Result<PacketType, FramingError>)
    ensures
        header@.len() < HEADER_SIZE ==> r == Err::<PacketType, FramingError>(
            FramingError::ShortHeader(header@.len() as usize),
        ),
        header@.len() >= HEADER_SIZE ==> r == header_type(header@),
{
    if header.len() < HEADER_SIZE {
        return Err(FramingError::ShortHeader(header.len()));
    }
    header.get_type()
}

/// The body length a header records; too short a header is an error.
pub fn decode_len(header: &Vec<u8>) -> (r: Result<u16, FramingError>)
    ensures
        header@.len() < HEADER_SIZE ==> r == Err::<u16, FramingError>(
            FramingError::ShortHeader(header@.len() as usize),
        ),
        header@.len() >= HEADER_SIZE ==> (r matches Ok(n) && n as nat == header_len(header@)),
{
    if header.len() < HEADER_SIZE {
        return Err(FramingError::ShortHeader(header.len()));
    }
    Ok(header.get_data_length() as u16)
}

} // verus!

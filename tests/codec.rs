use secure_link::packet::assign::{AssignPacket, NameResponse, NameResponsePacket};
use secure_link::packet::encrypt::{check_session_ciphertext, seal_body, seal_session_body, CryptoError};
use secure_link::packet::header::{decode_len, decode_type, encode_header, Header};
use secure_link::packet::handshake::WrapMode;
use secure_link::packet::message::MessagePacket;
use secure_link::packet::{FramingError, Packet, PacketSymbols, PacketType, ProcessedPacket, ProtocolError};
use secure_link::user::User;

fn message() -> ProcessedPacket {
    ProcessedPacket::Message(MessagePacket { receiver: "bob".to_string(), content: vec![1, 2, 3] })
}

const ALL: [PacketType; 6] = [
    PacketType::NameAssign,
    PacketType::Message,
    PacketType::Handshake,
    PacketType::NameAssignRequest,
    PacketType::NameRequest,
    PacketType::NameResponse,
];

#[test]
fn type_codes_round_trip() {
    let codes = [0xF0u8, 0xF1, 0xF2, 0xF3, 0xF4, 0xF5];
    for (t, c) in ALL.iter().zip(codes.iter()) {
        assert_eq!(t.to_byte(), *c);
        assert_eq!(PacketType::try_from_byte(*c), Ok(*t));
    }
}

#[test]
fn unknown_type_codes_are_refused() {
    for b in [0x00u8, 0x04, 0xEF, 0xF6, 0xFF] {
        assert_eq!(PacketType::try_from_byte(b), Err(FramingError::UnknownType(b)));
    }
    let h = vec![0xF6u8, 0, 0, 0, 0, 0, 0, 0];
    assert_eq!(decode_type(&h), Err(FramingError::UnknownType(0xF6)));
}

#[test]
fn end_of_message_symbol() {
    assert_eq!(PacketSymbols::Eom.to_byte(), 0x04);
}

#[test]
fn header_encodes_type_and_big_endian_length() {
    let h = encode_header(PacketType::Message, 300).unwrap();
    assert_eq!(h, vec![0xF1, 0x01, 0x2C, 0, 0, 0, 0, 0]);
    assert_eq!(decode_type(&h), Ok(PacketType::Message));
    assert_eq!(decode_len(&h), Ok(300));
    let top = encode_header(PacketType::NameResponse, 65535).unwrap();
    assert_eq!(top, vec![0xF5, 0xFF, 0xFF, 0, 0, 0, 0, 0]);
    assert_eq!(decode_len(&top), Ok(65535));
}

#[test]
fn header_refuses_long_bodies_and_short_input() {
    assert_eq!(encode_header(PacketType::Message, 65536), Err(FramingError::BodyTooLong(65536)));
    assert_eq!(decode_type(&vec![0xF1, 0, 0]), Err(FramingError::ShortHeader(3)));
    assert_eq!(decode_len(&vec![]), Err(FramingError::ShortHeader(0)));
}

#[test]
fn header_trait_on_byte_buffers() {
    let mut h = vec![9u8; 8];
    h.set_type(PacketType::Handshake);
    h.set_data_length(0x1234);
    assert_eq!(h, vec![0xF2, 0x12, 0x34, 9, 9, 9, 9, 9]);
    assert_eq!(h.get_type(), Ok(PacketType::Handshake));
    assert_eq!(h.get_data_length(), 0x1234);
}

#[test]
fn start_of_frame_holds_only_the_type() {
    let p = ProcessedPacket::NameResponse(NameResponsePacket { status: NameResponse::Success });
    assert_eq!(p.get_header(), [0xF5, 0, 0, 0, 0, 0, 0, 0]);
    assert_eq!(p.start_packet(), vec![0xF5, 0, 0, 0, 0, 0, 0, 0]);
    assert_eq!(p.packet_type(), PacketType::NameResponse);
    assert!(p.is_type(PacketType::NameResponse));
    assert!(!p.is_type(PacketType::Message));
}

#[test]
fn frame_pads_body_to_block_boundary() {
    let body = b"hello".to_vec();
    let f = ProcessedPacket::new_raw(&message(), body).unwrap();
    assert_eq!(f.len(), 8 + 16);
    assert_eq!(&f[..8], &[0xF1, 0, 16, 0, 0, 0, 0, 0]);
    assert_eq!(&f[8..13], b"hello");
    assert!(f[13..].iter().all(|b| *b == b' '));
    let h = f[..8].to_vec();
    assert_eq!(h.get_data_length(), f.len() - 8);
}

#[test]
fn frame_of_whole_blocks_gets_no_padding() {
    let body = vec![7u8; 32];
    let f = ProcessedPacket::new_raw(&message(), body.clone()).unwrap();
    assert_eq!(f.len(), 40);
    assert_eq!(&f[8..], &body[..]);
    let empty = ProcessedPacket::new_raw(&message(), vec![]).unwrap();
    assert_eq!(empty, vec![0xF1, 0, 0, 0, 0, 0, 0, 0]);
}

#[test]
fn frame_refuses_bodies_over_the_length_field() {
    let ok = ProcessedPacket::new_raw(&message(), vec![0u8; 65520]).unwrap();
    assert_eq!(ok.len(), 8 + 65520);
    assert_eq!(
        ProcessedPacket::new_raw(&message(), vec![0u8; 65530]),
        Err(FramingError::BodyTooLong(65530))
    );
}

#[test]
fn from_bytes_splits_and_empties() {
    let mut bytes = vec![0xF0, 0, 2, 0, 0, 0, 0, 0, 42, 43];
    let p = Packet::from_bytes(&mut bytes).unwrap();
    assert_eq!(p.header, vec![0xF0, 0, 2, 0, 0, 0, 0, 0]);
    assert_eq!(p.data, vec![42, 43]);
    assert!(bytes.is_empty());
}

#[test]
fn from_bytes_refuses_length_mismatch_and_short_frames() {
    let mut long = vec![0xF0, 0, 2, 0, 0, 0, 0, 0, 42, 43, 44];
    assert_eq!(Packet::from_bytes(&mut long).unwrap_err(), FramingError::LengthMismatch(2, 3));
    assert_eq!(long.len(), 11);
    let mut cut = vec![0xF0, 1, 0, 0, 0, 0, 0, 0, 1];
    assert_eq!(Packet::from_bytes(&mut cut).unwrap_err(), FramingError::LengthMismatch(256, 1));
    let mut short = vec![0xF0, 0, 0];
    assert_eq!(Packet::from_bytes(&mut short).unwrap_err(), FramingError::ShortHeader(3));
    assert_eq!(short, vec![0xF0, 0, 0]);
}

#[test]
fn written_frames_split_back_into_header_and_body() {
    let mut f = ProcessedPacket::new_raw(&message(), b"abc".to_vec()).unwrap();
    let p = Packet::from_bytes(&mut f).unwrap();
    assert_eq!(p.header, vec![0xF1, 0, 16, 0, 0, 0, 0, 0]);
    assert_eq!(&p.data[..3], b"abc");
    assert_eq!(p.data.len(), 16);
}

#[test]
fn rsa_frames_are_not_padded() {
    let f = ProcessedPacket::new_raw_for(&message(), b"hello".to_vec(), WrapMode::Rsa).unwrap();
    assert_eq!(f, vec![0xF1, 0, 5, 0, 0, 0, 0, 0, b'h', b'e', b'l', b'l', b'o']);
    let a = ProcessedPacket::new_raw_for(&message(), b"hello".to_vec(), WrapMode::Aes).unwrap();
    assert_eq!(a.len(), 24);
    assert_eq!(a, ProcessedPacket::new_raw(&message(), b"hello".to_vec()).unwrap());
    let top = ProcessedPacket::new_raw_for(&message(), vec![1u8; 65535], WrapMode::Rsa).unwrap();
    assert_eq!(&top[..3], &[0xF1, 0xFF, 0xFF]);
    assert_eq!(
        ProcessedPacket::new_raw_for(&message(), vec![1u8; 65536], WrapMode::Rsa),
        Err(FramingError::BodyTooLong(65536))
    );
    assert_eq!(
        ProcessedPacket::new_raw_for(&message(), vec![1u8; 65530], WrapMode::Aes),
        Err(FramingError::BodyTooLong(65530))
    );
}

#[test]
fn type_byte_reads_from_a_one_byte_buffer() {
    let mut h = vec![0x00u8];
    assert_eq!(h.get_type(), Err(FramingError::UnknownType(0x00)));
    for t in ALL {
        h.set_type(t);
        assert_eq!(h.get_type(), Ok(t));
        assert_eq!(h.len(), 1);
    }
}

#[test]
fn process_accepts_only_the_tagged_variant() {
    let p = Packet { header: vec![0xF1, 0, 0, 0, 0, 0, 0, 0], data: vec![] };
    assert_eq!(p.process(Some(message())), Ok(message()));
    let assign = ProcessedPacket::Assign(AssignPacket { content: "x".to_string(), aes_key: vec![] });
    assert_eq!(p.process(Some(assign)), Err(ProtocolError::Malformed));
    assert_eq!(p.process(None), Err(ProtocolError::Malformed));
    let unknown = Packet { header: vec![0x10, 0, 0, 0, 0, 0, 0, 0], data: vec![] };
    assert_eq!(unknown.process(Some(message())), Err(ProtocolError::Malformed));
    let short = Packet { header: vec![0xF1], data: vec![] };
    assert_eq!(short.process(Some(message())), Err(ProtocolError::Malformed));
}

#[test]
fn sealing_rewrites_the_length_field() {
    let plain = ProcessedPacket::new_raw(&message(), b"abc".to_vec()).unwrap();
    let cipher = vec![5u8; 48];
    let sealed = seal_body(&plain, cipher.clone()).unwrap();
    assert_eq!(&sealed[..8], &[0xF1, 0, 48, 0, 0, 0, 0, 0]);
    assert_eq!(&sealed[8..], &cipher[..]);
    let rsa_sized = seal_body(&plain, vec![1u8; 21]).unwrap();
    assert_eq!(rsa_sized.len(), 29);
    assert_eq!(rsa_sized[2], 21);
    assert_eq!(seal_body(&vec![0xF1, 0], vec![]), Err(FramingError::ShortHeader(2)));
    assert_eq!(seal_body(&plain, vec![0u8; 65536]), Err(FramingError::BodyTooLong(65536)));
}

#[test]
fn session_bodies_are_whole_blocks() {
    let plain = ProcessedPacket::new_raw(&message(), b"abc".to_vec()).unwrap();
    let sealed = seal_session_body(&plain, vec![9u8; 32]).unwrap();
    assert_eq!((sealed.len() - 8) % 16, 0);
    assert_eq!(seal_session_body(&plain, vec![9u8; 33]), Err(CryptoError::Misaligned(33)));
    assert_eq!(
        seal_session_body(&vec![0xF1], vec![9u8; 16]),
        Err(CryptoError::Framing(FramingError::ShortHeader(1)))
    );
}

#[test]
fn corrupted_session_ciphertext_is_a_crypto_error() {
    assert_eq!(check_session_ciphertext(&vec![0u8; 32]), Ok(()));
    assert_eq!(check_session_ciphertext(&vec![0u8; 31]), Err(CryptoError::Misaligned(31)));
}

#[test]
fn user_display_text() {
    let both = User { id: Some("42".to_string()), name: Some("ann".to_string()) };
    assert_eq!(both.display_text(), "ann (42)");
    let id_only = User { id: Some("42".to_string()), name: None };
    assert_eq!(id_only.display_text(), "42");
    let none = User { id: None, name: Some("ann".to_string()) };
    assert_eq!(none.display_text(), "NO USER ID");
}

#[test]
fn received_frames_are_checked() {
    let f = ProcessedPacket::new_raw(&message(), b"abc".to_vec()).unwrap();
    assert_eq!(secure_link::packet::check_frame(&f), Ok(PacketType::Message));
    let mut cut = f.clone();
    cut.pop();
    assert_eq!(secure_link::packet::check_frame(&cut), Err(FramingError::LengthMismatch(16, 15)));
    let mut bad = f.clone();
    bad[0] = 0x33;
    assert_eq!(secure_link::packet::check_frame(&bad), Err(FramingError::UnknownType(0x33)));
    assert_eq!(secure_link::packet::check_frame(&vec![0xF1; 4]), Err(FramingError::ShortHeader(4)));
}

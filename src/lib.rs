//! A point-to-point messaging protocol: the frame header codec, the framing of
//! payload bodies with block padding, the handshake decisions and the
//! reassembly of frames from a non-blocking byte stream.
pub mod packet;
pub mod stream;
pub mod user;

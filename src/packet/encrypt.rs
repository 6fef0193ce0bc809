//! Framing of encrypted bodies: the cipher's output replaces a frame's body
//! and the header's length field is rewritten to the ciphertext's length.
use vstd::prelude::*;
use crate::packet::{copy_bytes, FramingError, AES_BLOCK, HEADER_SIZE, MAX_BODY_LEN};
use crate::packet::header::Header;

verus! {

/// Errors of the encryption layer.
#[derive(Copy, Clone, Debug, PartialEq, Eq, Structural)]
pub enum CryptoError {
    /// A session ciphertext whose length is not a whole number of blocks.
    Misaligned(usize),
    /// The cipher refused the input: wrong key or corrupt ciphertext.
    Rejected,
    /// The frame around the ciphertext could not be built.
    Framing(FramingError),
}

/// A header with its length field set to `len`.
pub open spec fn with_len(h: Seq<u8>, len: nat) -> Seq<u8> {
    h.update(1, (len / 256) as u8).update(2, (len % 256) as u8)
}

/// The frame with the header of `frame` and the body `body`.
pub open spec fn sealed_frame(frame: Seq<u8>, body: Seq<u8>) -> Seq<u8> {
    with_len(frame.subrange(0, HEADER_SIZE as int), body.len()) + body
}

/// Replaces the body of `frame` by `ciphertext` and records its length in the
/// header. A short frame or too long a ciphertext is refused.
pub fn seal_body(frame: &Vec<u8>, ciphertext: Vec<u8>) -> (r: Result<Vec<u8>, FramingError>)
    ensures
        frame@.len() < HEADER_SIZE ==> r == Err::<Vec<u8>, FramingError>(
            FramingError::ShortHeader(frame@.len() as usize),
        ),
        frame@.len() >= HEADER_SIZE && ciphertext@.len() > MAX_BODY_LEN ==> r == Err::<
            Vec<u8>,
            FramingError,
        >(FramingError::BodyTooLong(ciphertext@.len() as usize)),
        frame@.len() >= HEADER_SIZE && ciphertext@.len() <= MAX_BODY_LEN ==> (r matches Ok(f) && f@
            == sealed_frame(frame@, ciphertext@)),
{
    if frame.len() < HEADER_SIZE {
        return Err(FramingError::ShortHeader(frame.len()));
    }
    if ciphertext.len() > MAX_BODY_LEN {
        return Err(FramingError::BodyTooLong(ciphertext.len()));
    }
    let mut header = copy_bytes(frame, 0, HEADER_SIZE);
    header.set_data_length(ciphertext.len());
    let mut body = ciphertext;
    let ghost c = body@;
    header.append(&mut body);
    proof {
        assert(header@ =~= sealed_frame(frame@, c));
    }
    Ok(header)
}

/// Whether a session ciphertext is a whole number of cipher blocks.
pub fn check_session_ciphertext(body: &Vec<u8>) -> (r: Result<(), CryptoError>)
    ensures
        body@.len() % (AES_BLOCK as nat) == 0 ==> r is Ok,
        body@.len() % (AES_BLOCK as nat) != 0 ==> r == Err::<(), CryptoError>(
            CryptoError::Misaligned(body@.len() as usize),
        ),
{
    if body.len() % AES_BLOCK != 0 {
        Err(CryptoError::Misaligned(body.len()))
    } else {
        Ok(())
    }
}

/// Frames a session ciphertext: it must be a whole number of blocks, and the
/// result is `frame` with that body and its length in the header.
pub fn seal_session_body(frame: &Vec<u8>, ciphertext: Vec<u8>) -> (r: Result<Vec<u8>, CryptoError>)
    ensures
        ciphertext@.len() % (AES_BLOCK as nat) != 0 ==> r == Err::<Vec<u8>, CryptoError>(
            CryptoError::Misaligned(ciphertext@.len() as usize),
        ),
        ciphertext@.len() % (AES_BLOCK as nat) == 0 && frame@.len() < HEADER_SIZE ==> r == Err::<
            Vec<u8>,
            CryptoError,
        >(CryptoError::Framing(FramingError::ShortHeader(frame@.len() as usize))),
        ciphertext@.len() % (AES_BLOCK as nat) == 0 && frame@.len() >= HEADER_SIZE
            && ciphertext@.len() > MAX_BODY_LEN ==> r == Err::<Vec<u8>, CryptoError>(
            CryptoError::Framing(FramingError::BodyTooLong(ciphertext@.len() as usize)),
        ),
        ciphertext@.len() % (AES_BLOCK as nat) == 0 && frame@.len() >= HEADER_SIZE
            && ciphertext@.len() <= MAX_BODY_LEN ==> (r matches Ok(f) && f@ == sealed_frame(
            frame@,
            ciphertext@,
        )),
        r matches Ok(f) ==> (f@.len() - HEADER_SIZE) % (AES_BLOCK as int) == 0,
{
    match check_session_ciphertext(&ciphertext) {
        Err(e) => Err(e),
        Ok(()) => match seal_body(frame, ciphertext) {
            Ok(f) => Ok(f),
            Err(e) => Err(CryptoError::Framing(e)),
        },
    }
}

} // verus!

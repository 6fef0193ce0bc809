//! Name assignment and name lookup payloads.
use vstd::prelude::*;

verus! {

/// Asks for a name, carrying the RSA public key (exponent and modulus) that the
/// reply is encrypted with.
#[derive(Clone, Debug, PartialEq, Eq)]
pub struct AssignRequestPacket {
    pub e: Vec<u8>,
    pub n: Vec<u8>,
}

/// Hands out a name together with a session key.
#[derive(Clone, Debug, PartialEq, Eq)]
pub struct AssignPacket {
    pub content: String,
    pub aes_key: Vec<u8>,
}

/// Asks the directory about a name.
#[derive(Clone, Debug, PartialEq, Eq)]
pub struct NameRequestPacket {
    pub sender: String,
    pub content: String,
}

/// The directory's answer to a name request.
#[derive(Clone, Debug, PartialEq, Eq)]
pub struct NameResponsePacket {
    pub status: NameResponse,
}

/// Success, or failure with a reason.
#[derive(Clone, Debug, PartialEq, Eq)]
pub enum NameResponse {
    Success,
    Failure(String),
}

} // verus!

//! The handshake payload and the responder's and initiator's decisions.
use vstd::prelude::*;
use crate::packet::copy_bytes;
use crate::user::User;

verus! {

/// A handshake frame's payload: a status, the initiator's RSA public key
/// (exponent `e`, modulus `n`), a sealed session key, and the two parties.
#[derive(Clone, Debug, PartialEq, Eq)]
pub struct HandshakePacket {
    pub status: HandshakeStatus,
    pub e: Vec<u8>,
    pub n: Vec<u8>,
    pub aes_key: Vec<u8>,
    pub src: User,
    pub dst: String,
}

/// The state of a handshake: a request, or one of four outcomes.
#[derive(Copy, Clone, Debug, PartialEq, Eq, Structural)]
pub enum HandshakeStatus {
    Request,
    Accept,
    Deny,
    NotFound,
    ServerError,
}

/// What resolving the destination of a request gave.
#[derive(Copy, Clone, Debug, PartialEq, Eq, Structural)]
pub enum DestinationLookup {
    /// No such name.
    Absent,
    /// The destination was reached and declined.
    Declined,
    /// The destination was reached and accepted.
    Accepted,
    /// The directory failed.
    Failed,
}

/// Why a packet cannot be answered as a handshake request.
#[derive(Copy, Clone, Debug, PartialEq, Eq, Structural)]
pub enum HandshakeError {
    /// The packet's status is not `Request`.
    NotARequest(HandshakeStatus),
}

/// The status the responder replies with for a lookup outcome.
pub open spec fn reply_status(lookup: DestinationLookup) -> HandshakeStatus {
    match lookup {
        DestinationLookup::Absent => HandshakeStatus::NotFound,
        DestinationLookup::Declined => HandshakeStatus::Deny,
        DestinationLookup::Accepted => HandshakeStatus::Accept,
        DestinationLookup::Failed => HandshakeStatus::ServerError,
    }
}

impl HandshakeStatus {
    /// Whether the handshake phase is over in this status.
    pub fn is_terminal(self) -> (r: bool)
        ensures
            r == (self != HandshakeStatus::Request),
    {
        !matches!(self, HandshakeStatus::Request)
    }

    /// Whether this status switches the connection to session mode.
    pub fn installs_session_key(self) -> (r: bool)
        ensures
            r == (self == HandshakeStatus::Accept),
    {
        matches!(self, HandshakeStatus::Accept)
    }
}

impl HandshakePacket {
    /// The responder's reply to a request. An accepting destination gets
    /// `Accept` with `sealed_key` (the session key sealed under the
    /// initiator's public key); every other outcome carries no key material.
    pub fn respond(
        request: HandshakePacket,
        lookup: DestinationLookup,
        sealed_key: Vec<u8>,
    ) -> (r: Result<HandshakePacket, HandshakeError>)
        ensures
            request.status != HandshakeStatus::Request ==> r == Err::<HandshakePacket, HandshakeError>(
                HandshakeError::NotARequest(request.status),
            ),
            request.status == HandshakeStatus::Request ==> (r matches Ok(reply) && reply.status
                == reply_status(lookup) && reply.src == request.src && reply.dst == request.dst
                && reply.e@.len() == 0 && reply.n@.len() == 0 && (if lookup
                == DestinationLookup::Accepted {
                reply.aes_key@ == sealed_key@
            } else {
                reply.aes_key@.len() == 0
            })),
    {
        if !matches!(request.status, HandshakeStatus::Request) {
            return Err(HandshakeError::NotARequest(request.status));
        }
        let status = match lookup {
            DestinationLookup::Absent => HandshakeStatus::NotFound,
            DestinationLookup::Declined => HandshakeStatus::Deny,
            DestinationLookup::Accepted => HandshakeStatus::Accept,
            DestinationLookup::Failed => HandshakeStatus::ServerError,
        };
        let aes_key = if matches!(lookup, DestinationLookup::Accepted) {
            sealed_key
        } else {
            Vec::new()
        };
        Ok(HandshakePacket {
            status,
            e: Vec::new(),
            n: Vec::new(),
            aes_key,
            src: request.src,
            dst: request.dst,
        })
    }

    /// The sealed session key of an `Accept` reply; no other status yields one.
    pub fn sealed_session_key(&self) -> (r: Option<Vec<u8>>)
        ensures
            self.status == HandshakeStatus::Accept ==> (r matches Some(k) && k@ == self.aes_key@),
            self.status != HandshakeStatus::Accept ==> r is None,
    {
        if self.status.installs_session_key() {
            Some(copy_bytes(&self.aes_key, 0, self.aes_key.len()))
        } else {
            None
        }
    }
}

/// How a frame's body is wrapped.
#[derive(Copy, Clone, Debug, PartialEq, Eq, Structural)]
pub enum WrapMode {
    /// Under the peer's RSA public key, without padding.
    Rsa,
    /// Under the session key, padded to whole blocks.
    Aes,
}

/// The phase of a connection: the bootstrap exchange, a session with its key,
/// or closed.
#[derive(Clone, Debug, PartialEq, Eq)]
pub enum ConnectionPhase {
    Bootstrap,
    Session(Vec<u8>),
    Closed,
}

impl ConnectionPhase {
    /// The phase after the handshake reply with `status` arrives; `session_key`
    /// is the key opened from an `Accept` reply, or `None` where opening it
    /// failed. Only an `Accept` with a key starts a session; any other outcome
    /// closes the connection. A `Request`, or a reply outside the bootstrap
    /// phase, changes nothing.
    pub fn after_reply(self, status: HandshakeStatus, session_key: Option<Vec<u8>>) -> (r:
        ConnectionPhase)
        ensures
            self is Bootstrap && status == HandshakeStatus::Accept && session_key is Some ==> (r matches ConnectionPhase::Session(k)
                && k@ == session_key->0@),
            self is Bootstrap && status == HandshakeStatus::Accept && session_key is None ==> r is Closed,
            self is Bootstrap && status != HandshakeStatus::Accept && status
                != HandshakeStatus::Request ==> r is Closed,
            self is Bootstrap && status == HandshakeStatus::Request ==> r is Bootstrap,
            !(self is Bootstrap) ==> r == self,
    {
        match self {
            ConnectionPhase::Bootstrap => match status {
                HandshakeStatus::Request => ConnectionPhase::Bootstrap,
                HandshakeStatus::Accept => match session_key {
                    Some(k) => ConnectionPhase::Session(k),
                    None => ConnectionPhase::Closed,
                },
                _ => ConnectionPhase::Closed,
            },
            other => other,
        }
    }

    /// The phase after a frame failed to decrypt: the connection closes.
    pub fn after_crypto_error(self) -> (r: ConnectionPhase)
        ensures
            r is Closed,
    {
        ConnectionPhase::Closed
    }

    /// How frames are wrapped in this phase; none once closed.
    pub fn wrap_mode(&self) -> (r: Option<WrapMode>)
        ensures
            self is Bootstrap ==> r == Some(WrapMode::Rsa),
            self is Session ==> r == Some(WrapMode::Aes),
            self is Closed ==> r is None,
    {
        match self {
            ConnectionPhase::Bootstrap => Some(WrapMode::Rsa),
            ConnectionPhase::Session(_) => Some(WrapMode::Aes),
            ConnectionPhase::Closed => None,
        }
    }
}

} // verus!

use secure_link::packet::handshake::{
    ConnectionPhase, DestinationLookup, HandshakeError, HandshakePacket, HandshakeStatus, WrapMode,
};
use secure_link::user::User;

fn request(dst: &str) -> HandshakePacket {
    HandshakePacket {
        status: HandshakeStatus::Request,
        e: vec![1, 0, 1],
        n: vec![0xC3, 0x51],
        aes_key: vec![],
        src: User { id: Some("7".to_string()), name: Some("ann".to_string()) },
        dst: dst.to_string(),
    }
}

#[test]
fn accepting_destination_gets_accept_with_key() {
    let reply = HandshakePacket::respond(request("bob"), DestinationLookup::Accepted, vec![8, 9, 10]).unwrap();
    assert_eq!(reply.status, HandshakeStatus::Accept);
    assert_eq!(reply.aes_key, vec![8, 9, 10]);
    assert_eq!(reply.dst, "bob");
    assert_eq!(reply.src.id.as_deref(), Some("7"));
    assert_eq!(reply.sealed_session_key(), Some(vec![8, 9, 10]));
    assert!(reply.status.installs_session_key());
}

#[test]
fn absent_destination_is_not_found() {
    let reply = HandshakePacket::respond(request("nobody"), DestinationLookup::Absent, vec![8, 9]).unwrap();
    assert_eq!(reply.status, HandshakeStatus::NotFound);
    assert!(reply.aes_key.is_empty() && reply.e.is_empty() && reply.n.is_empty());
    assert_eq!(reply.sealed_session_key(), None);
}

#[test]
fn declining_destination_is_denied() {
    let reply = HandshakePacket::respond(request("carol"), DestinationLookup::Declined, vec![1]).unwrap();
    assert_eq!(reply.status, HandshakeStatus::Deny);
    assert!(reply.aes_key.is_empty());
    assert!(!reply.status.installs_session_key());
}

#[test]
fn directory_failure_is_server_error() {
    let reply = HandshakePacket::respond(request("dan"), DestinationLookup::Failed, vec![1]).unwrap();
    assert_eq!(reply.status, HandshakeStatus::ServerError);
    assert!(reply.aes_key.is_empty());
}

#[test]
fn only_requests_are_answered() {
    let mut p = request("bob");
    p.status = HandshakeStatus::Accept;
    assert_eq!(
        HandshakePacket::respond(p, DestinationLookup::Accepted, vec![]),
        Err(HandshakeError::NotARequest(HandshakeStatus::Accept))
    );
}

#[test]
fn terminal_statuses() {
    assert!(!HandshakeStatus::Request.is_terminal());
    for s in [HandshakeStatus::Accept, HandshakeStatus::Deny, HandshakeStatus::NotFound, HandshakeStatus::ServerError] {
        assert!(s.is_terminal());
    }
}

#[test]
fn accept_with_key_starts_a_session() {
    let p = ConnectionPhase::Bootstrap;
    assert_eq!(p.wrap_mode(), Some(WrapMode::Rsa));
    let p = p.after_reply(HandshakeStatus::Accept, Some(vec![3u8; 16]));
    assert_eq!(p, ConnectionPhase::Session(vec![3u8; 16]));
    assert_eq!(p.wrap_mode(), Some(WrapMode::Aes));
    let p = p.after_reply(HandshakeStatus::Deny, None);
    assert_eq!(p, ConnectionPhase::Session(vec![3u8; 16]));
}

#[test]
fn refusals_and_key_failures_close_the_connection() {
    for s in [HandshakeStatus::Deny, HandshakeStatus::NotFound, HandshakeStatus::ServerError] {
        let p = ConnectionPhase::Bootstrap.after_reply(s, Some(vec![1]));
        assert_eq!(p, ConnectionPhase::Closed);
        assert_eq!(p.wrap_mode(), None);
    }
    assert_eq!(ConnectionPhase::Bootstrap.after_reply(HandshakeStatus::Accept, None), ConnectionPhase::Closed);
    assert_eq!(ConnectionPhase::Bootstrap.after_reply(HandshakeStatus::Request, None), ConnectionPhase::Bootstrap);
}

#[test]
fn crypto_error_in_session_closes_the_connection() {
    let p = ConnectionPhase::Session(vec![7u8; 16]);
    assert_eq!(p.after_crypto_error(), ConnectionPhase::Closed);
}

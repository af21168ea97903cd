use secure_transport::base::Error;
use secure_transport::identity::SecIdentity;
use secure_transport::secure_transport::{
    ConnectionType, HandshakeError, MidHandshakeSslStream, ProtocolSide, SessionState,
    SslAuthenticate, SslClientCertificateState, SslContext, SslStream,
};
use secure_transport::transport::MemoryTransport;

enum Hs {
    Done(SslStream<MemoryTransport>),
    Mid(MidHandshakeSslStream<MemoryTransport>),
    Failed(Error),
}

fn classify(r: Result<SslStream<MemoryTransport>, HandshakeError<MemoryTransport>>) -> Hs {
    match r {
        Ok(s) => Hs::Done(s),
        Err(HandshakeError::WouldBlock(m)) => Hs::Mid(m),
        Err(HandshakeError::ServerAuthCompleted(m)) => Hs::Mid(m),
        Err(HandshakeError::ClientCertRequested(m)) => Hs::Mid(m),
        Err(HandshakeError::Failure(e)) => Hs::Failed(e),
    }
}

fn transport_of(h: &mut Hs) -> &mut MemoryTransport {
    match h {
        Hs::Done(s) => s.get_mut(),
        Hs::Mid(m) => m.get_mut(),
        Hs::Failed(_) => panic!("no transport on a failed handshake"),
    }
}

fn exchange(a: &mut Hs, b: &mut Hs) {
    if matches!(a, Hs::Failed(_)) || matches!(b, Hs::Failed(_)) {
        return;
    }
    let out_a = transport_of(a).take_written();
    let out_b = transport_of(b).take_written();
    transport_of(a).feed(&out_b);
    transport_of(b).feed(&out_a);
}

/// Resume both sides, moving bytes between them, until both are done or
/// one fails.
fn drive(mut client: Hs, mut server: Hs) -> (Hs, Hs) {
    for _ in 0..32 {
        match (&client, &server) {
            (Hs::Done(_), Hs::Done(_)) => return (client, server),
            (Hs::Failed(_), _) => return (client, server),
            (_, Hs::Failed(_)) => return (client, server),
            _ => {},
        }
        exchange(&mut client, &mut server);
        client = match client {
            Hs::Mid(m) => classify(m.handshake()),
            other => other,
        };
        exchange(&mut client, &mut server);
        server = match server {
            Hs::Mid(m) => classify(m.handshake()),
            other => other,
        };
    }
    panic!("handshake made no progress");
}

fn client_for(name: &str) -> SslContext {
    let mut ctx = SslContext::new(ProtocolSide::Client, ConnectionType::Stream).unwrap();
    ctx.set_peer_domain_name(name).unwrap();
    ctx
}

fn server_with_identity(name: &[u8]) -> SslContext {
    let mut ctx = SslContext::new(ProtocolSide::Server, ConnectionType::Stream).unwrap();
    ctx.set_certificate(&SecIdentity::new(name.to_vec()), &Vec::new()).unwrap();
    ctx
}

#[test]
fn successful_mutual_handshake() {
    let client = client_for("example.test");
    let server = server_with_identity(b"example.test");
    let c = classify(client.handshake(MemoryTransport::new()));
    let s = classify(server.handshake(MemoryTransport::new()));
    let (c, s) = drive(c, s);
    let (c, s) = match (c, s) {
        (Hs::Done(c), Hs::Done(s)) => (c, s),
        _ => panic!("expected both sides ready"),
    };
    assert_eq!(c.context().state().unwrap(), SessionState::Connected);
    assert_eq!(s.context().state().unwrap(), SessionState::Connected);
    assert_eq!(
        c.context().negotiated_cipher().unwrap(),
        s.context().negotiated_cipher().unwrap()
    );
}

#[test]
fn name_mismatch_fails() {
    let client = client_for("other.test");
    let server = server_with_identity(b"example.test");
    let c = classify(client.handshake(MemoryTransport::new()));
    let s = classify(server.handshake(MemoryTransport::new()));
    let (c, _s) = drive(c, s);
    match c {
        Hs::Failed(e) => assert_eq!(e, Error::ProtocolFailure),
        Hs::Done(_) => panic!("a mismatched name must never yield a ready stream"),
        Hs::Mid(_) => panic!("client should have reached a verdict"),
    }
}

#[test]
fn round_trip_bytes() {
    let client = client_for("example.test");
    let server = server_with_identity(b"example.test");
    let c = classify(client.handshake(MemoryTransport::new()));
    let s = classify(server.handshake(MemoryTransport::new()));
    let (c, s) = drive(c, s);
    let (mut c, mut s) = match (c, s) {
        (Hs::Done(c), Hs::Done(s)) => (c, s),
        _ => panic!("expected both sides ready"),
    };
    // spans more than one record
    let message: Vec<u8> = (0..70_000u32).map(|i| (i % 251) as u8).collect();
    let mut sent = 0;
    while sent < message.len() {
        let n = c.write(&message[sent..].to_vec()).unwrap();
        assert!(n > 0);
        sent += n;
        let bytes = c.get_mut().take_written();
        s.get_mut().feed(&bytes);
    }
    let mut received: Vec<u8> = Vec::new();
    while received.len() < message.len() {
        let chunk = s.read(4096).unwrap();
        assert!(!chunk.is_empty());
        received.extend_from_slice(&chunk);
    }
    assert_eq!(received, message);
}

#[test]
fn one_byte_record_writes() {
    let client = client_for("example.test");
    let server = server_with_identity(b"example.test");
    let c = classify(client.handshake(MemoryTransport::new()));
    let s = classify(server.handshake(MemoryTransport::new()));
    let (c, s) = drive(c, s);
    let (mut plain, mut peer) = match (c, s) {
        (Hs::Done(c), Hs::Done(s)) => (c, s),
        _ => panic!("expected both sides ready"),
    };
    // a plain stream accepts a whole small chunk at once
    let n = plain.write(&b"abc".to_vec()).unwrap();
    assert_eq!(n, 3);
    let bytes = plain.get_mut().take_written();
    peer.get_mut().feed(&bytes);
    assert_eq!(peer.read(16).unwrap(), b"abc".to_vec());
    // with the one-byte-record option set, each write accepts one byte
    let mut client2 = SslContext::new(ProtocolSide::Client, ConnectionType::Stream).unwrap();
    client2.set_peer_domain_name("example.test").unwrap();
    client2.set_send_one_byte_record(true).unwrap();
    let server2 = server_with_identity(b"example.test");
    let c2 = classify(client2.handshake(MemoryTransport::new()));
    let s2 = classify(server2.handshake(MemoryTransport::new()));
    let (c2, s2) = drive(c2, s2);
    let (mut c2, _s2) = match (c2, s2) {
        (Hs::Done(c2), Hs::Done(s2)) => (c2, s2),
        _ => panic!("expected both sides ready"),
    };
    let n = c2.write(&b"abc".to_vec()).unwrap();
    assert_eq!(n, 1);
}

#[test]
fn server_auth_interrupt_then_trust() {
    let mut client = SslContext::new(ProtocolSide::Client, ConnectionType::Stream).unwrap();
    client.set_peer_domain_name("example.test").unwrap();
    client.set_break_on_server_auth(true).unwrap();
    let server = server_with_identity(b"example.test");
    let mut c = classify(client.handshake(MemoryTransport::new()));
    let mut s = classify(server.handshake(MemoryTransport::new()));
    let mut saw_interrupt = false;
    for _ in 0..32 {
        exchange(&mut c, &mut s);
        c = match c {
            Hs::Mid(m) => {
                let r = m.handshake();
                if let Err(HandshakeError::ServerAuthCompleted(m)) = r {
                    saw_interrupt = true;
                    // the peer's identity is inspectable mid-handshake
                    let trust = m.context().peer_trust().unwrap();
                    assert_eq!(trust.peer_name, Some(b"example.test".to_vec()));
                    Hs::Mid(m)
                } else {
                    classify(r)
                }
            },
            other => other,
        };
        exchange(&mut c, &mut s);
        s = match s {
            Hs::Mid(m) => classify(m.handshake()),
            other => other,
        };
        if let (Hs::Done(_), Hs::Done(_)) = (&c, &s) {
            break;
        }
    }
    assert!(saw_interrupt);
    match (c, s) {
        (Hs::Done(c), Hs::Done(_)) => {
            assert!(c.context().peer_trust().is_ok());
        },
        _ => panic!("expected both sides ready after the interruption"),
    }
}

#[test]
fn client_certificate_exchange() {
    let mut client = SslContext::new(ProtocolSide::Client, ConnectionType::Stream).unwrap();
    client.set_peer_domain_name("example.test").unwrap();
    client.set_certificate(&SecIdentity::new(b"client.test".to_vec()), &Vec::new()).unwrap();
    let mut server = server_with_identity(b"example.test");
    server.set_client_side_authenticate(SslAuthenticate::Always).unwrap();
    let c = classify(client.handshake(MemoryTransport::new()));
    let s = classify(server.handshake(MemoryTransport::new()));
    let (c, s) = drive(c, s);
    match (c, s) {
        (Hs::Done(c), Hs::Done(s)) => {
            assert_eq!(
                c.context().client_certificate_state().unwrap(),
                SslClientCertificateState::Sent
            );
            assert_eq!(
                s.context().client_certificate_state().unwrap(),
                SslClientCertificateState::Sent
            );
            let trust = s.context().peer_trust().unwrap();
            assert_eq!(trust.peer_name, Some(b"client.test".to_vec()));
        },
        _ => panic!("expected both sides ready"),
    }
}

#[test]
fn required_client_certificate_missing_fails() {
    let client = client_for("example.test");
    let mut server = server_with_identity(b"example.test");
    server.set_client_side_authenticate(SslAuthenticate::Always).unwrap();
    let c = classify(client.handshake(MemoryTransport::new()));
    let s = classify(server.handshake(MemoryTransport::new()));
    let (_c, s) = drive(c, s);
    match s {
        Hs::Failed(e) => assert_eq!(e, Error::ProtocolFailure),
        _ => panic!("server must refuse a missing required certificate"),
    }
}

#[test]
fn server_without_identity_fails() {
    let client = client_for("example.test");
    let server = SslContext::new(ProtocolSide::Server, ConnectionType::Stream).unwrap();
    let c = classify(client.handshake(MemoryTransport::new()));
    let s = classify(server.handshake(MemoryTransport::new()));
    let (_c, s) = drive(c, s);
    match s {
        Hs::Failed(e) => assert_eq!(e, Error::MissingIdentity),
        _ => panic!("server without an identity must fail"),
    }
}

#[test]
fn eof_during_handshake_fails() {
    let client = client_for("example.test");
    let mut t = MemoryTransport::new();
    t.set_eof();
    match client.handshake(t) {
        Err(HandshakeError::Failure(e)) => assert_eq!(e, Error::UnexpectedEof),
        _ => panic!("an immediate end-of-data must fail the handshake"),
    }
}

#[test]
fn set_peer_domain_name_outside_idle_is_rejected() {
    let client = client_for("example.test");
    match client.handshake(MemoryTransport::new()) {
        Err(HandshakeError::WouldBlock(mut m)) => {
            let r = m.mut_context().set_peer_domain_name("late.test");
            assert_eq!(r, Err(Error::BadRequest));
        },
        _ => panic!("a lone client should be waiting for the server"),
    }
}

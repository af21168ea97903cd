use std::cell::Cell;
use std::rc::Rc;

use secure_transport::base::{Error, TransportError, TransportErrorKind};
use secure_transport::identity::SecIdentity;
use secure_transport::secure_transport::{
    ConnectionType, HandshakeError, ProtocolSide, SessionState, SslContext, SslStream,
};
use secure_transport::transport::{MemoryTransport, Transport};

type HsResult = Result<SslStream<MemoryTransport>, HandshakeError<MemoryTransport>>;

fn transport_of(r: &mut HsResult) -> &mut MemoryTransport {
    match r {
        Ok(s) => s.get_mut(),
        Err(HandshakeError::WouldBlock(m)) => m.get_mut(),
        Err(HandshakeError::ServerAuthCompleted(m)) => m.get_mut(),
        Err(HandshakeError::ClientCertRequested(m)) => m.get_mut(),
        Err(HandshakeError::Failure(e)) => panic!("handshake failed: {:?}", e),
    }
}

fn resume(r: HsResult) -> HsResult {
    match r {
        Ok(s) => Ok(s),
        Err(HandshakeError::WouldBlock(m)) => m.handshake(),
        Err(HandshakeError::ServerAuthCompleted(m)) => m.handshake(),
        Err(HandshakeError::ClientCertRequested(m)) => m.handshake(),
        Err(HandshakeError::Failure(e)) => panic!("handshake failed: {:?}", e),
    }
}

fn connected_pair() -> (SslStream<MemoryTransport>, SslStream<MemoryTransport>) {
    let mut client = SslContext::new(ProtocolSide::Client, ConnectionType::Stream).unwrap();
    client.set_peer_domain_name("example.test").unwrap();
    let mut server = SslContext::new(ProtocolSide::Server, ConnectionType::Stream).unwrap();
    server
        .set_certificate(&SecIdentity::new(b"example.test".to_vec()), &Vec::new())
        .unwrap();
    let mut c = client.handshake(MemoryTransport::new());
    let mut s = server.handshake(MemoryTransport::new());
    for _ in 0..16 {
        if let (Ok(_), Ok(_)) = (&c, &s) {
            break;
        }
        let from_c = transport_of(&mut c).take_written();
        let from_s = transport_of(&mut s).take_written();
        transport_of(&mut c).feed(&from_s);
        transport_of(&mut s).feed(&from_c);
        if !matches!(c, Ok(_)) {
            c = resume(c);
        }
        if !matches!(s, Ok(_)) {
            s = resume(s);
        }
    }
    match (c, s) {
        (Ok(cs), Ok(ss)) => (cs, ss),
        _ => panic!("pair never connected"),
    }
}

#[test]
fn zero_length_read_is_end_of_stream() {
    // graceful close notification from the peer
    let (client, mut server) = connected_pair();
    let transport = client.close();
    let notify = {
        let mut t = transport;
        t.take_written()
    };
    server.get_mut().feed(&notify);
    assert_eq!(server.read(64).unwrap(), Vec::<u8>::new());
    assert_eq!(server.context().state().unwrap(), SessionState::Closed);
    // a later read still reports end-of-stream
    assert_eq!(server.read(64).unwrap(), Vec::<u8>::new());
}

#[test]
fn no_notify_eof_reads_as_end_of_stream() {
    let (mut client, _server) = connected_pair();
    client.get_mut().set_eof();
    assert_eq!(client.read(64).unwrap(), Vec::<u8>::new());
}

#[test]
fn abrupt_reset_reads_as_end_of_stream() {
    let (mut client, _server) = connected_pair();
    client.get_mut().set_read_fault(TransportError {
        kind: TransportErrorKind::ConnectionReset,
        detail: 7,
    });
    assert_eq!(client.read(64).unwrap(), Vec::<u8>::new());
}

#[test]
fn graceful_not_found_reads_as_end_of_stream() {
    let (mut client, _server) = connected_pair();
    client.get_mut().set_read_fault(TransportError {
        kind: TransportErrorKind::NotFound,
        detail: 0,
    });
    assert_eq!(client.read(64).unwrap(), Vec::<u8>::new());
}

#[test]
fn io_error_is_preserved_verbatim() {
    let (mut client, _server) = connected_pair();
    let fault = TransportError { kind: TransportErrorKind::Other, detail: 42 };
    client.get_mut().set_read_fault(fault);
    assert_eq!(client.read(64), Err(Error::Io(fault)));
}

#[test]
fn would_block_read_surfaces_transport_error() {
    let (mut client, _server) = connected_pair();
    match client.read(64) {
        Err(Error::Io(e)) => assert_eq!(e.kind, TransportErrorKind::WouldBlock),
        other => panic!("expected a would-block error, got {:?}", other),
    }
}

#[test]
fn write_after_close_is_rejected() {
    let (client, mut server) = connected_pair();
    let mut transport = client.close();
    let notify = transport.take_written();
    server.get_mut().feed(&notify);
    assert_eq!(server.read(64).unwrap(), Vec::<u8>::new());
    assert_eq!(server.write(&b"late".to_vec()), Err(Error::SessionClosed));
}

#[test]
fn buffered_read_size_tracks_undelivered_plaintext() {
    let (mut client, mut server) = connected_pair();
    assert_eq!(client.write(&b"hello".to_vec()).unwrap(), 5);
    let bytes = client.get_mut().take_written();
    server.get_mut().feed(&bytes);
    assert_eq!(server.read(2).unwrap(), b"he".to_vec());
    assert_eq!(server.context().buffered_read_size().unwrap(), 3);
    assert_eq!(server.read(10).unwrap(), b"llo".to_vec());
    assert_eq!(server.context().buffered_read_size().unwrap(), 0);
}

#[test]
fn flush_drains_queued_bytes() {
    let (mut client, _server) = connected_pair();
    assert_eq!(client.write(&vec![9, 9]).unwrap(), 2);
    assert!(client.flush().is_ok());
}

struct TrackingTransport {
    inner: MemoryTransport,
    live: Rc<Cell<usize>>,
}

impl TrackingTransport {
    fn new(live: &Rc<Cell<usize>>) -> TrackingTransport {
        live.set(live.get() + 1);
        TrackingTransport { inner: MemoryTransport::new(), live: live.clone() }
    }
}

impl Drop for TrackingTransport {
    fn drop(&mut self) {
        // underflows (and panics) on a double reclaim
        self.live.set(self.live.get().checked_sub(1).unwrap());
    }
}

impl Transport for TrackingTransport {
    // specification-only members; never called at run time
    fn inbox(&self) -> vstd::seq::Seq<u8> {
        panic!("specification-only")
    }

    fn outbox(&self) -> vstd::seq::Seq<u8> {
        panic!("specification-only")
    }

    fn transport_read(&mut self, max: usize) -> Result<Vec<u8>, TransportError> {
        self.inner.transport_read(max)
    }

    fn transport_write(&mut self, data: &Vec<u8>) -> Result<usize, TransportError> {
        self.inner.transport_write(data)
    }

    fn transport_flush(&mut self) -> Result<(), TransportError> {
        self.inner.transport_flush()
    }
}

#[test]
fn resource_balance_across_all_paths() {
    let live: Rc<Cell<usize>> = Rc::new(Cell::new(0));

    // suspension then abandonment reclaims the transport once
    let mut client = SslContext::new(ProtocolSide::Client, ConnectionType::Stream).unwrap();
    client.set_peer_domain_name("example.test").unwrap();
    let r = client.handshake(TrackingTransport::new(&live));
    assert_eq!(live.get(), 1);
    match r {
        Err(HandshakeError::WouldBlock(m)) => drop(m),
        _ => panic!("a lone client should be waiting"),
    }
    assert_eq!(live.get(), 0);

    // a handshake failure reclaims the transport once
    let mut t = TrackingTransport::new(&live);
    t.inner.set_eof();
    let client = {
        let mut c = SslContext::new(ProtocolSide::Client, ConnectionType::Stream).unwrap();
        c.set_peer_domain_name("example.test").unwrap();
        c
    };
    match client.handshake(t) {
        Err(HandshakeError::Failure(_)) => {},
        _ => panic!("expected a failure"),
    }
    assert_eq!(live.get(), 0);

    // dropping an abandoned server session reclaims its transport once
    let server = SslContext::new(ProtocolSide::Server, ConnectionType::Stream).unwrap();
    let r = server.handshake(TrackingTransport::new(&live));
    match r {
        Err(HandshakeError::Failure(e)) => assert_eq!(e, Error::MissingIdentity),
        _ => panic!("expected a failure"),
    }
    assert_eq!(live.get(), 0);
}

#[test]
fn memory_transport_feed_and_drain() {
    let mut t = MemoryTransport::new();
    t.feed(&vec![1, 2, 3]);
    assert_eq!(t.transport_read(2).unwrap(), vec![1, 2]);
    assert_eq!(t.transport_read(8).unwrap(), vec![3]);
    assert_eq!(t.transport_write(&vec![7, 8]).unwrap(), 2);
    assert_eq!(t.take_written(), vec![7, 8]);
}

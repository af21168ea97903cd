//! The bridge between the engine's pull/push byte demands and the
//! caller's transport.
//!
//! The engine asks the bound connection to fill or drain whole buffers;
//! the bridge loops over the transport until the demand is met, the
//! transport closes, or an error occurs.  Partial progress is always
//! reported alongside the status, and a transport error is captured in
//! the connection for later retrieval, never discarded.

use vstd::prelude::*;
use crate::base::{TransportError, TransportErrorKind};
use crate::transport::{copy_range, Transport};

verus! {

/// The status the bridge reports to the engine for one pull or push.
#[derive(Clone, Copy, Debug, PartialEq, Eq, Structural)]
pub enum IoStatus {
    /// The whole demand was met.
    Success,
    /// The transport reported a graceful close.
    ClosedGraceful,
    /// The transport reported an abrupt close.
    ClosedAbrupt,
    /// The transport reported end-of-data without a close notification.
    ClosedNoNotify,
    /// The transport cannot make progress right now.
    WouldBlock,
    /// Any other transport failure.
    Io,
}

/// The coarse status the engine sees for a transport error `e`.
pub open spec fn classify(e: TransportError) -> IoStatus {
    match e.kind {
        TransportErrorKind::NotFound => IoStatus::ClosedGraceful,
        TransportErrorKind::ConnectionReset => IoStatus::ClosedAbrupt,
        TransportErrorKind::WouldBlock => IoStatus::WouldBlock,
        TransportErrorKind::Other => IoStatus::Io,
    }
}

pub fn translate_err(e: &TransportError) -> (r: IoStatus)
    ensures
        r == classify(*e),
{
    match e.kind {
        TransportErrorKind::NotFound => IoStatus::ClosedGraceful,
        TransportErrorKind::ConnectionReset => IoStatus::ClosedAbrupt,
        TransportErrorKind::WouldBlock => IoStatus::WouldBlock,
        TransportErrorKind::Other => IoStatus::Io,
    }
}

/// A transport bound to the engine, together with at most one captured
/// transport error awaiting retrieval.
#[derive(Debug)]
pub struct Connection<S> {
    pub stream: S,
    pub err: Option<TransportError>,
}

/// Whether the error capture of `conn` agrees with the status of the
/// bridge call that just returned: an error status means the causing
/// error is captured, any other status leaves the capture untouched.
pub open spec fn captures<S>(pre: Connection<S>, post: Connection<S>, status: IoStatus) -> bool {
    if status == IoStatus::Success || status == IoStatus::ClosedNoNotify {
        post.err == pre.err
    } else {
        match post.err {
            Some(e) => classify(e) == status,
            None => false,
        }
    }
}

/// Fill a buffer of `wanted` bytes from the transport.
///
/// Reads repeatedly until `wanted` bytes arrived (`Success`), the
/// transport reported end-of-data (`ClosedNoNotify`), or a call failed
/// (the error is classified and captured).  The bytes already moved are
/// returned alongside the status in every case.
pub fn pull<S: Transport>(conn: &mut Connection<S>, wanted: usize) -> (r: (Vec<u8>, IoStatus))
    ensures
        final(conn).stream.outbox() == old(conn).stream.outbox(),
        old(conn).stream.inbox() == r.0@ + final(conn).stream.inbox(),
        r.0@.len() <= wanted,
        (r.1 == IoStatus::Success) <==> (r.0@.len() == wanted),
        captures(*old(conn), *final(conn), r.1),
{
    let mut filled: Vec<u8> = Vec::new();
    let mut status = IoStatus::Success;
    while filled.len() < wanted && status == IoStatus::Success
        invariant
            filled@.len() <= wanted,
            status != IoStatus::Success ==> filled@.len() < wanted,
            old(conn).stream.inbox() == filled@ + conn.stream.inbox(),
            conn.stream.outbox() == old(conn).stream.outbox(),
            captures(*old(conn), *conn, status),
        decreases wanted - filled@.len() + (if status == IoStatus::Success { 1int } else { 0int }),
    {
        let want = wanted - filled.len();
        match conn.stream.transport_read(want) {
            Ok(bytes) => {
                if bytes.len() == 0 {
                    status = IoStatus::ClosedNoNotify;
                } else {
                    let mut bytes = bytes;
                    filled.append(&mut bytes);
                }
            },
            Err(e) => {
                status = translate_err(&e);
                conn.err = Some(e);
                proof {
                    // a would-block error is never `Success`
                    assert(classify(e) != IoStatus::Success);
                    assert(classify(e) != IoStatus::ClosedNoNotify);
                }
            },
        }
    }
    (filled, status)
}

/// Drain `data` into the transport.
///
/// Writes repeatedly until every byte was accepted (`Success`), the
/// transport reported a closed write side (`ClosedNoNotify`), or a call
/// failed (the error is classified and captured).  The count of bytes
/// already moved is reported alongside the status in every case.
pub fn push<S: Transport>(conn: &mut Connection<S>, data: &Vec<u8>) -> (r: (usize, IoStatus))
    ensures
        final(conn).stream.inbox() == old(conn).stream.inbox(),
        r.0 <= data@.len(),
        final(conn).stream.outbox() == old(conn).stream.outbox() + data@.take(r.0 as int),
        (r.1 == IoStatus::Success) <==> (r.0 == data@.len()),
        captures(*old(conn), *final(conn), r.1),
{
    let mut start: usize = 0;
    let mut status = IoStatus::Success;
    proof {
        assert(conn.stream.outbox() + data@.take(0) =~= conn.stream.outbox());
    }
    while start < data.len() && status == IoStatus::Success
        invariant
            start <= data@.len(),
            status != IoStatus::Success ==> start < data@.len(),
            conn.stream.inbox() == old(conn).stream.inbox(),
            conn.stream.outbox() == old(conn).stream.outbox() + data@.take(start as int),
            captures(*old(conn), *conn, status),
        decreases data@.len() - start + (if status == IoStatus::Success { 1int } else { 0int }),
    {
        let rest = copy_range(data, start, data.len());
        match conn.stream.transport_write(&rest) {
            Ok(n) => {
                if n == 0 {
                    status = IoStatus::ClosedNoNotify;
                } else {
                    proof {
                        assert(data@.take(start as int) + data@.subrange(
                            start as int,
                            data@.len() as int,
                        ).take(n as int) =~= data@.take(start + n as int));
                    }
                    start = start + n;
                }
            },
            Err(e) => {
                status = translate_err(&e);
                conn.err = Some(e);
            },
        }
    }
    proof {
        if status == IoStatus::Success {
            assert(data@.take(data@.len() as int) =~= data@);
        }
    }
    (start, status)
}

} // verus!

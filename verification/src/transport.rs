//! The abstract duplex transport the engine is driven over, and an
//! in-memory endpoint for loopback use.

use vstd::prelude::*;
use crate::base::{TransportError, TransportErrorKind};

verus! {

/// A caller-supplied duplex byte transport.
///
/// A transport is modelled by two byte streams: `inbox`, the bytes still
/// available to read, and `outbox`, the bytes written so far.  A read
/// removes a prefix of `inbox`; a write appends a prefix of the offered
/// bytes to `outbox`.  A zero-length successful read means end-of-data; a
/// zero-length successful write means the write side is closed.  A failed
/// call moves no bytes.
pub trait Transport: Sized {
    /// Bytes still available to read.
    spec fn inbox(&self) -> Seq<u8>;

    /// Bytes written so far.
    spec fn outbox(&self) -> Seq<u8>;

    /// Read up to `max` bytes.  An empty result means end-of-data.
    fn transport_read(&mut self, max: usize) -> (r: Result<Vec<u8>, TransportError>)
        ensures
            final(self).outbox() == old(self).outbox(),
            match r {
                Ok(bytes) => bytes@.len() <= max && old(self).inbox() == bytes@
                    + final(self).inbox(),
                Err(_) => final(self).inbox() == old(self).inbox(),
            },
    ;

    /// Write a prefix of `data`; the result is how many bytes were
    /// accepted.  Zero accepted bytes (for non-empty `data`) means the
    /// write side is closed.
    fn transport_write(&mut self, data: &Vec<u8>) -> (r: Result<usize, TransportError>)
        ensures
            final(self).inbox() == old(self).inbox(),
            match r {
                Ok(n) => n <= data@.len() && final(self).outbox() == old(self).outbox()
                    + data@.take(n as int),
                Err(_) => final(self).outbox() == old(self).outbox(),
            },
    ;

    /// Flush buffered writes.  Neither stream changes.
    fn transport_flush(&mut self) -> (r: Result<(), TransportError>)
        ensures
            final(self).inbox() == old(self).inbox(),
            final(self).outbox() == old(self).outbox(),
    ;
}

/// An in-memory transport endpoint.
///
/// Bytes fed with `feed` become readable; written bytes accumulate until
/// drained with `take_written`.  With an empty buffer a read reports
/// would-block, or end-of-data once `set_eof` was called.  Faults injected
/// with `set_read_fault` / `set_write_fault` are reported instead, once.
#[derive(Debug)]
pub struct MemoryTransport {
    pub buffered: Vec<u8>,
    pub written: Vec<u8>,
    pub eof: bool,
    pub write_closed: bool,
    pub read_fault: Option<TransportError>,
    pub write_fault: Option<TransportError>,
}

impl MemoryTransport {
    pub fn new() -> (r: MemoryTransport)
        ensures
            r.inbox() == Seq::<u8>::empty(),
            r.outbox() == Seq::<u8>::empty(),
            !r.eof,
            !r.write_closed,
            r.read_fault is None,
            r.write_fault is None,
    {
        MemoryTransport {
            buffered: Vec::new(),
            written: Vec::new(),
            eof: false,
            write_closed: false,
            read_fault: None,
            write_fault: None,
        }
    }

    /// Make `bytes` available for reading, after what is already buffered.
    pub fn feed(&mut self, bytes: &Vec<u8>)
        ensures
            final(self).buffered@ == old(self).buffered@ + bytes@,
            final(self).written == old(self).written,
            final(self).eof == old(self).eof,
            final(self).write_closed == old(self).write_closed,
            final(self).read_fault == old(self).read_fault,
            final(self).write_fault == old(self).write_fault,
    {
        let mut extra = copy_bytes(bytes);
        self.buffered.append(&mut extra);
    }

    /// Drain and return everything written so far.
    pub fn take_written(&mut self) -> (r: Vec<u8>)
        ensures
            r@ == old(self).written@,
            final(self).written@ == Seq::<u8>::empty(),
            final(self).buffered == old(self).buffered,
            final(self).eof == old(self).eof,
            final(self).write_closed == old(self).write_closed,
            final(self).read_fault == old(self).read_fault,
            final(self).write_fault == old(self).write_fault,
    {
        let r = self.written.split_off(0);
        r
    }

    /// After the buffered bytes are consumed, reads report end-of-data.
    pub fn set_eof(&mut self)
        ensures
            *final(self) == (MemoryTransport { eof: true, ..*old(self) }),
    {
        self.eof = true;
    }

    /// Writes report a closed stream (zero bytes accepted).
    pub fn set_write_closed(&mut self)
        ensures
            *final(self) == (MemoryTransport { write_closed: true, ..*old(self) }),
    {
        self.write_closed = true;
    }

    /// The next read with an empty buffer reports `e` instead.
    pub fn set_read_fault(&mut self, e: TransportError)
        ensures
            *final(self) == (MemoryTransport { read_fault: Some(e), ..*old(self) }),
    {
        self.read_fault = Some(e);
    }

    /// The next write reports `e` instead.
    pub fn set_write_fault(&mut self, e: TransportError)
        ensures
            *final(self) == (MemoryTransport { write_fault: Some(e), ..*old(self) }),
    {
        self.write_fault = Some(e);
    }
}

impl Transport for MemoryTransport {
    open spec fn inbox(&self) -> Seq<u8> {
        self.buffered@
    }

    open spec fn outbox(&self) -> Seq<u8> {
        self.written@
    }

    fn transport_read(&mut self, max: usize) -> (r: Result<Vec<u8>, TransportError>) {
        if self.buffered.len() == 0 {
            if self.eof {
                Ok(Vec::new())
            } else {
                match self.read_fault {
                    Some(e) => {
                        self.read_fault = None;
                        Err(e)
                    },
                    None => Err(
                        TransportError { kind: TransportErrorKind::WouldBlock, detail: 0 },
                    ),
                }
            }
        } else {
            let n = if max < self.buffered.len() {
                max
            } else {
                self.buffered.len()
            };
            let head = copy_range(&self.buffered, 0, n);
            let tail = self.buffered.split_off(n);
            self.buffered = tail;
            Ok(head)
        }
    }

    fn transport_write(&mut self, data: &Vec<u8>) -> (r: Result<usize, TransportError>) {
        match self.write_fault {
            Some(e) => {
                self.write_fault = None;
                Err(e)
            },
            None => {
                if self.write_closed {
                    proof {
                        assert(data@.take(0) =~= Seq::<u8>::empty());
                        assert(self.written@ + data@.take(0) =~= self.written@);
                    }
                    Ok(0)
                } else {
                    let mut extra = copy_bytes(data);
                    let n = extra.len();
                    self.written.append(&mut extra);
                    proof {
                        assert(data@.take(n as int) =~= data@);
                    }
                    Ok(n)
                }
            },
        }
    }

    fn transport_flush(&mut self) -> (r: Result<(), TransportError>) {
        Ok(())
    }
}

/// A fresh vector holding the same bytes.
pub fn copy_bytes(v: &Vec<u8>) -> (r: Vec<u8>)
    ensures
        r@ == v@,
{
    let mut r: Vec<u8> = Vec::new();
    let mut i: usize = 0;
    while i < v.len()
        invariant
            i <= v@.len(),
            r@ == v@.take(i as int),
        decreases v@.len() - i,
    {
        r.push(v[i]);
        i = i + 1;
        proof {
            assert(r@ =~= v@.take(i as int));
        }
    }
    proof {
        assert(v@.take(v@.len() as int) =~= v@);
    }
    r
}

/// The bytes of `v` from `start` (inclusive) to `end` (exclusive), copied.
pub fn copy_range(v: &Vec<u8>, start: usize, end: usize) -> (r: Vec<u8>)
    requires
        start <= end <= v@.len(),
    ensures
        r@ == v@.subrange(start as int, end as int),
{
    let mut r: Vec<u8> = Vec::new();
    let mut i: usize = start;
    while i < end
        invariant
            start <= i <= end <= v@.len(),
            r@ == v@.subrange(start as int, i as int),
        decreases end - i,
    {
        r.push(v[i]);
        i = i + 1;
        proof {
            assert(r@ =~= v@.subrange(start as int, i as int));
        }
    }
    r
}

} // verus!

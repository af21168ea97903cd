//! The session engine: configuration, the handshake driver, and the
//! post-handshake duplex stream.
//!
//! A caller configures an `SslContext`, then calls `handshake(transport)`,
//! which binds the transport to the engine and steps the handshake.  The
//! result is a ready `SslStream`, a resumable `MidHandshakeSslStream`
//! (caller interruption or a would-block transport), or a terminal
//! failure.  A ready stream reads and writes plaintext framed through the
//! record layer.

use vstd::prelude::*;
use vstd::string::StrSliceExecFns;
use vstd::string::StringSliceAdditionalSpecFns;
use crate::base::{Error, TransportErrorKind};
use crate::bridge::{captures, pull, push, Connection, IoStatus};
use crate::cipher_suite::{is_supported, supported_list, supported_suites, CipherSuite};
use crate::identity::{SecCertificate, SecIdentity, SecTrust};
use crate::record::{
    decode_cipher_list, decode_finished, decode_server_hello, encode_cipher_list, encode_finished,
    encode_record, encode_server_hello, header_payload_len, is_cipher_list_bytes, opt_bytes,
    record_bytes, server_hello_bytes, split_record, MAX_NAME_LEN, MAX_RECORD_PAYLOAD,
    RECORD_HEADER_LEN, TAG_CLIENT_HELLO, TAG_CLOSE, TAG_DATA, TAG_FINISHED, TAG_SERVER_HELLO,
};
use crate::transport::{copy_bytes, copy_range, Transport};

verus! {

/// Which side of the handshake this engine drives.
#[derive(Clone, Copy, Debug, PartialEq, Eq, Structural)]
pub enum ProtocolSide {
    Server,
    Client,
}

/// The kind of connection the engine is driven over.
#[derive(Clone, Copy, Debug, PartialEq, Eq, Structural)]
pub enum ConnectionType {
    Stream,
    Datagram,
}

/// The coarse lifecycle state of a session.
#[derive(Clone, Copy, Debug, PartialEq, Eq, Structural)]
pub enum SessionState {
    Idle,
    Handshake,
    Connected,
    Closed,
    Aborted,
}

/// The client-authentication policy a server announces.
#[derive(Clone, Copy, Debug, PartialEq, Eq, Structural)]
pub enum SslAuthenticate {
    Never,
    Always,
    Try,
}

/// How far a client certificate exchange has come.
#[derive(Clone, Copy, Debug, PartialEq, Eq, Structural)]
pub enum SslClientCertificateState {
    NoCertificate,
    Requested,
    Sent,
    Rejected,
}

/// The enumerable boolean session options.
#[derive(Clone, Copy, Debug, PartialEq, Eq, Structural)]
pub enum SessionOption {
    BreakOnServerAuth,
    BreakOnCertRequested,
    BreakOnClientAuth,
    FalseStart,
    SendOneByteRecord,
}

/// Where the handshake driver stands between caller-serviced steps.
#[derive(Clone, Copy, Debug, PartialEq, Eq, Structural)]
pub enum HandshakePhase {
    /// Nothing has happened yet.
    Start,
    /// The client hello is queued or sent; the server hello is owed.
    AwaitServerHello,
    /// The server hello was verified; the server-auth interruption point.
    AuthPoint,
    /// The certificate-request interruption point was passed.
    CertPoint,
    /// The finished message is queued; it still has to drain.
    Finishing,
    /// The server waits for the client hello.
    AwaitClientHello,
    /// The server hello is queued or sent; the finished message is owed.
    AwaitFinished,
    /// The server accepted the finished message.
    ServerFinish,
    /// The handshake is over.
    Established,
}

/// The handshake/record-layer engine.
#[derive(Debug)]
pub struct SslContext {
    pub side: ProtocolSide,
    pub conn_type: ConnectionType,
    pub state: SessionState,
    pub phase: HandshakePhase,
    pub peer_domain_name: Option<Vec<u8>>,
    pub identity: Option<SecIdentity>,
    pub certs: Vec<SecCertificate>,
    pub peer_id: Option<Vec<u8>>,
    pub enabled: Vec<CipherSuite>,
    pub negotiated: Option<CipherSuite>,
    pub auth: SslAuthenticate,
    pub client_cert_state: SslClientCertificateState,
    pub break_on_server_auth: bool,
    pub break_on_cert_requested: bool,
    pub break_on_client_auth: bool,
    pub false_start: bool,
    pub send_one_byte_record: bool,
    /// The name the peer presented during the handshake, if any.
    pub peer_name_seen: Option<Vec<u8>>,
    /// Raw incoming bytes that do not yet form a complete record.
    pub in_buf: Vec<u8>,
    /// Plaintext received but not yet delivered to the caller.
    pub plain_buf: Vec<u8>,
    /// Encoded bytes not yet drained into the transport.
    pub out_pending: Vec<u8>,
}

/// Whether a list may be enabled: every suite supported, and few enough
/// to fit a client hello.
pub open spec fn valid_cipher_selection(cs: Seq<CipherSuite>) -> bool {
    cs.len() <= 255 && forall|i: int|
        0 <= i < cs.len() ==> supported_suites().contains(#[trigger] cs[i])
}

impl SslContext {
    /// The engine's internal invariant.
    pub open spec fn wf(self) -> bool {
        &&& valid_cipher_selection(self.enabled@)
        &&& (self.peer_domain_name matches Some(v) ==> v@.len() <= MAX_NAME_LEN)
        &&& (self.identity matches Some(id) ==> id.name@.len() <= MAX_NAME_LEN)
        &&& (self.peer_name_seen matches Some(v) ==> v@.len() <= MAX_NAME_LEN)
        &&& self.out_pending@.len() <= 2 * (RECORD_HEADER_LEN + MAX_RECORD_PAYLOAD)
        &&& self.in_buf@.len() <= RECORD_HEADER_LEN + MAX_RECORD_PAYLOAD
        &&& self.plain_buf@.len() <= MAX_RECORD_PAYLOAD
        &&& (self.state == SessionState::Idle ==> self.phase == HandshakePhase::Start)
        &&& (self.state == SessionState::Connected ==> self.phase == HandshakePhase::Established)
        &&& (self.phase == HandshakePhase::Established ==> self.state == SessionState::Connected
            || self.state == SessionState::Closed || self.state == SessionState::Aborted)
        &&& (self.phase == HandshakePhase::Start ==> self.out_pending@.len() == 0
            && self.in_buf@.len() == 0)
        &&& (self.phase == HandshakePhase::AuthPoint || self.phase == HandshakePhase::CertPoint
            || self.phase == HandshakePhase::AwaitClientHello ==> self.out_pending@.len() == 0)
        &&& (self.side == ProtocolSide::Client ==> self.client_phase())
        &&& (self.side == ProtocolSide::Server ==> self.server_phase())
        &&& (self.side == ProtocolSide::Client && self.past_name_check() ==> self.name_checked())
        &&& (self.side == ProtocolSide::Client && self.past_name_check() ==> self.negotiated
            is Some)
        &&& (self.side == ProtocolSide::Server && self.server_hello_sent() ==> self.negotiated
            is Some)
        &&& (self.negotiated matches Some(c) ==> self.enabled@.contains(c))
        &&& (self.phase == HandshakePhase::Start ==> self.negotiated is None)
    }

    /// The phases a client engine can stand in.
    pub open spec fn client_phase(self) -> bool {
        self.phase == HandshakePhase::Start || self.phase == HandshakePhase::AwaitServerHello
            || self.phase == HandshakePhase::AuthPoint || self.phase == HandshakePhase::CertPoint
            || self.phase == HandshakePhase::Finishing || self.phase
            == HandshakePhase::Established
    }

    /// The phases a server engine can stand in.
    pub open spec fn server_phase(self) -> bool {
        self.phase == HandshakePhase::Start || self.phase == HandshakePhase::AwaitClientHello
            || self.phase == HandshakePhase::AwaitFinished || self.phase
            == HandshakePhase::ServerFinish || self.phase == HandshakePhase::Established
    }

    /// Server phases that lie beyond the server hello.
    pub open spec fn server_hello_sent(self) -> bool {
        self.phase == HandshakePhase::AwaitFinished || self.phase == HandshakePhase::ServerFinish
            || (self.phase == HandshakePhase::Established && self.state != SessionState::Idle)
    }

    /// Client phases that lie beyond the server hello verification.
    pub open spec fn past_name_check(self) -> bool {
        self.phase == HandshakePhase::AuthPoint || self.phase == HandshakePhase::CertPoint
            || self.phase == HandshakePhase::Finishing || (self.phase
            == HandshakePhase::Established && self.state != SessionState::Idle)
    }

    /// If an expected peer name is configured, the peer presented exactly
    /// that name.
    pub open spec fn name_checked(self) -> bool {
        self.peer_domain_name matches Some(exp) ==> (self.peer_name_seen matches Some(seen)
            && seen@ == exp@)
    }

    /// The configuration surface, unchanged by handshaking and I/O.
    pub open spec fn config_unchanged(pre: SslContext, post: SslContext) -> bool {
        &&& post.side == pre.side
        &&& post.conn_type == pre.conn_type
        &&& opt_bytes(post.peer_domain_name) == opt_bytes(pre.peer_domain_name)
        &&& opt_bytes(post.peer_id) == opt_bytes(pre.peer_id)
        &&& post.enabled@ == pre.enabled@
        &&& post.auth == pre.auth
        &&& post.break_on_server_auth == pre.break_on_server_auth
        &&& post.break_on_cert_requested == pre.break_on_cert_requested
        &&& post.break_on_client_auth == pre.break_on_client_auth
        &&& post.false_start == pre.false_start
        &&& post.send_one_byte_record == pre.send_one_byte_record
    }

    /// A freshly created engine: idle, nothing configured, every supported
    /// suite enabled.
    pub open spec fn is_fresh(self, side: ProtocolSide, conn_type: ConnectionType) -> bool {
        &&& self.side == side
        &&& self.conn_type == conn_type
        &&& self.state == SessionState::Idle
        &&& self.phase == HandshakePhase::Start
        &&& self.peer_domain_name is None
        &&& self.identity is None
        &&& self.certs@.len() == 0
        &&& self.peer_id is None
        &&& self.enabled@ == supported_suites()
        &&& self.negotiated is None
        &&& self.auth == SslAuthenticate::Never
        &&& self.client_cert_state == SslClientCertificateState::NoCertificate
        &&& !self.break_on_server_auth
        &&& !self.break_on_cert_requested
        &&& !self.break_on_client_auth
        &&& !self.false_start
        &&& !self.send_one_byte_record
        &&& self.peer_name_seen is None
        &&& self.in_buf@.len() == 0
        &&& self.plain_buf@.len() == 0
        &&& self.out_pending@.len() == 0
    }

    pub fn new(side: ProtocolSide, conn_type: ConnectionType) -> (r: Result<SslContext, Error>)
        ensures
            r matches Ok(ctx) && ctx.is_fresh(side, conn_type),
            r matches Ok(ctx) && ctx.wf(),
    {
        let ctx = SslContext {
            side,
            conn_type,
            state: SessionState::Idle,
            phase: HandshakePhase::Start,
            peer_domain_name: None,
            identity: None,
            certs: Vec::new(),
            peer_id: None,
            enabled: supported_list(),
            negotiated: None,
            auth: SslAuthenticate::Never,
            client_cert_state: SslClientCertificateState::NoCertificate,
            break_on_server_auth: false,
            break_on_cert_requested: false,
            break_on_client_auth: false,
            false_start: false,
            send_one_byte_record: false,
            peer_name_seen: None,
            in_buf: Vec::new(),
            plain_buf: Vec::new(),
            out_pending: Vec::new(),
        };
        Ok(ctx)
    }

    /// Set the peer name the handshake must see in the server's identity.
    pub fn set_peer_domain_name(&mut self, peer_name: &str) -> (r: Result<(), Error>)
        requires
            old(self).wf(),
        ensures
            final(self).wf(),
            old(self).state != SessionState::Idle ==> r == Err::<(), Error>(Error::BadRequest)
                && *final(self) == *old(self),
            old(self).state == SessionState::Idle && peer_name.spec_bytes().len() <= MAX_NAME_LEN
                ==> r is Ok,
            old(self).state == SessionState::Idle && peer_name.spec_bytes().len() <= MAX_NAME_LEN
                ==> (final(self).peer_domain_name matches Some(v) && v@ == peer_name.spec_bytes()),
            old(self).state == SessionState::Idle && peer_name.spec_bytes().len() <= MAX_NAME_LEN
                ==> *final(self) == (SslContext {
                peer_domain_name: final(self).peer_domain_name,
                ..*old(self)
            }),
            old(self).state == SessionState::Idle && peer_name.spec_bytes().len() > MAX_NAME_LEN
                ==> r == Err::<(), Error>(Error::IllegalParam) && *final(self) == *old(self),
    {
        if !matches!(self.state, SessionState::Idle) {
            return Err(Error::BadRequest);
        }
        let bytes = peer_name.as_bytes_vec();
        if bytes.len() > MAX_NAME_LEN {
            return Err(Error::IllegalParam);
        }
        self.peer_domain_name = Some(bytes);
        Ok(())
    }

    /// Bind the local identity and certificate chain presented during the
    /// handshake.
    pub fn set_certificate(&mut self, identity: &SecIdentity, certs: &Vec<SecCertificate>) -> (r:
        Result<(), Error>)
        requires
            old(self).wf(),
        ensures
            final(self).wf(),
            identity.name@.len() <= MAX_NAME_LEN ==> r is Ok,
            identity.name@.len() <= MAX_NAME_LEN ==> (final(self).identity matches Some(id)
                && id.name@ == identity.name@),
            identity.name@.len() <= MAX_NAME_LEN ==> final(self).certs@.len() == certs@.len(),
            identity.name@.len() <= MAX_NAME_LEN ==> (forall|i: int|
                0 <= i < certs@.len() ==> (#[trigger] final(self).certs@[i]).der@
                    == certs@[i].der@),
            identity.name@.len() <= MAX_NAME_LEN ==> *final(self) == (SslContext {
                identity: final(self).identity,
                certs: final(self).certs,
                ..*old(self)
            }),
            identity.name@.len() > MAX_NAME_LEN ==> r == Err::<(), Error>(Error::IllegalParam)
                && *final(self) == *old(self),
    {
        if identity.name.len() > MAX_NAME_LEN {
            return Err(Error::IllegalParam);
        }
        let mut chain: Vec<SecCertificate> = Vec::new();
        let mut i: usize = 0;
        while i < certs.len()
            invariant
                *self == *old(self),
                old(self).wf(),
                i <= certs@.len(),
                chain@.len() == i,
                forall|j: int| 0 <= j < i ==> (#[trigger] chain@[j]).der@ == certs@[j].der@,
            decreases certs@.len() - i,
        {
            chain.push(SecCertificate { der: copy_bytes(&certs[i].der) });
            i = i + 1;
        }
        self.identity = Some(SecIdentity { name: copy_bytes(&identity.name) });
        self.certs = chain;
        Ok(())
    }

    /// The opaque peer-session identifier, if one was set.
    pub fn peer_id(&self) -> (r: Result<Option<Vec<u8>>, Error>)
        ensures
            r matches Ok(o) && opt_bytes(o) == opt_bytes(self.peer_id),
    {
        match &self.peer_id {
            Some(v) => Ok(Some(copy_bytes(v))),
            None => Ok(None),
        }
    }

    /// Set the opaque peer-session identifier used to correlate session
    /// resumption.
    pub fn set_peer_id(&mut self, peer_id: &Vec<u8>) -> (r: Result<(), Error>)
        requires
            old(self).wf(),
        ensures
            final(self).wf(),
            r is Ok,
            final(self).peer_id matches Some(v) && v@ == peer_id@,
            *final(self) == (SslContext { peer_id: final(self).peer_id, ..*old(self) }),
    {
        self.peer_id = Some(copy_bytes(peer_id));
        Ok(())
    }

    /// Every suite the engine can enable, in preference order.
    pub fn supported_ciphers(&self) -> (r: Result<Vec<CipherSuite>, Error>)
        ensures
            r matches Ok(v) && v@ == supported_suites(),
    {
        Ok(supported_list())
    }

    /// The currently enabled suites, in the order they were set.
    pub fn enabled_ciphers(&self) -> (r: Result<Vec<CipherSuite>, Error>)
        ensures
            r matches Ok(v) && v@ == self.enabled@,
    {
        let mut v: Vec<CipherSuite> = Vec::new();
        let mut i: usize = 0;
        while i < self.enabled.len()
            invariant
                i <= self.enabled@.len(),
                v@ == self.enabled@.take(i as int),
            decreases self.enabled@.len() - i,
        {
            v.push(self.enabled[i]);
            i = i + 1;
            proof {
                assert(v@ =~= self.enabled@.take(i as int));
            }
        }
        proof {
            assert(self.enabled@.take(self.enabled@.len() as int) =~= self.enabled@);
        }
        Ok(v)
    }

    /// Replace the enabled suites.  Order is preserved and later
    /// observable; a selection with an unsupported suite (or too many to
    /// offer) is rejected whole.
    pub fn set_enabled_ciphers(&mut self, ciphers: &Vec<CipherSuite>) -> (r: Result<(), Error>)
        requires
            old(self).wf(),
        ensures
            final(self).wf(),
            old(self).state != SessionState::Idle ==> r == Err::<(), Error>(Error::BadRequest)
                && *final(self) == *old(self),
            old(self).state == SessionState::Idle && valid_cipher_selection(ciphers@) ==> r is Ok,
            old(self).state == SessionState::Idle && valid_cipher_selection(ciphers@)
                ==> final(self).enabled@ == ciphers@,
            old(self).state == SessionState::Idle && valid_cipher_selection(ciphers@)
                ==> *final(self) == (SslContext { enabled: final(self).enabled, ..*old(self) }),
            old(self).state == SessionState::Idle && !valid_cipher_selection(ciphers@) ==> r
                == Err::<(), Error>(Error::IllegalParam) && *final(self) == *old(self),
    {
        if !matches!(self.state, SessionState::Idle) {
            return Err(Error::BadRequest);
        }
        if ciphers.len() > 255 {
            return Err(Error::IllegalParam);
        }
        let mut i: usize = 0;
        while i < ciphers.len()
            invariant
                *self == *old(self),
                old(self).wf(),
                old(self).state == SessionState::Idle,
                i <= ciphers@.len(),
                forall|j: int|
                    0 <= j < i ==> supported_suites().contains(#[trigger] ciphers@[j]),
            decreases ciphers@.len() - i,
        {
            if !is_supported(&ciphers[i]) {
                return Err(Error::IllegalParam);
            }
            i = i + 1;
        }
        let mut v: Vec<CipherSuite> = Vec::new();
        let mut k: usize = 0;
        while k < ciphers.len()
            invariant
                *self == *old(self),
                old(self).wf(),
                old(self).state == SessionState::Idle,
                k <= ciphers@.len(),
                v@ == ciphers@.take(k as int),
            decreases ciphers@.len() - k,
        {
            v.push(ciphers[k]);
            k = k + 1;
            proof {
                assert(v@ =~= ciphers@.take(k as int));
            }
        }
        proof {
            assert(ciphers@.take(ciphers@.len() as int) =~= ciphers@);
        }
        self.enabled = v;
        Ok(())
    }

    /// The suite the handshake agreed on.  Fails while none is negotiated.
    pub fn negotiated_cipher(&self) -> (r: Result<CipherSuite, Error>)
        ensures
            match r {
                Ok(c) => self.negotiated == Some(c),
                Err(e) => self.negotiated is None && e == Error::BadRequest,
            },
            self.wf() ==> (r matches Ok(c) ==> self.enabled@.contains(c)),
    {
        match self.negotiated {
            Some(c) => Ok(c),
            None => Err(Error::BadRequest),
        }
    }

    /// Set the client-authentication policy the server announces.
    pub fn set_client_side_authenticate(&mut self, auth: SslAuthenticate) -> (r: Result<(), Error>)
        requires
            old(self).wf(),
        ensures
            final(self).wf(),
            r is Ok,
            *final(self) == (SslContext { auth, ..*old(self) }),
    {
        self.auth = auth;
        Ok(())
    }

    /// How far the client certificate exchange has come.
    pub fn client_certificate_state(&self) -> (r: Result<SslClientCertificateState, Error>)
        ensures
            r matches Ok(s) && s == self.client_cert_state,
    {
        Ok(self.client_cert_state)
    }

    /// The trust evaluation for the peer.  Undefined while the session is
    /// idle, so that case is rejected; afterwards it always succeeds.
    pub fn peer_trust(&self) -> (r: Result<SecTrust, Error>)
        ensures
            self.state == SessionState::Idle ==> r == Err::<SecTrust, Error>(Error::BadRequest),
            self.state != SessionState::Idle ==> (r matches Ok(t) && opt_bytes(t.peer_name)
                == opt_bytes(self.peer_name_seen)),
    {
        if self.state == SessionState::Idle {
            return Err(Error::BadRequest);
        }
        match &self.peer_name_seen {
            Some(v) => Ok(SecTrust { peer_name: Some(copy_bytes(v)) }),
            None => Ok(SecTrust { peer_name: None }),
        }
    }

    /// The session's lifecycle state.
    pub fn state(&self) -> (r: Result<SessionState, Error>)
        ensures
            r == Ok::<SessionState, Error>(self.state),
    {
        Ok(self.state)
    }

    /// Plaintext already received into the engine, not yet delivered.
    pub fn buffered_read_size(&self) -> (r: Result<usize, Error>)
        ensures
            r matches Ok(n) && n == self.plain_buf@.len(),
    {
        Ok(self.plain_buf.len())
    }

    /// The value of one enumerable session option.
    pub open spec fn spec_option_value(self, option: SessionOption) -> bool {
        match option {
            SessionOption::BreakOnServerAuth => self.break_on_server_auth,
            SessionOption::BreakOnCertRequested => self.break_on_cert_requested,
            SessionOption::BreakOnClientAuth => self.break_on_client_auth,
            SessionOption::FalseStart => self.false_start,
            SessionOption::SendOneByteRecord => self.send_one_byte_record,
        }
    }

    pub fn session_option(&self, option: SessionOption) -> (r: Result<bool, Error>)
        ensures
            r == Ok::<bool, Error>(self.spec_option_value(option)),
    {
        let v = match option {
            SessionOption::BreakOnServerAuth => self.break_on_server_auth,
            SessionOption::BreakOnCertRequested => self.break_on_cert_requested,
            SessionOption::BreakOnClientAuth => self.break_on_client_auth,
            SessionOption::FalseStart => self.false_start,
            SessionOption::SendOneByteRecord => self.send_one_byte_record,
        };
        Ok(v)
    }

    pub fn set_session_option(&mut self, option: SessionOption, value: bool) -> (r: Result<
        (),
        Error,
    >)
        requires
            old(self).wf(),
        ensures
            final(self).wf(),
            r is Ok,
            final(self).spec_option_value(option) == value,
            forall|o: SessionOption|
                o != option ==> final(self).spec_option_value(o) == old(self).spec_option_value(o),
            final(self).state == old(self).state,
            final(self).phase == old(self).phase,
            *final(self) == (SslContext {
                break_on_server_auth: final(self).break_on_server_auth,
                break_on_cert_requested: final(self).break_on_cert_requested,
                break_on_client_auth: final(self).break_on_client_auth,
                false_start: final(self).false_start,
                send_one_byte_record: final(self).send_one_byte_record,
                ..*old(self)
            }),
    {
        match option {
            SessionOption::BreakOnServerAuth => {
                self.break_on_server_auth = value;
            },
            SessionOption::BreakOnCertRequested => {
                self.break_on_cert_requested = value;
            },
            SessionOption::BreakOnClientAuth => {
                self.break_on_client_auth = value;
            },
            SessionOption::FalseStart => {
                self.false_start = value;
            },
            SessionOption::SendOneByteRecord => {
                self.send_one_byte_record = value;
            },
        }
        Ok(())
    }

    pub fn break_on_server_auth(&self) -> (r: Result<bool, Error>)
        ensures
            r == Ok::<bool, Error>(self.break_on_server_auth),
    {
        Ok(self.break_on_server_auth)
    }

    pub fn set_break_on_server_auth(&mut self, value: bool) -> (r: Result<(), Error>)
        requires
            old(self).wf(),
        ensures
            final(self).wf(),
            r is Ok,
            *final(self) == (SslContext { break_on_server_auth: value, ..*old(self) }),
    {
        self.break_on_server_auth = value;
        Ok(())
    }

    pub fn break_on_cert_requested(&self) -> (r: Result<bool, Error>)
        ensures
            r == Ok::<bool, Error>(self.break_on_cert_requested),
    {
        Ok(self.break_on_cert_requested)
    }

    pub fn set_break_on_cert_requested(&mut self, value: bool) -> (r: Result<(), Error>)
        requires
            old(self).wf(),
        ensures
            final(self).wf(),
            r is Ok,
            *final(self) == (SslContext { break_on_cert_requested: value, ..*old(self) }),
    {
        self.break_on_cert_requested = value;
        Ok(())
    }

    pub fn break_on_client_auth(&self) -> (r: Result<bool, Error>)
        ensures
            r == Ok::<bool, Error>(self.break_on_client_auth),
    {
        Ok(self.break_on_client_auth)
    }

    pub fn set_break_on_client_auth(&mut self, value: bool) -> (r: Result<(), Error>)
        requires
            old(self).wf(),
        ensures
            final(self).wf(),
            r is Ok,
            *final(self) == (SslContext { break_on_client_auth: value, ..*old(self) }),
    {
        self.break_on_client_auth = value;
        Ok(())
    }

    pub fn false_start(&self) -> (r: Result<bool, Error>)
        ensures
            r == Ok::<bool, Error>(self.false_start),
    {
        Ok(self.false_start)
    }

    pub fn set_false_start(&mut self, value: bool) -> (r: Result<(), Error>)
        requires
            old(self).wf(),
        ensures
            final(self).wf(),
            r is Ok,
            *final(self) == (SslContext { false_start: value, ..*old(self) }),
    {
        self.false_start = value;
        Ok(())
    }

    pub fn send_one_byte_record(&self) -> (r: Result<bool, Error>)
        ensures
            r == Ok::<bool, Error>(self.send_one_byte_record),
    {
        Ok(self.send_one_byte_record)
    }

    pub fn set_send_one_byte_record(&mut self, value: bool) -> (r: Result<(), Error>)
        requires
            old(self).wf(),
        ensures
            final(self).wf(),
            r is Ok,
            *final(self) == (SslContext { send_one_byte_record: value, ..*old(self) }),
    {
        self.send_one_byte_record = value;
        Ok(())
    }
}

/// An error a handshake attempt can fail with.
pub open spec fn handshake_failure(e: Error) -> bool {
    e == Error::ProtocolFailure || e == Error::UnexpectedEof || e == Error::MissingIdentity || e
        is Io
}

/// `post` extends `pre`: bytes already written are never rewritten.
pub open spec fn appended_only(pre: Seq<u8>, post: Seq<u8>) -> bool {
    pre.len() <= post.len() && pre == post.take(pre.len() as int)
}

/// `post` continues `pre`: some front part of `pre` was consumed, in
/// order, and the rest is untouched.
pub open spec fn consumed_in_order(pre: Seq<u8>, post: Seq<u8>) -> bool {
    post.len() <= pre.len() && post == pre.skip(pre.len() - post.len())
}

/// The inbound bytes an engine and its bound connection have not yet
/// decoded into a record.
pub open spec fn unread<S: Transport>(ctx: SslContext, conn: Connection<S>) -> Seq<u8> {
    ctx.in_buf@ + conn.stream.inbox()
}

/// No byte on either wire is lost, duplicated or reordered between two
/// engine states: written bytes only accumulate, and unread bytes are
/// consumed from the front.
pub open spec fn wire_faithful<S: Transport>(
    c1: SslContext,
    n1: Connection<S>,
    c2: SslContext,
    n2: Connection<S>,
) -> bool {
    appended_only(n1.stream.outbox(), n2.stream.outbox()) && consumed_in_order(
        unread(c1, n1),
        unread(c2, n2),
    )
}

/// One faithful step: `sent` was appended to the written stream and
/// `taken` was consumed from the front of the unread stream.
proof fn lemma_wire_step<S: Transport>(
    c1: SslContext,
    n1: Connection<S>,
    c2: SslContext,
    n2: Connection<S>,
    sent: Seq<u8>,
    taken: Seq<u8>,
)
    requires
        n2.stream.outbox() == n1.stream.outbox() + sent,
        unread(c1, n1) == taken + unread(c2, n2),
    ensures
        wire_faithful(c1, n1, c2, n2),
{
    assert((n1.stream.outbox() + sent).take(n1.stream.outbox().len() as int) =~= n1.stream.outbox());
    let x = unread(c1, n1);
    let y = unread(c2, n2);
    assert(y =~= x.skip(taken.len() as int));
}

/// States with the same wires are faithfully related.
proof fn lemma_wire_same<S: Transport>(
    c1: SslContext,
    n1: Connection<S>,
    c2: SslContext,
    n2: Connection<S>,
)
    requires
        n2.stream.outbox() == n1.stream.outbox(),
        c2.in_buf@ == c1.in_buf@,
        n2.stream.inbox() == n1.stream.inbox(),
    ensures
        wire_faithful(c1, n1, c2, n2),
{
    assert(n2.stream.outbox() =~= n1.stream.outbox() + Seq::<u8>::empty());
    assert(unread(c1, n1) =~= Seq::<u8>::empty() + unread(c2, n2));
    lemma_wire_step(c1, n1, c2, n2, Seq::empty(), Seq::empty());
}

/// Faithfulness composes.
proof fn lemma_wire_trans<S: Transport>(
    c1: SslContext,
    n1: Connection<S>,
    c2: SslContext,
    n2: Connection<S>,
    c3: SslContext,
    n3: Connection<S>,
)
    requires
        wire_faithful(c1, n1, c2, n2),
        wire_faithful(c2, n2, c3, n3),
    ensures
        wire_faithful(c1, n1, c3, n3),
{
    let a = n1.stream.outbox();
    let b = n2.stream.outbox();
    let c = n3.stream.outbox();
    assert(c.take(b.len() as int).take(a.len() as int) =~= c.take(a.len() as int));
    let x = unread(c1, n1);
    let y = unread(c2, n2);
    let z = unread(c3, n3);
    assert(x.skip(x.len() - y.len()).skip(y.len() - z.len()) =~= x.skip(x.len() - z.len()));
}

/// The engine has queued exactly one client hello carrying `enabled`:
/// the bytes written plus the bytes still queued extend the transport's
/// prior written stream by that one record.
pub open spec fn client_hello_queued(
    enabled: Seq<CipherSuite>,
    pre_out: Seq<u8>,
    post_out: Seq<u8>,
    queued: Seq<u8>,
) -> bool {
    exists|hello: Seq<u8>|
        is_cipher_list_bytes(enabled, hello) && post_out + queued == pre_out + record_bytes(
            TAG_CLIENT_HELLO,
            hello,
        )
}

/// The engine has queued exactly one server hello: it carries the
/// negotiated suite, the certificate request implied by `pre_auth`, and
/// the bound identity's name.
pub open spec fn server_hello_queued(
    pre_auth: SslAuthenticate,
    post: SslContext,
    pre_out: Seq<u8>,
    post_out: Seq<u8>,
) -> bool {
    exists|c: CipherSuite, f: bool, nm: Seq<u8>| #![trigger server_hello_bytes(c, f, nm)]
        f == !(pre_auth is Never) && post.negotiated == Some(c) && (post.identity matches Some(id)
            && id.name@ == nm) && post_out + post.out_pending@ == pre_out + record_bytes(
            TAG_SERVER_HELLO,
            server_hello_bytes(c, f, nm),
        )
}

/// The outcome of one handshake step.
enum StepOutcome {
    Done,
    AuthCompleted,
    CertRequested,
    Blocked,
    Fail(Error),
}

/// The outcome of draining queued bytes.
enum IoStep {
    Done,
    Blocked,
    Fatal(Error),
}

/// The outcome of assembling the next record.
enum RecordStep {
    Got(u8, Vec<u8>),
    Blocked,
    Closed,
    Fatal(Error),
}

/// Surface the captured transport error if one is pending (most
/// specific), else the given engine error.
fn take_error<S>(conn: &mut Connection<S>, fallback: Error) -> (r: Error)
    ensures
        final(conn).stream == old(conn).stream,
        final(conn).err is None,
        match old(conn).err {
            Some(e) => r == Error::Io(e),
            None => r == fallback,
        },
{
    match conn.err {
        Some(e) => {
            conn.err = None;
            Error::Io(e)
        },
        None => fallback,
    }
}

/// Drain the engine's queued bytes into the transport.  No byte is ever
/// lost or duplicated: the written stream plus the remaining queue is
/// exactly what it was before.
fn flush_pending<S: Transport>(ctx: &mut SslContext, conn: &mut Connection<S>) -> (r: IoStep)
    requires
        old(ctx).wf(),
    ensures
        final(ctx).wf(),
        final(conn).stream.inbox() == old(conn).stream.inbox(),
        final(conn).stream.outbox() + final(ctx).out_pending@
            == old(conn).stream.outbox() + old(ctx).out_pending@,
        *final(ctx) == (SslContext { out_pending: final(ctx).out_pending, ..*old(ctx) }),
        r is Done ==> final(ctx).out_pending@.len() == 0 && final(conn).err == old(conn).err,
        old(ctx).out_pending@.len() == 0 ==> r is Done,
        wire_faithful(*old(ctx), *old(conn), *final(ctx), *final(conn)),
        r is Blocked ==> (final(conn).err matches Some(te) && te.kind
            == TransportErrorKind::WouldBlock),
        r matches IoStep::Fatal(e) ==> e == Error::UnexpectedEof || e == Error::ProtocolFailure
            || e is Io,
        r matches IoStep::Fatal(e) && e is Io ==> final(conn).err is None,
        r matches IoStep::Fatal(e) ==> (!(e is Io) ==> e == Error::UnexpectedEof
            && final(conn).err == old(conn).err),
{
    let (n, status) = push(conn, &ctx.out_pending);
    let rest = ctx.out_pending.split_off(n);
    ctx.out_pending = rest;
    proof {
        assert(old(ctx).out_pending@.subrange(0, n as int) =~= old(ctx).out_pending@.take(n as int));
        assert((conn.stream.outbox() + ctx.out_pending@)
            =~= (old(conn).stream.outbox() + old(ctx).out_pending@));
        assert(unread(*old(ctx), *old(conn)) =~= Seq::<u8>::empty() + unread(*ctx, *conn));
        lemma_wire_step(
            *old(ctx),
            *old(conn),
            *ctx,
            *conn,
            old(ctx).out_pending@.take(n as int),
            Seq::empty(),
        );
    }
    match status {
        IoStatus::Success => IoStep::Done,
        IoStatus::WouldBlock => IoStep::Blocked,
        IoStatus::ClosedNoNotify => IoStep::Fatal(Error::UnexpectedEof),
        IoStatus::ClosedGraceful => IoStep::Fatal(take_error(conn, Error::UnexpectedEof)),
        IoStatus::ClosedAbrupt => IoStep::Fatal(take_error(conn, Error::UnexpectedEof)),
        IoStatus::Io => IoStep::Fatal(take_error(conn, Error::ProtocolFailure)),
    }
}

/// Best-effort drain of the engine's queued bytes.  Unlike
/// `flush_pending` it reports nothing and leaves a captured transport
/// error in place, so a later call can still surface it.
fn drain_pending<S: Transport>(ctx: &mut SslContext, conn: &mut Connection<S>)
    requires
        old(ctx).wf(),
    ensures
        final(ctx).wf(),
        final(conn).stream.inbox() == old(conn).stream.inbox(),
        final(conn).stream.outbox() + final(ctx).out_pending@
            == old(conn).stream.outbox() + old(ctx).out_pending@,
        *final(ctx) == (SslContext { out_pending: final(ctx).out_pending, ..*old(ctx) }),
        wire_faithful(*old(ctx), *old(conn), *final(ctx), *final(conn)),
{
    let (n, _status) = push(conn, &ctx.out_pending);
    let rest = ctx.out_pending.split_off(n);
    ctx.out_pending = rest;
    proof {
        assert(old(ctx).out_pending@.subrange(0, n as int) =~= old(ctx).out_pending@.take(n as int));
        assert((conn.stream.outbox() + ctx.out_pending@)
            =~= (old(conn).stream.outbox() + old(ctx).out_pending@));
        assert(unread(*old(ctx), *old(conn)) =~= Seq::<u8>::empty() + unread(*ctx, *conn));
        lemma_wire_step(
            *old(ctx),
            *old(conn),
            *ctx,
            *conn,
            old(ctx).out_pending@.take(n as int),
            Seq::empty(),
        );
    }
}

/// Pull from the transport until `in_buf` holds `target` bytes, or the
/// transport blocks, closes or fails.  Bytes are conserved: what the
/// transport loses, the buffer gains.
fn fill_in_buf<S: Transport>(ctx: &mut SslContext, conn: &mut Connection<S>, target: usize) -> (r:
    IoStatus)
    requires
        old(ctx).wf(),
        old(ctx).phase != HandshakePhase::Start,
        target <= RECORD_HEADER_LEN + MAX_RECORD_PAYLOAD,
    ensures
        final(ctx).wf(),
        final(conn).stream.outbox() == old(conn).stream.outbox(),
        *final(ctx) == (SslContext { in_buf: final(ctx).in_buf, ..*old(ctx) }),
        old(ctx).in_buf@ + old(conn).stream.inbox()
            == final(ctx).in_buf@ + final(conn).stream.inbox(),
        appended_only(old(ctx).in_buf@, final(ctx).in_buf@),
        wire_faithful(*old(ctx), *old(conn), *final(ctx), *final(conn)),
        (r == IoStatus::Success) <==> (final(ctx).in_buf@.len() >= target),
        captures(*old(conn), *final(conn), r),
{
    if ctx.in_buf.len() >= target {
        proof {
            assert(old(ctx).in_buf@ =~= ctx.in_buf@.take(old(ctx).in_buf@.len() as int));
            lemma_wire_same(*old(ctx), *old(conn), *ctx, *conn);
        }
        return IoStatus::Success;
    }
    let want = target - ctx.in_buf.len();
    let (bytes, status) = pull(conn, want);
    let mut bytes = bytes;
    ctx.in_buf.append(&mut bytes);
    proof {
        assert((ctx.in_buf@ + conn.stream.inbox())
            =~= (old(ctx).in_buf@ + old(conn).stream.inbox()));
        assert(old(ctx).in_buf@ =~= ctx.in_buf@.take(old(ctx).in_buf@.len() as int));
        assert(conn.stream.outbox() =~= old(conn).stream.outbox() + Seq::<u8>::empty());
        assert(unread(*old(ctx), *old(conn)) =~= Seq::<u8>::empty() + unread(*ctx, *conn));
        lemma_wire_step(*old(ctx), *old(conn), *ctx, *conn, Seq::empty(), Seq::empty());
    }
    status
}

/// Assemble the next record from buffered and freshly pulled bytes.
/// Bytes are conserved: what the transport loses, the buffer gains; a
/// delivered record accounts for exactly its own wire form.
#[verifier::rlimit(100)]
fn next_record<S: Transport>(ctx: &mut SslContext, conn: &mut Connection<S>) -> (r: RecordStep)
    requires
        old(ctx).wf(),
        old(ctx).phase != HandshakePhase::Start,
    ensures
        final(ctx).wf(),
        final(conn).stream.outbox() == old(conn).stream.outbox(),
        *final(ctx) == (SslContext { in_buf: final(ctx).in_buf, ..*old(ctx) }),
        wire_faithful(*old(ctx), *old(conn), *final(ctx), *final(conn)),
        match r {
            RecordStep::Got(tag, p) => p@.len() <= MAX_RECORD_PAYLOAD
                && old(ctx).in_buf@ + old(conn).stream.inbox()
                    == record_bytes(tag, p@) + final(ctx).in_buf@ + final(conn).stream.inbox()
                && final(conn).err == old(conn).err,
            RecordStep::Blocked => old(ctx).in_buf@ + old(conn).stream.inbox()
                == final(ctx).in_buf@ + final(conn).stream.inbox()
                && (final(conn).err matches Some(te) && te.kind
                == TransportErrorKind::WouldBlock),
            RecordStep::Closed => old(ctx).in_buf@ + old(conn).stream.inbox()
                == final(ctx).in_buf@ + final(conn).stream.inbox(),
            RecordStep::Fatal(e) => old(ctx).in_buf@ + old(conn).stream.inbox()
                == final(ctx).in_buf@ + final(conn).stream.inbox() && ((e
                == Error::ProtocolFailure && final(conn).err == old(conn).err) || (e
                matches Error::Io(te) && te.kind == TransportErrorKind::Other && final(conn).err
                is None)),
        },
{
    match fill_in_buf(ctx, conn, RECORD_HEADER_LEN) {
        IoStatus::Success => {},
        IoStatus::WouldBlock => {
            return RecordStep::Blocked;
        },
        IoStatus::Io => {
            return RecordStep::Fatal(take_error(conn, Error::ProtocolFailure));
        },
        _ => {
            return RecordStep::Closed;
        },
    }
    let plen = header_payload_len(&ctx.in_buf) as usize;
    if plen > MAX_RECORD_PAYLOAD {
        return RecordStep::Fatal(Error::ProtocolFailure);
    }
    let ghost c1 = *ctx;
    let ghost n1 = *conn;
    match fill_in_buf(ctx, conn, RECORD_HEADER_LEN + plen) {
        IoStatus::Success => {
            proof {
                lemma_wire_trans(*old(ctx), *old(conn), c1, n1, *ctx, *conn);
            }
        },
        IoStatus::WouldBlock => {
            proof {
                lemma_wire_trans(*old(ctx), *old(conn), c1, n1, *ctx, *conn);
            }
            return RecordStep::Blocked;
        },
        IoStatus::Io => {
            proof {
                lemma_wire_trans(*old(ctx), *old(conn), c1, n1, *ctx, *conn);
            }
            return RecordStep::Fatal(take_error(conn, Error::ProtocolFailure));
        },
        _ => {
            proof {
                lemma_wire_trans(*old(ctx), *old(conn), c1, n1, *ctx, *conn);
            }
            return RecordStep::Closed;
        },
    }
    proof {
        // the header the first fill completed is untouched by the second
        assert(ctx.in_buf@.subrange(1, 5) =~= c1.in_buf@.subrange(1, 5));
    }
    let ghost c2 = *ctx;
    let ghost n2 = *conn;
    let (tag, payload) = split_record(&mut ctx.in_buf);
    proof {
        assert(unread(c2, n2) =~= record_bytes(tag, payload@) + unread(*ctx, *conn));
        assert(conn.stream.outbox() =~= n2.stream.outbox() + Seq::<u8>::empty());
        lemma_wire_step(c2, n2, *ctx, *conn, Seq::empty(), record_bytes(tag, payload@));
        lemma_wire_trans(*old(ctx), *old(conn), c2, n2, *ctx, *conn);
        assert((old(ctx).in_buf@ + old(conn).stream.inbox()) =~= (record_bytes(tag, payload@)
            + ctx.in_buf@ + conn.stream.inbox()));
    }
    RecordStep::Got(tag, payload)
}

/// Whether two byte vectors hold the same bytes.
fn bytes_eq(a: &Vec<u8>, b: &Vec<u8>) -> (r: bool)
    ensures
        r == (a@ == b@),
{
    if a.len() != b.len() {
        return false;
    }
    let mut i: usize = 0;
    while i < a.len()
        invariant
            i <= a@.len(),
            a@.len() == b@.len(),
            forall|j: int| 0 <= j < i ==> a@[j] == b@[j],
        decreases a@.len() - i,
    {
        if a[i] != b[i] {
            return false;
        }
        i = i + 1;
    }
    proof {
        assert(a@ =~= b@);
    }
    true
}

/// Whether `v` holds `c`.
fn cipher_in(v: &Vec<CipherSuite>, c: CipherSuite) -> (r: bool)
    ensures
        r == v@.contains(c),
{
    let mut i: usize = 0;
    while i < v.len()
        invariant
            i <= v@.len(),
            forall|j: int| 0 <= j < i ==> v@[j] != c,
        decreases v@.len() - i,
    {
        if v[i] == c {
            return true;
        }
        i = i + 1;
    }
    false
}

/// The first of the server's suites the client offered, if any.
fn find_common(server_pref: &Vec<CipherSuite>, offered: &Vec<CipherSuite>) -> (r: Option<
    CipherSuite,
>)
    ensures
        match r {
            Some(c) => server_pref@.contains(c) && offered@.contains(c),
            None => forall|k: int|
                0 <= k < server_pref@.len() ==> !offered@.contains(#[trigger] server_pref@[k]),
        },
{
    let mut i: usize = 0;
    while i < server_pref.len()
        invariant
            i <= server_pref@.len(),
            forall|k: int| 0 <= k < i ==> !offered@.contains(#[trigger] server_pref@[k]),
        decreases server_pref@.len() - i,
    {
        if cipher_in(offered, server_pref[i]) {
            return Some(server_pref[i]);
        }
        i = i + 1;
    }
    None
}

/// Drive a client handshake as far as it will go in one step.
#[verifier::rlimit(100)]
fn step_client<S: Transport>(ctx: &mut SslContext, conn: &mut Connection<S>) -> (r: StepOutcome)
    requires
        old(ctx).wf(),
        old(ctx).side == ProtocolSide::Client,
        old(ctx).state == SessionState::Handshake,
    ensures
        final(ctx).wf(),
        SslContext::config_unchanged(*old(ctx), *final(ctx)),
        wire_faithful(*old(ctx), *old(conn), *final(ctx), *final(conn)),
        r matches StepOutcome::Fail(e) ==> e != Error::MissingIdentity,
        old(ctx).phase == HandshakePhase::Start && final(ctx).phase
            == HandshakePhase::AwaitServerHello && !(r is Fail) ==> client_hello_queued(
            old(ctx).enabled@,
            old(conn).stream.outbox(),
            final(conn).stream.outbox(),
            final(ctx).out_pending@,
        ),
        match r {
            StepOutcome::Done => final(ctx).state == SessionState::Connected && final(ctx).phase
                == HandshakePhase::Established && final(ctx).name_checked() && final(ctx).negotiated
                is Some,
            StepOutcome::Fail(e) => (final(ctx).state == SessionState::Aborted || final(ctx).state
                == SessionState::Closed) && handshake_failure(e),
            _ => final(ctx).state == SessionState::Handshake,
        },
{
    proof {
        lemma_wire_same(*old(ctx), *old(conn), *ctx, *conn);
    }
    let ghost mut g_hello: Seq<u8> = Seq::empty();
    if matches!(ctx.phase, HandshakePhase::Start) {
        let hello = encode_cipher_list(&ctx.enabled);
        proof {
            g_hello = hello@;
        }
        let rec = encode_record(TAG_CLIENT_HELLO, &hello);
        ctx.out_pending = rec;
        ctx.phase = HandshakePhase::AwaitServerHello;
    }
    if matches!(ctx.phase, HandshakePhase::AwaitServerHello) {
        match flush_pending(ctx, conn) {
            IoStep::Done => {},
            IoStep::Blocked => {
                proof {
                    if old(ctx).phase == HandshakePhase::Start {
                        assert((conn.stream.outbox() + ctx.out_pending@) =~= (old(
                            conn,
                        ).stream.outbox() + record_bytes(TAG_CLIENT_HELLO, g_hello)));
                    }
                }
                return StepOutcome::Blocked;
            },
            IoStep::Fatal(e) => {
                ctx.state = SessionState::Aborted;
                return StepOutcome::Fail(e);
            },
        }
        let ghost mc = *ctx;
        let ghost mn = *conn;
        match next_record(ctx, conn) {
            RecordStep::Got(tag, payload) => {
                proof {
                    lemma_wire_trans(*old(ctx), *old(conn), mc, mn, *ctx, *conn);
                }
                if tag != TAG_SERVER_HELLO {
                    ctx.state = SessionState::Aborted;
                    return StepOutcome::Fail(Error::ProtocolFailure);
                }
                match decode_server_hello(&payload) {
                    None => {
                        ctx.state = SessionState::Aborted;
                        return StepOutcome::Fail(Error::ProtocolFailure);
                    },
                    Some((cipher, cert_req, name)) => {
                        let name_ok = match &ctx.peer_domain_name {
                            Some(exp) => bytes_eq(exp, &name),
                            None => true,
                        };
                        if !name_ok {
                            ctx.state = SessionState::Aborted;
                            return StepOutcome::Fail(Error::ProtocolFailure);
                        }
                        if !cipher_in(&ctx.enabled, cipher) {
                            ctx.state = SessionState::Aborted;
                            return StepOutcome::Fail(Error::ProtocolFailure);
                        }
                        ctx.negotiated = Some(cipher);
                        ctx.peer_name_seen = Some(name);
                        if cert_req {
                            ctx.client_cert_state = SslClientCertificateState::Requested;
                        }
                        ctx.phase = HandshakePhase::AuthPoint;
                        if ctx.break_on_server_auth {
                            return StepOutcome::AuthCompleted;
                        }
                    },
                }
            },
            RecordStep::Blocked => {
                proof {
                    lemma_wire_trans(*old(ctx), *old(conn), mc, mn, *ctx, *conn);
                    if old(ctx).phase == HandshakePhase::Start {
                        assert((conn.stream.outbox() + ctx.out_pending@) =~= (old(
                            conn,
                        ).stream.outbox() + record_bytes(TAG_CLIENT_HELLO, g_hello)));
                    }
                }
                return StepOutcome::Blocked;
            },
            RecordStep::Closed => {
                proof {
                    lemma_wire_trans(*old(ctx), *old(conn), mc, mn, *ctx, *conn);
                }
                ctx.state = SessionState::Closed;
                return StepOutcome::Fail(Error::UnexpectedEof);
            },
            RecordStep::Fatal(e) => {
                proof {
                    lemma_wire_trans(*old(ctx), *old(conn), mc, mn, *ctx, *conn);
                }
                ctx.state = SessionState::Aborted;
                return StepOutcome::Fail(e);
            },
        }
    }
    if matches!(ctx.phase, HandshakePhase::AuthPoint) {
        ctx.phase = HandshakePhase::CertPoint;
        if matches!(ctx.client_cert_state, SslClientCertificateState::Requested)
            && ctx.break_on_cert_requested {
            return StepOutcome::CertRequested;
        }
    }
    if matches!(ctx.phase, HandshakePhase::CertPoint) {
        let cert_name: Option<Vec<u8>> = if matches!(
            ctx.client_cert_state,
            SslClientCertificateState::Requested,
        ) {
            match &ctx.identity {
                Some(id) => Some(copy_bytes(&id.name)),
                None => None,
            }
        } else {
            None
        };
        if cert_name.is_some() {
            ctx.client_cert_state = SslClientCertificateState::Sent;
        }
        let body = encode_finished(&cert_name);
        let rec = encode_record(TAG_FINISHED, &body);
        ctx.out_pending = rec;
        ctx.phase = HandshakePhase::Finishing;
    }
    let ghost fc = *ctx;
    let ghost fn1 = *conn;
    match flush_pending(ctx, conn) {
        IoStep::Done => {
            proof {
                lemma_wire_trans(*old(ctx), *old(conn), fc, fn1, *ctx, *conn);
            }
            ctx.state = SessionState::Connected;
            ctx.phase = HandshakePhase::Established;
            StepOutcome::Done
        },
        IoStep::Blocked => {
            proof {
                lemma_wire_trans(*old(ctx), *old(conn), fc, fn1, *ctx, *conn);
            }
            StepOutcome::Blocked
        },
        IoStep::Fatal(e) => {
            proof {
                lemma_wire_trans(*old(ctx), *old(conn), fc, fn1, *ctx, *conn);
            }
            ctx.state = SessionState::Aborted;
            StepOutcome::Fail(e)
        },
    }
}

/// Act on a received client hello: negotiate a suite and queue the
/// server hello.
#[verifier::rlimit(60)]
fn process_client_hello(ctx: &mut SslContext, payload: &Vec<u8>) -> (r: Option<Error>)
    requires
        old(ctx).wf(),
        old(ctx).side == ProtocolSide::Server,
        old(ctx).state == SessionState::Handshake,
        old(ctx).phase == HandshakePhase::AwaitClientHello,
        old(ctx).identity is Some,
    ensures
        final(ctx).wf(),
        SslContext::config_unchanged(*old(ctx), *final(ctx)),
        final(ctx).in_buf == old(ctx).in_buf,
        match r {
            None => final(ctx).state == SessionState::Handshake && final(ctx).phase
                == HandshakePhase::AwaitFinished && (final(ctx).negotiated matches Some(c)
                && final(ctx).identity matches Some(id) && final(ctx).out_pending@ == record_bytes(
                TAG_SERVER_HELLO,
                server_hello_bytes(c, !(old(ctx).auth is Never), id.name@),
            )),
            Some(e) => final(ctx).state == SessionState::Aborted && e == Error::ProtocolFailure,
        },
{
    match decode_cipher_list(payload) {
        None => {
            ctx.state = SessionState::Aborted;
            Some(Error::ProtocolFailure)
        },
        Some(offered) => {
            let chosen = match find_common(&ctx.enabled, &offered) {
                Some(c) => c,
                None => {
                    ctx.state = SessionState::Aborted;
                    return Some(Error::ProtocolFailure);
                },
            };
            ctx.negotiated = Some(chosen);
            let cert_req = !matches!(ctx.auth, SslAuthenticate::Never);
            if cert_req {
                ctx.client_cert_state = SslClientCertificateState::Requested;
            }
            let name = match &ctx.identity {
                Some(id) => copy_bytes(&id.name),
                None => Vec::new(),
            };
            let body = encode_server_hello(chosen, cert_req, &name);
            let rec = encode_record(TAG_SERVER_HELLO, &body);
            ctx.out_pending = rec;
            ctx.phase = HandshakePhase::AwaitFinished;
            None
        },
    }
}

/// Act on a received finished message: record the client certificate,
/// or refuse a missing required one.
#[verifier::rlimit(60)]
fn process_finished(ctx: &mut SslContext, payload: &Vec<u8>) -> (r: Result<bool, Error>)
    requires
        old(ctx).wf(),
        old(ctx).side == ProtocolSide::Server,
        old(ctx).state == SessionState::Handshake,
        old(ctx).phase == HandshakePhase::AwaitFinished,
    ensures
        final(ctx).wf(),
        SslContext::config_unchanged(*old(ctx), *final(ctx)),
        final(ctx).in_buf == old(ctx).in_buf,
        final(ctx).out_pending == old(ctx).out_pending,
        match r {
            Ok(got_cert) => final(ctx).state == SessionState::Handshake && final(ctx).phase
                == HandshakePhase::ServerFinish,
            Err(e) => final(ctx).state == SessionState::Aborted && e == Error::ProtocolFailure,
        },
{
    match decode_finished(payload) {
        None => {
            ctx.state = SessionState::Aborted;
            Err(Error::ProtocolFailure)
        },
        Some(cert_name) => {
            let mut got_cert = false;
            match cert_name {
                Some(nm) => {
                    ctx.client_cert_state = SslClientCertificateState::Sent;
                    ctx.peer_name_seen = Some(nm);
                    got_cert = true;
                },
                None => {
                    if matches!(ctx.auth, SslAuthenticate::Always) && matches!(
                        ctx.client_cert_state,
                        SslClientCertificateState::Requested,
                    ) {
                        ctx.client_cert_state = SslClientCertificateState::Rejected;
                        ctx.state = SessionState::Aborted;
                        return Err(Error::ProtocolFailure);
                    }
                },
            }
            ctx.phase = HandshakePhase::ServerFinish;
            Ok(got_cert)
        },
    }
}

/// Drain the queued server hello, then accept the peer's finished
/// message.  `Done` means the exchange is complete and the step may
/// conclude the handshake.
#[verifier::rlimit(100)]
fn server_await_finished<S: Transport>(ctx: &mut SslContext, conn: &mut Connection<S>) -> (r:
    StepOutcome)
    requires
        old(ctx).wf(),
        old(ctx).side == ProtocolSide::Server,
        old(ctx).state == SessionState::Handshake,
        old(ctx).phase == HandshakePhase::AwaitFinished,
    ensures
        final(ctx).wf(),
        SslContext::config_unchanged(*old(ctx), *final(ctx)),
        wire_faithful(*old(ctx), *old(conn), *final(ctx), *final(conn)),
        !(r is CertRequested),
        r is Done ==> final(ctx).state == SessionState::Handshake && final(ctx).phase
            == HandshakePhase::ServerFinish,
        r is AuthCompleted ==> final(ctx).state == SessionState::Handshake && final(ctx).phase
            == HandshakePhase::ServerFinish,
        r is Blocked ==> final(ctx).state == SessionState::Handshake && final(ctx).phase
            == HandshakePhase::AwaitFinished
            && final(conn).stream.outbox() + final(ctx).out_pending@
                == old(conn).stream.outbox() + old(ctx).out_pending@
            && final(ctx).negotiated == old(ctx).negotiated
            && final(ctx).identity == old(ctx).identity,
        r matches StepOutcome::Fail(e) ==> (final(ctx).state == SessionState::Aborted
            || final(ctx).state == SessionState::Closed) && handshake_failure(e) && e
            != Error::MissingIdentity,
{
    let ghost g1c = *ctx;
    let ghost g1n = *conn;
    match flush_pending(ctx, conn) {
        IoStep::Done => {},
        IoStep::Blocked => {
            return StepOutcome::Blocked;
        },
        IoStep::Fatal(e) => {
            ctx.state = SessionState::Aborted;
            return StepOutcome::Fail(e);
        },
    }
    let ghost g2c = *ctx;
    let ghost g2n = *conn;
    match next_record(ctx, conn) {
        RecordStep::Got(tag, payload) => {
            proof {
                lemma_wire_trans(*old(ctx), *old(conn), g2c, g2n, *ctx, *conn);
            }
            if tag != TAG_FINISHED {
                ctx.state = SessionState::Aborted;
                return StepOutcome::Fail(Error::ProtocolFailure);
            }
            match process_finished(ctx, &payload) {
                Err(e) => {
                    return StepOutcome::Fail(e);
                },
                Ok(got_cert) => {
                    if got_cert && ctx.break_on_client_auth {
                        return StepOutcome::AuthCompleted;
                    }
                },
            }
        },
        RecordStep::Blocked => {
            proof {
                lemma_wire_trans(*old(ctx), *old(conn), g2c, g2n, *ctx, *conn);
            }
            return StepOutcome::Blocked;
        },
        RecordStep::Closed => {
            proof {
                lemma_wire_trans(*old(ctx), *old(conn), g2c, g2n, *ctx, *conn);
            }
            ctx.state = SessionState::Closed;
            return StepOutcome::Fail(Error::UnexpectedEof);
        },
        RecordStep::Fatal(e) => {
            proof {
                lemma_wire_trans(*old(ctx), *old(conn), g2c, g2n, *ctx, *conn);
            }
            ctx.state = SessionState::Aborted;
            return StepOutcome::Fail(e);
        },
    }
    StepOutcome::Done
}

/// Drive a server handshake as far as it will go in one step.
#[verifier::rlimit(100)]
fn step_server<S: Transport>(ctx: &mut SslContext, conn: &mut Connection<S>) -> (r: StepOutcome)
    requires
        old(ctx).wf(),
        old(ctx).side == ProtocolSide::Server,
        old(ctx).state == SessionState::Handshake,
    ensures
        final(ctx).wf(),
        SslContext::config_unchanged(*old(ctx), *final(ctx)),
        wire_faithful(*old(ctx), *old(conn), *final(ctx), *final(conn)),
        old(ctx).identity is None && (old(ctx).phase == HandshakePhase::Start || old(ctx).phase
            == HandshakePhase::AwaitClientHello) ==> (r matches StepOutcome::Fail(e) && e
            == Error::MissingIdentity),
        r matches StepOutcome::Fail(e) ==> (e == Error::MissingIdentity ==> old(ctx).identity
            is None && (old(ctx).phase == HandshakePhase::Start || old(ctx).phase
            == HandshakePhase::AwaitClientHello)),
        (old(ctx).phase == HandshakePhase::Start || old(ctx).phase
            == HandshakePhase::AwaitClientHello) && final(ctx).phase
            == HandshakePhase::AwaitClientHello && !(r is Fail) ==> final(conn).stream.outbox()
            == old(conn).stream.outbox() && final(ctx).out_pending@.len() == 0,
        (old(ctx).phase == HandshakePhase::Start || old(ctx).phase
            == HandshakePhase::AwaitClientHello) && final(ctx).phase
            == HandshakePhase::AwaitFinished && !(r is Fail) ==> server_hello_queued(
            old(ctx).auth,
            *final(ctx),
            old(conn).stream.outbox(),
            final(conn).stream.outbox(),
        ),
        match r {
            StepOutcome::Done => final(ctx).state == SessionState::Connected && final(ctx).phase
                == HandshakePhase::Established && final(ctx).negotiated is Some,
            StepOutcome::Fail(e) => (final(ctx).state == SessionState::Aborted || final(ctx).state
                == SessionState::Closed) && handshake_failure(e),
            _ => final(ctx).state == SessionState::Handshake,
        },
{
    proof {
        lemma_wire_same(*old(ctx), *old(conn), *ctx, *conn);
    }
    if matches!(ctx.phase, HandshakePhase::Start) {
        ctx.phase = HandshakePhase::AwaitClientHello;
    }
    if matches!(ctx.phase, HandshakePhase::AwaitClientHello) {
        if ctx.identity.is_none() {
            ctx.state = SessionState::Aborted;
            return StepOutcome::Fail(Error::MissingIdentity);
        }
        match next_record(ctx, conn) {
            RecordStep::Got(tag, payload) => {
                if tag != TAG_CLIENT_HELLO {
                    ctx.state = SessionState::Aborted;
                    return StepOutcome::Fail(Error::ProtocolFailure);
                }
                match process_client_hello(ctx, &payload) {
                    Some(e) => {
                        return StepOutcome::Fail(e);
                    },
                    None => {},
                }
            },
            RecordStep::Blocked => {
                return StepOutcome::Blocked;
            },
            RecordStep::Closed => {
                ctx.state = SessionState::Closed;
                return StepOutcome::Fail(Error::UnexpectedEof);
            },
            RecordStep::Fatal(e) => {
                ctx.state = SessionState::Aborted;
                return StepOutcome::Fail(e);
            },
        }
    }
    if matches!(ctx.phase, HandshakePhase::AwaitFinished) {
        let ghost sc = *ctx;
        let ghost sn = *conn;
        let out = server_await_finished(ctx, conn);
        proof {
            lemma_wire_trans(*old(ctx), *old(conn), sc, sn, *ctx, *conn);
        }
        match out {
            StepOutcome::Done => {},
            StepOutcome::Blocked => {
                proof {
                    if old(ctx).phase == HandshakePhase::Start || old(ctx).phase
                        == HandshakePhase::AwaitClientHello {
                        let c = ctx.negotiated->Some_0;
                        let nm = ctx.identity->Some_0.name@;
                        let f = !(old(ctx).auth is Never);
                        assert((conn.stream.outbox() + ctx.out_pending@) =~= (old(
                            conn,
                        ).stream.outbox() + record_bytes(
                            TAG_SERVER_HELLO,
                            server_hello_bytes(c, f, nm),
                        )));
                    }
                }
                return StepOutcome::Blocked;
            },
            StepOutcome::AuthCompleted => {
                return StepOutcome::AuthCompleted;
            },
            StepOutcome::CertRequested => {
                return StepOutcome::CertRequested;
            },
            StepOutcome::Fail(e) => {
                return StepOutcome::Fail(e);
            },
        }
    }
    ctx.state = SessionState::Connected;
    ctx.phase = HandshakePhase::Established;
    StepOutcome::Done
}

/// One handshake step for either side.
fn handshake_step<S: Transport>(ctx: &mut SslContext, conn: &mut Connection<S>) -> (r: StepOutcome)
    requires
        old(ctx).wf(),
        old(ctx).state == SessionState::Handshake,
    ensures
        final(ctx).wf(),
        SslContext::config_unchanged(*old(ctx), *final(ctx)),
        wire_faithful(*old(ctx), *old(conn), *final(ctx), *final(conn)),
        old(ctx).side == ProtocolSide::Server && old(ctx).identity is None && (old(ctx).phase
            == HandshakePhase::Start || old(ctx).phase == HandshakePhase::AwaitClientHello) ==> (
        r matches StepOutcome::Fail(e) && e == Error::MissingIdentity),
        r matches StepOutcome::Fail(e) ==> (e == Error::MissingIdentity ==> old(ctx).side
            == ProtocolSide::Server && old(ctx).identity is None && (old(ctx).phase
            == HandshakePhase::Start || old(ctx).phase == HandshakePhase::AwaitClientHello)),
        old(ctx).side == ProtocolSide::Client && old(ctx).phase == HandshakePhase::Start
            && final(ctx).phase == HandshakePhase::AwaitServerHello && !(r is Fail)
            ==> client_hello_queued(
            old(ctx).enabled@,
            old(conn).stream.outbox(),
            final(conn).stream.outbox(),
            final(ctx).out_pending@,
        ),
        old(ctx).side == ProtocolSide::Server && (old(ctx).phase == HandshakePhase::Start
            || old(ctx).phase == HandshakePhase::AwaitClientHello) && final(ctx).phase
            == HandshakePhase::AwaitClientHello && !(r is Fail) ==> final(conn).stream.outbox()
            == old(conn).stream.outbox() && final(ctx).out_pending@.len() == 0,
        old(ctx).side == ProtocolSide::Server && (old(ctx).phase == HandshakePhase::Start
            || old(ctx).phase == HandshakePhase::AwaitClientHello) && final(ctx).phase
            == HandshakePhase::AwaitFinished && !(r is Fail) ==> server_hello_queued(
            old(ctx).auth,
            *final(ctx),
            old(conn).stream.outbox(),
            final(conn).stream.outbox(),
        ),
        match r {
            StepOutcome::Done => final(ctx).state == SessionState::Connected && final(ctx).phase
                == HandshakePhase::Established && final(ctx).negotiated is Some && (final(ctx).side
                == ProtocolSide::Client ==> final(ctx).name_checked()),
            StepOutcome::Fail(e) => (final(ctx).state == SessionState::Aborted || final(ctx).state
                == SessionState::Closed) && handshake_failure(e),
            _ => final(ctx).state == SessionState::Handshake,
        },
{
    if matches!(ctx.side, ProtocolSide::Client) {
        step_client(ctx, conn)
    } else {
        step_server(ctx, conn)
    }
}

/// A post-handshake duplex stream: the engine together with its bound
/// transport connection.  Dropping the stream drops the connection and
/// with it the transport, exactly once.
#[derive(Debug)]
pub struct SslStream<S> {
    pub ctx: SslContext,
    pub conn: Connection<S>,
}

/// A handshake handed back to the caller before completion.  Its only
/// capabilities are `handshake()` (resume) and read-only accessors; it
/// cannot perform plaintext I/O.
#[derive(Debug)]
pub struct MidHandshakeSslStream<S>(pub SslStream<S>);

/// Why a handshake call did not return a ready stream.  Only `Failure`
/// is an error; the other variants hand the resources back to the caller
/// for a decision, then support resumption.
#[derive(Debug)]
pub enum HandshakeError<S> {
    /// Terminal for this attempt.
    Failure(Error),
    /// The peer's identity can now be inspected via `peer_trust()`.
    ServerAuthCompleted(MidHandshakeSslStream<S>),
    /// The peer asked for a certificate; one may be bound before resuming.
    ClientCertRequested(MidHandshakeSslStream<S>),
    /// The transport could not make progress; resume when it can.
    WouldBlock(MidHandshakeSslStream<S>),
}

/// What a suspension hands back: a well-formed engine still in the
/// handshake, the configuration untouched, and the very wires it was
/// given — written bytes only accumulated, unread bytes only consumed
/// from the front.
pub open spec fn suspended_post<S: Transport>(
    pre: SslContext,
    t: S,
    m: MidHandshakeSslStream<S>,
) -> bool {
    &&& m.0.ctx.wf()
    &&& SslContext::config_unchanged(pre, m.0.ctx)
    &&& m.0.ctx.state == SessionState::Handshake
    &&& appended_only(t.outbox(), m.0.conn.stream.outbox())
    &&& consumed_in_order(pre.in_buf@ + t.inbox(), m.0.ctx.in_buf@ + m.0.conn.stream.inbox())
    &&& (pre.phase == HandshakePhase::Start && m.0.ctx.phase == HandshakePhase::AwaitServerHello
        ==> client_hello_queued(
        pre.enabled@,
        t.outbox(),
        m.0.conn.stream.outbox(),
        m.0.ctx.out_pending@,
    ))
    &&& ((pre.phase == HandshakePhase::Start || pre.phase == HandshakePhase::AwaitClientHello)
        && m.0.ctx.phase == HandshakePhase::AwaitClientHello ==> m.0.conn.stream.outbox()
        == t.outbox() && m.0.ctx.out_pending@.len() == 0)
    &&& ((pre.phase == HandshakePhase::Start || pre.phase == HandshakePhase::AwaitClientHello)
        && m.0.ctx.phase == HandshakePhase::AwaitFinished ==> server_hello_queued(
        pre.auth,
        m.0.ctx,
        t.outbox(),
        m.0.conn.stream.outbox(),
    ))
}

/// What every handshake entry point promises of its outcome, given the
/// engine `pre` and the transport `t` it was driven over.
pub open spec fn handshake_post<S: Transport>(
    pre: SslContext,
    t: S,
    r: Result<SslStream<S>, HandshakeError<S>>,
) -> bool {
    &&& match r {
        Ok(s) => {
            &&& s.ctx.wf()
            &&& SslContext::config_unchanged(pre, s.ctx)
            &&& s.ctx.state == SessionState::Connected
            &&& s.ctx.negotiated is Some
            &&& (s.ctx.side == ProtocolSide::Client ==> s.ctx.name_checked())
            &&& appended_only(t.outbox(), s.conn.stream.outbox())
            &&& consumed_in_order(pre.in_buf@ + t.inbox(), s.ctx.in_buf@ + s.conn.stream.inbox())
        },
        Err(HandshakeError::Failure(e)) => handshake_failure(e),
        Err(HandshakeError::ServerAuthCompleted(m)) => suspended_post(pre, t, m),
        Err(HandshakeError::ClientCertRequested(m)) => suspended_post(pre, t, m),
        Err(HandshakeError::WouldBlock(m)) => suspended_post(pre, t, m),
    }
    &&& (pre.side == ProtocolSide::Server && pre.identity is None && (pre.phase
        == HandshakePhase::Start || pre.phase == HandshakePhase::AwaitClientHello) ==> (
    r matches Err(HandshakeError::Failure(e)) && e == Error::MissingIdentity))
    &&& (r matches Err(HandshakeError::Failure(e)) ==> (e == Error::MissingIdentity ==> pre.side
        == ProtocolSide::Server && pre.identity is None && (pre.phase == HandshakePhase::Start
        || pre.phase == HandshakePhase::AwaitClientHello)))
}

impl SslContext {
    /// Consume the engine and the transport, bind them, and step the
    /// handshake once.  A ready stream reached `Connected`; with a
    /// configured peer name, a ready client stream saw exactly that name.
    pub fn handshake<S: Transport>(self, stream: S) -> (r: Result<SslStream<S>, HandshakeError<S>>)
        requires
            self.wf(),
            self.state == SessionState::Idle,
        ensures
            handshake_post(self, stream, r),
    {
        let mut ctx = self;
        ctx.state = SessionState::Handshake;
        let mut conn = Connection { stream, err: None };
        let outcome = handshake_step(&mut ctx, &mut conn);
        let s = SslStream { ctx, conn };
        match outcome {
            StepOutcome::Done => Ok(s),
            StepOutcome::AuthCompleted => Err(
                HandshakeError::ServerAuthCompleted(MidHandshakeSslStream(s)),
            ),
            StepOutcome::CertRequested => Err(
                HandshakeError::ClientCertRequested(MidHandshakeSslStream(s)),
            ),
            StepOutcome::Blocked => Err(HandshakeError::WouldBlock(MidHandshakeSslStream(s))),
            StepOutcome::Fail(e) => Err(HandshakeError::Failure(e)),
        }
    }
}

impl<S: Transport> MidHandshakeSslStream<S> {
    /// The bound transport.
    pub fn get_ref(&self) -> (r: &S)
        ensures
            *r == self.0.conn.stream,
    {
        self.0.get_ref()
    }

    /// The bound transport, mutably; the engine state is untouched.
    pub fn get_mut(&mut self) -> (r: &mut S)
        ensures
            *r == old(self).0.conn.stream,
            final(self).0.ctx == old(self).0.ctx,
            final(self).0.conn.err == old(self).0.conn.err,
            final(self).0.conn.stream == *final(r),
    {
        self.0.get_mut()
    }

    /// The engine driving this handshake.
    pub fn context(&self) -> (r: &SslContext)
        ensures
            *r == self.0.ctx,
    {
        &self.0.ctx
    }

    /// The engine, mutably, so identity or options can be adjusted before
    /// resuming.
    pub fn mut_context(&mut self) -> (r: &mut SslContext)
        ensures
            *r == old(self).0.ctx,
            final(self).0.conn == old(self).0.conn,
            final(self).0.ctx == *final(r),
    {
        &mut self.0.ctx
    }

    /// Resume the handshake.
    pub fn handshake(self) -> (r: Result<SslStream<S>, HandshakeError<S>>)
        requires
            self.0.ctx.wf(),
            self.0.ctx.state == SessionState::Handshake,
        ensures
            handshake_post(self.0.ctx, self.0.conn.stream, r),
    {
        let MidHandshakeSslStream(s) = self;
        let mut s = s;
        let outcome = handshake_step(&mut s.ctx, &mut s.conn);
        match outcome {
            StepOutcome::Done => Ok(s),
            StepOutcome::AuthCompleted => Err(
                HandshakeError::ServerAuthCompleted(MidHandshakeSslStream(s)),
            ),
            StepOutcome::CertRequested => Err(
                HandshakeError::ClientCertRequested(MidHandshakeSslStream(s)),
            ),
            StepOutcome::Blocked => Err(HandshakeError::WouldBlock(MidHandshakeSslStream(s))),
            StepOutcome::Fail(e) => Err(HandshakeError::Failure(e)),
        }
    }
}

/// Take up to `max` bytes off the front of `buf`.
fn take_prefix(buf: &mut Vec<u8>, max: usize) -> (r: Vec<u8>)
    ensures
        r@.len() == (if max < old(buf)@.len() {
            max as int
        } else {
            old(buf)@.len() as int
        }),
        r@ == old(buf)@.take(r@.len() as int),
        final(buf)@ == old(buf)@.skip(r@.len() as int),
{
    let n = if max < buf.len() {
        max
    } else {
        buf.len()
    };
    let head = copy_range(buf, 0, n);
    let tail = buf.split_off(n);
    *buf = tail;
    head
}

impl<S: Transport> SslStream<S> {
    /// Bytes headed for the peer: written to the transport, or queued.
    pub open spec fn wire_out(self) -> Seq<u8> {
        self.conn.stream.outbox() + self.ctx.out_pending@
    }

    /// Bytes arrived from the peer, not yet decoded into a record.
    pub open spec fn wire_in(self) -> Seq<u8> {
        self.ctx.in_buf@ + self.conn.stream.inbox()
    }

    /// A stream only exists for sessions past the handshake.
    pub open spec fn session_wf(self) -> bool {
        &&& self.ctx.wf()
        &&& (self.ctx.state == SessionState::Connected || self.ctx.state == SessionState::Closed
            || self.ctx.state == SessionState::Aborted)
    }

    /// The bound transport.
    pub fn get_ref(&self) -> (r: &S)
        ensures
            *r == self.conn.stream,
    {
        &self.conn.stream
    }

    /// The bound transport, mutably; the engine state is untouched.
    pub fn get_mut(&mut self) -> (r: &mut S)
        ensures
            *r == old(self).conn.stream,
            final(self).ctx == old(self).ctx,
            final(self).conn.err == old(self).conn.err,
            final(self).conn.stream == *final(r),
    {
        &mut self.conn.stream
    }

    /// The engine driving this stream.
    pub fn context(&self) -> (r: &SslContext)
        ensures
            *r == self.ctx,
    {
        &self.ctx
    }

    /// The bound connection.
    pub fn connection(&self) -> (r: &Connection<S>)
        ensures
            *r == self.conn,
    {
        &self.conn
    }

    /// The bound connection, mutably; the engine state is untouched.
    pub fn connection_mut(&mut self) -> (r: &mut Connection<S>)
        ensures
            *r == old(self).conn,
            final(self).ctx == old(self).ctx,
            final(self).conn == *final(r),
    {
        &mut self.conn
    }

    /// The captured transport error if one is pending (most specific),
    /// else the given engine error.
    fn get_error(&mut self, fallback: Error) -> (r: Error)
        ensures
            final(self).ctx == old(self).ctx,
            final(self).conn.stream == old(self).conn.stream,
            final(self).conn.err is None,
            match old(self).conn.err {
                Some(e) => r == Error::Io(e),
                None => r == fallback,
            },
    {
        take_error(&mut self.conn, fallback)
    }

    /// Read up to `max` bytes of plaintext.  An empty result (for
    /// nonzero `max`) always means end-of-stream, whether the peer closed
    /// gracefully, abruptly, or without notice.
    #[verifier::rlimit(60)]
    pub fn read(&mut self, max: usize) -> (r: Result<Vec<u8>, Error>)
        requires
            old(self).session_wf(),
        ensures
            final(self).session_wf(),
            SslContext::config_unchanged(old(self).ctx, final(self).ctx),
            final(self).wire_out() == old(self).wire_out(),
            max == 0 ==> (r matches Ok(v) && v@.len() == 0 && *final(self) == *old(self)),
            match r {
                Ok(bytes) => {
                    &&& bytes@.len() <= max
                    &&& (old(self).ctx.plain_buf@.len() > 0 && max > 0 ==> bytes@ == old(
                        self,
                    ).ctx.plain_buf@.take(bytes@.len() as int) && final(self).ctx.plain_buf@ == old(
                        self,
                    ).ctx.plain_buf@.skip(bytes@.len() as int) && final(self).wire_in() == old(
                        self,
                    ).wire_in() && bytes@.len() > 0)
                    &&& (old(self).ctx.plain_buf@.len() == 0 && bytes@.len() > 0 ==> old(
                        self,
                    ).ctx.state == SessionState::Connected && old(self).wire_in() == record_bytes(
                        TAG_DATA,
                        bytes@ + final(self).ctx.plain_buf@,
                    ) + final(self).wire_in())
                    &&& (max > 0 && bytes@.len() == 0 && old(self).ctx.plain_buf@.len() == 0
                        ==> final(self).ctx.state == SessionState::Closed || final(self).ctx.state
                        == SessionState::Aborted)
                },
                Err(e) => old(self).ctx.state == SessionState::Connected
                    && old(self).ctx.plain_buf@.len() == 0
                    && ((e == Error::ProtocolFailure && old(self).conn.err is None
                        && final(self).conn.err is None)
                    || (e matches Error::Io(te) && (old(self).conn.err == Some(te)
                        || ((te.kind == TransportErrorKind::WouldBlock || te.kind
                        == TransportErrorKind::Other) && final(self).conn.err is None)))),
            },
            r is Err ==> (final(self).wire_in() == old(self).wire_in()
                || (exists|t: u8, p: Seq<u8>|
                    old(self).wire_in() == record_bytes(t, p) + final(self).wire_in())),
            (r matches Ok(b) && max > 0 && old(self).ctx.plain_buf@.len() == 0 && b@.len() == 0)
                ==> (final(self).wire_in() == old(self).wire_in()
                || (exists|p: Seq<u8>|
                    old(self).wire_in() == record_bytes(TAG_CLOSE, p) + final(self).wire_in())),
    {
        if max == 0 {
            return Ok(Vec::new());
        }
        if self.ctx.plain_buf.len() > 0 {
            let out = take_prefix(&mut self.ctx.plain_buf, max);
            return Ok(out);
        }
        match self.ctx.state {
            SessionState::Connected => {},
            SessionState::Closed => {
                return Ok(Vec::new());
            },
            SessionState::Aborted => {
                return Ok(Vec::new());
            },
            _ => {
                return Err(Error::BadRequest);
            },
        }
        match next_record(&mut self.ctx, &mut self.conn) {
            RecordStep::Got(tag, payload) => {
                proof {
                    assert(old(self).wire_in() =~= record_bytes(tag, payload@) + self.wire_in());
                }
                if tag == TAG_DATA {
                    if payload.len() == 0 {
                        self.ctx.state = SessionState::Aborted;
                        return Err(self.get_error(Error::ProtocolFailure));
                    }
                    self.ctx.plain_buf = payload;
                    let out = take_prefix(&mut self.ctx.plain_buf, max);
                    Ok(out)
                } else if tag == TAG_CLOSE {
                    self.ctx.state = SessionState::Closed;
                    Ok(Vec::new())
                } else {
                    self.ctx.state = SessionState::Aborted;
                    Err(self.get_error(Error::ProtocolFailure))
                }
            },
            RecordStep::Blocked => {
                proof {
                    assert(self.wire_in() =~= old(self).wire_in());
                }
                Err(self.get_error(Error::ProtocolFailure))
            },
            RecordStep::Closed => {
                proof {
                    assert(self.wire_in() =~= old(self).wire_in());
                }
                self.ctx.state = SessionState::Closed;
                Ok(Vec::new())
            },
            RecordStep::Fatal(e) => {
                proof {
                    assert(self.wire_in() =~= old(self).wire_in());
                }
                self.ctx.state = SessionState::Aborted;
                let e2 = match e {
                    Error::Io(_) => e,
                    _ => self.get_error(e),
                };
                Err(e2)
            },
        }
    }

    /// Write a chunk of `data` as one record.  The accepted bytes are
    /// framed and queued before the call returns; queued bytes are
    /// drained on this and later calls, never lost or duplicated.
    #[verifier::rlimit(60)]
    pub fn write(&mut self, data: &Vec<u8>) -> (r: Result<usize, Error>)
        requires
            old(self).session_wf(),
        ensures
            final(self).session_wf(),
            SslContext::config_unchanged(old(self).ctx, final(self).ctx),
            final(self).wire_in() == old(self).wire_in(),
            final(self).ctx.plain_buf == old(self).ctx.plain_buf,
            old(self).ctx.state != SessionState::Connected ==> r == Err::<usize, Error>(
                Error::SessionClosed,
            ) && *final(self) == *old(self),
            old(self).ctx.state == SessionState::Connected && old(self).ctx.out_pending@.len()
                == 0 && data@.len() > 0 ==> r is Ok,
            match r {
                Ok(n) => {
                    &&& old(self).ctx.state == SessionState::Connected
                    &&& n <= data@.len()
                    &&& (data@.len() == 0 ==> n == 0 && final(self).wire_out() == old(
                        self,
                    ).wire_out())
                    &&& (data@.len() > 0 ==> n as int == (if old(self).ctx.send_one_byte_record {
                        1int
                    } else if data@.len() > MAX_RECORD_PAYLOAD {
                        MAX_RECORD_PAYLOAD as int
                    } else {
                        data@.len() as int
                    }) && final(self).wire_out() == old(self).wire_out() + record_bytes(
                        TAG_DATA,
                        data@.take(n as int),
                    ))
                },
                Err(e) => final(self).wire_out() == old(self).wire_out() && ((old(self).ctx.state
                    != SessionState::Connected && e == Error::SessionClosed)
                    || (old(self).ctx.state == SessionState::Connected && (((e
                    == Error::ProtocolFailure || e == Error::UnexpectedEof) && old(self).conn.err
                    is None && final(self).conn.err is None) || (e matches Error::Io(te) && (old(
                    self,
                ).conn.err == Some(te) || final(self).conn.err is None))))),
            },
    {
        if !matches!(self.ctx.state, SessionState::Connected) {
            return Err(Error::SessionClosed);
        }
        if data.len() == 0 {
            return Ok(0);
        }
        match flush_pending(&mut self.ctx, &mut self.conn) {
            IoStep::Done => {},
            IoStep::Blocked => {
                return Err(self.get_error(Error::ProtocolFailure));
            },
            IoStep::Fatal(e) => {
                let e2 = match e {
                    Error::Io(_) => e,
                    _ => self.get_error(e),
                };
                return Err(e2);
            },
        }
        let chunk: usize = if self.ctx.send_one_byte_record {
            1
        } else if data.len() > MAX_RECORD_PAYLOAD {
            MAX_RECORD_PAYLOAD
        } else {
            data.len()
        };
        let payload = copy_range(data, 0, chunk);
        let rec = encode_record(TAG_DATA, &payload);
        self.ctx.out_pending = rec;
        drain_pending(&mut self.ctx, &mut self.conn);
        Ok(chunk)
    }

    /// Drain queued bytes, then flush the transport itself.
    pub fn flush(&mut self) -> (r: Result<(), Error>)
        requires
            old(self).session_wf(),
        ensures
            final(self).session_wf(),
            SslContext::config_unchanged(old(self).ctx, final(self).ctx),
            final(self).wire_in() == old(self).wire_in(),
            final(self).wire_out() == old(self).wire_out(),
            r is Ok ==> final(self).ctx.out_pending@.len() == 0,
            final(self).ctx == (SslContext {
                out_pending: final(self).ctx.out_pending,
                ..old(self).ctx
            }),
            old(self).ctx.out_pending@.len() == 0 ==> (r is Ok || (r matches Err(e) && e is Io)),
            r matches Err(e) ==> ((e matches Error::Io(te) && (old(self).conn.err == Some(te)
                || final(self).conn.err is None || final(self).conn.err == old(self).conn.err))
                || ((e == Error::ProtocolFailure || e == Error::UnexpectedEof)
                    && old(self).conn.err is None && final(self).conn.err is None)),
    {
        match flush_pending(&mut self.ctx, &mut self.conn) {
            IoStep::Done => {},
            IoStep::Blocked => {
                return Err(self.get_error(Error::ProtocolFailure));
            },
            IoStep::Fatal(e) => {
                let e2 = match e {
                    Error::Io(_) => e,
                    _ => self.get_error(e),
                };
                return Err(e2);
            },
        }
        match self.conn.stream.transport_flush() {
            Ok(u) => Ok(u),
            Err(e) => Err(Error::Io(e)),
        }
    }

    /// Orderly teardown: send a best-effort close notification (failure
    /// is ignored) and hand the transport back.  The transport is
    /// reclaimed exactly once, by this move.  On a connected session the
    /// transport receives a prefix of the queued bytes followed by a
    /// close record — as much as it would take.
    pub fn close(self) -> (r: S)
        requires
            self.ctx.wf(),
        ensures
            r.inbox() == self.conn.stream.inbox(),
            self.ctx.state != SessionState::Connected ==> r.outbox()
                == self.conn.stream.outbox(),
            self.ctx.state == SessionState::Connected ==> (exists|n: int|
                0 <= n <= self.ctx.out_pending@.len() + RECORD_HEADER_LEN && r.outbox()
                    == self.conn.stream.outbox() + (self.ctx.out_pending@ + record_bytes(
                    TAG_CLOSE,
                    Seq::empty(),
                )).take(n)),
    {
        let SslStream { ctx, conn } = self;
        let mut ctx = ctx;
        let mut conn = conn;
        if matches!(ctx.state, SessionState::Connected) {
            let empty: Vec<u8> = Vec::new();
            let mut rec = encode_record(TAG_CLOSE, &empty);
            ctx.out_pending.append(&mut rec);
            let (n, _status) = push(&mut conn, &ctx.out_pending);
            proof {
                assert(record_bytes(TAG_CLOSE, empty@).len() == RECORD_HEADER_LEN);
                assert(conn.stream.outbox() == self.conn.stream.outbox() + (self.ctx.out_pending@
                    + record_bytes(TAG_CLOSE, Seq::empty())).take(n as int));
            }
        }
        conn.stream
    }
}

} // verus!

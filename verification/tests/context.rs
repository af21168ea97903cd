use secure_transport::base::Error;
use secure_transport::cipher_suite::CipherSuite;
use secure_transport::secure_transport::{
    ConnectionType, ProtocolSide, SessionOption, SessionState, SslAuthenticate,
    SslClientCertificateState, SslContext,
};

#[test]
fn cipher_configuration() {
    let mut ctx = SslContext::new(ProtocolSide::Server, ConnectionType::Stream).unwrap();
    let ciphers = ctx.enabled_ciphers().unwrap();
    let ciphers = ciphers
        .iter()
        .enumerate()
        .filter_map(|(i, c)| if i % 2 == 0 { Some(*c) } else { None })
        .collect::<Vec<_>>();
    ctx.set_enabled_ciphers(&ciphers).unwrap();
    assert_eq!(ciphers, ctx.enabled_ciphers().unwrap());
}

#[test]
fn idle_context_peer_trust() {
    let ctx = SslContext::new(ProtocolSide::Server, ConnectionType::Stream).unwrap();
    assert!(ctx.peer_trust().is_err());
}

#[test]
fn peer_id() {
    let mut ctx = SslContext::new(ProtocolSide::Server, ConnectionType::Stream).unwrap();
    assert!(ctx.peer_id().unwrap().is_none());
    ctx.set_peer_id(&b"foobar".to_vec()).unwrap();
    assert_eq!(ctx.peer_id().unwrap(), Some(b"foobar".to_vec()));
}

#[test]
fn fresh_context_defaults() {
    let ctx = SslContext::new(ProtocolSide::Client, ConnectionType::Stream).unwrap();
    assert_eq!(ctx.state().unwrap(), SessionState::Idle);
    assert_eq!(ctx.buffered_read_size().unwrap(), 0);
    assert_eq!(
        ctx.client_certificate_state().unwrap(),
        SslClientCertificateState::NoCertificate
    );
    assert_eq!(ctx.negotiated_cipher(), Err(Error::BadRequest));
    assert_eq!(ctx.enabled_ciphers().unwrap(), ctx.supported_ciphers().unwrap());
}

#[test]
fn supported_cipher_list_is_fixed() {
    let ctx = SslContext::new(ProtocolSide::Client, ConnectionType::Stream).unwrap();
    let supported = ctx.supported_ciphers().unwrap();
    assert_eq!(
        supported,
        vec![
            CipherSuite::Aes128GcmSha256,
            CipherSuite::Aes256GcmSha384,
            CipherSuite::ChaCha20Poly1305Sha256,
            CipherSuite::EcdheRsaAes128GcmSha256,
            CipherSuite::RsaAes128CbcSha,
            CipherSuite::RsaAes256CbcSha,
        ]
    );
    assert!(!supported.contains(&CipherSuite::NullMd5));
    assert!(!supported.contains(&CipherSuite::NullSha));
}

#[test]
fn cipher_code_values() {
    assert_eq!(CipherSuite::Aes128GcmSha256.to_raw(), 0x1301);
    assert_eq!(CipherSuite::Aes256GcmSha384.to_raw(), 0x1302);
    assert_eq!(CipherSuite::ChaCha20Poly1305Sha256.to_raw(), 0x1303);
    assert_eq!(CipherSuite::RsaAes128CbcSha.to_raw(), 0x002F);
    assert_eq!(CipherSuite::RsaAes256CbcSha.to_raw(), 0x0035);
    assert_eq!(CipherSuite::EcdheRsaAes128GcmSha256.to_raw(), 0xC02F);
    assert_eq!(CipherSuite::from_raw(0x1301), Some(CipherSuite::Aes128GcmSha256));
    assert_eq!(CipherSuite::from_raw(0x0001), Some(CipherSuite::NullMd5));
    assert_eq!(CipherSuite::from_raw(0xBEEF), None);
}

#[test]
fn enabling_unsupported_cipher_is_rejected() {
    let mut ctx = SslContext::new(ProtocolSide::Server, ConnectionType::Stream).unwrap();
    let before = ctx.enabled_ciphers().unwrap();
    let r = ctx.set_enabled_ciphers(&vec![CipherSuite::Aes128GcmSha256, CipherSuite::NullMd5]);
    assert_eq!(r, Err(Error::IllegalParam));
    assert_eq!(ctx.enabled_ciphers().unwrap(), before);
}

#[test]
fn session_options_round_trip() {
    let mut ctx = SslContext::new(ProtocolSide::Client, ConnectionType::Stream).unwrap();
    let options = [
        SessionOption::BreakOnServerAuth,
        SessionOption::BreakOnCertRequested,
        SessionOption::BreakOnClientAuth,
        SessionOption::FalseStart,
        SessionOption::SendOneByteRecord,
    ];
    for o in options.iter() {
        assert_eq!(ctx.session_option(*o).unwrap(), false);
        ctx.set_session_option(*o, true).unwrap();
        assert_eq!(ctx.session_option(*o).unwrap(), true);
        ctx.set_session_option(*o, false).unwrap();
        assert_eq!(ctx.session_option(*o).unwrap(), false);
    }
    ctx.set_break_on_server_auth(true).unwrap();
    assert_eq!(ctx.break_on_server_auth().unwrap(), true);
    assert_eq!(
        ctx.session_option(SessionOption::BreakOnServerAuth).unwrap(),
        true
    );
    ctx.set_send_one_byte_record(true).unwrap();
    assert_eq!(ctx.send_one_byte_record().unwrap(), true);
    assert_eq!(ctx.break_on_cert_requested().unwrap(), false);
    assert_eq!(ctx.break_on_client_auth().unwrap(), false);
    assert_eq!(ctx.false_start().unwrap(), false);
}

#[test]
fn client_auth_policy_is_stored() {
    let mut ctx = SslContext::new(ProtocolSide::Server, ConnectionType::Stream).unwrap();
    ctx.set_client_side_authenticate(SslAuthenticate::Always).unwrap();
    ctx.set_client_side_authenticate(SslAuthenticate::Try).unwrap();
    ctx.set_client_side_authenticate(SslAuthenticate::Never).unwrap();
}

#[test]
fn record_frame_exact_bytes() {
    let framed = secure_transport::record::encode_record(
        secure_transport::record::TAG_DATA,
        &vec![1, 2, 3],
    );
    assert_eq!(framed, vec![4, 0, 0, 0, 3, 1, 2, 3]);
}

#[test]
fn peer_id_overwrite() {
    let mut ctx = SslContext::new(ProtocolSide::Client, ConnectionType::Stream).unwrap();
    ctx.set_peer_id(&vec![1, 2, 3]).unwrap();
    ctx.set_peer_id(&vec![9]).unwrap();
    assert_eq!(ctx.peer_id().unwrap(), Some(vec![9]));
}

//! Cipher suites as small enumerable code points.

use vstd::prelude::*;

verus! {

pub const TLS_AES_128_GCM_SHA256: u16 = 0x1301;
pub const TLS_AES_256_GCM_SHA384: u16 = 0x1302;
pub const TLS_CHACHA20_POLY1305_SHA256: u16 = 0x1303;
pub const TLS_RSA_WITH_AES_128_CBC_SHA: u16 = 0x002F;
pub const TLS_RSA_WITH_AES_256_CBC_SHA: u16 = 0x0035;
pub const TLS_ECDHE_RSA_WITH_AES_128_GCM_SHA256: u16 = 0xC02F;
pub const TLS_RSA_WITH_NULL_MD5: u16 = 0x0001;
pub const TLS_RSA_WITH_NULL_SHA: u16 = 0x0002;

/// A cipher suite the engine can name on the wire.
///
/// The two null suites are recognised code points but are not offered by
/// the engine: they never appear in the supported list, so enabling them
/// is rejected.
#[derive(Clone, Copy, Debug, PartialEq, Eq, Structural)]
pub enum CipherSuite {
    Aes128GcmSha256,
    Aes256GcmSha384,
    ChaCha20Poly1305Sha256,
    RsaAes128CbcSha,
    RsaAes256CbcSha,
    EcdheRsaAes128GcmSha256,
    NullMd5,
    NullSha,
}

impl CipherSuite {
    /// The wire code point of this suite.
    pub open spec fn code(self) -> u16 {
        match self {
            CipherSuite::Aes128GcmSha256 => TLS_AES_128_GCM_SHA256,
            CipherSuite::Aes256GcmSha384 => TLS_AES_256_GCM_SHA384,
            CipherSuite::ChaCha20Poly1305Sha256 => TLS_CHACHA20_POLY1305_SHA256,
            CipherSuite::RsaAes128CbcSha => TLS_RSA_WITH_AES_128_CBC_SHA,
            CipherSuite::RsaAes256CbcSha => TLS_RSA_WITH_AES_256_CBC_SHA,
            CipherSuite::EcdheRsaAes128GcmSha256 => TLS_ECDHE_RSA_WITH_AES_128_GCM_SHA256,
            CipherSuite::NullMd5 => TLS_RSA_WITH_NULL_MD5,
            CipherSuite::NullSha => TLS_RSA_WITH_NULL_SHA,
        }
    }

    pub fn to_raw(&self) -> (r: u16)
        ensures
            r == self.code(),
    {
        match self {
            CipherSuite::Aes128GcmSha256 => TLS_AES_128_GCM_SHA256,
            CipherSuite::Aes256GcmSha384 => TLS_AES_256_GCM_SHA384,
            CipherSuite::ChaCha20Poly1305Sha256 => TLS_CHACHA20_POLY1305_SHA256,
            CipherSuite::RsaAes128CbcSha => TLS_RSA_WITH_AES_128_CBC_SHA,
            CipherSuite::RsaAes256CbcSha => TLS_RSA_WITH_AES_256_CBC_SHA,
            CipherSuite::EcdheRsaAes128GcmSha256 => TLS_ECDHE_RSA_WITH_AES_128_GCM_SHA256,
            CipherSuite::NullMd5 => TLS_RSA_WITH_NULL_MD5,
            CipherSuite::NullSha => TLS_RSA_WITH_NULL_SHA,
        }
    }

    /// Whether `raw` is a recognised cipher suite code point.
    pub open spec fn is_cipher_code(raw: u16) -> bool {
        exists|c: CipherSuite| c.code() == raw
    }

    pub fn from_raw(raw: u16) -> (r: Option<CipherSuite>)
        ensures
            match r {
                Some(c) => c.code() == raw,
                None => !CipherSuite::is_cipher_code(raw),
            },
            forall|c: CipherSuite| c.code() == raw ==> r == Some(c),
    {
        let r = if raw == TLS_AES_128_GCM_SHA256 {
            Some(CipherSuite::Aes128GcmSha256)
        } else if raw == TLS_AES_256_GCM_SHA384 {
            Some(CipherSuite::Aes256GcmSha384)
        } else if raw == TLS_CHACHA20_POLY1305_SHA256 {
            Some(CipherSuite::ChaCha20Poly1305Sha256)
        } else if raw == TLS_RSA_WITH_AES_128_CBC_SHA {
            Some(CipherSuite::RsaAes128CbcSha)
        } else if raw == TLS_RSA_WITH_AES_256_CBC_SHA {
            Some(CipherSuite::RsaAes256CbcSha)
        } else if raw == TLS_ECDHE_RSA_WITH_AES_128_GCM_SHA256 {
            Some(CipherSuite::EcdheRsaAes128GcmSha256)
        } else if raw == TLS_RSA_WITH_NULL_MD5 {
            Some(CipherSuite::NullMd5)
        } else if raw == TLS_RSA_WITH_NULL_SHA {
            Some(CipherSuite::NullSha)
        } else {
            None
        };
        proof {
            if r is None {
                assert forall|c: CipherSuite| c.code() != raw by {
                    lemma_cipher_code_cases(c);
                }
            }
        }
        r
    }
}

/// Every cipher code point equals one of the named constants.
proof fn lemma_cipher_code_cases(c: CipherSuite)
    ensures
        c.code() == TLS_AES_128_GCM_SHA256 || c.code() == TLS_AES_256_GCM_SHA384
            || c.code() == TLS_CHACHA20_POLY1305_SHA256 || c.code() == TLS_RSA_WITH_AES_128_CBC_SHA
            || c.code() == TLS_RSA_WITH_AES_256_CBC_SHA
            || c.code() == TLS_ECDHE_RSA_WITH_AES_128_GCM_SHA256 || c.code() == TLS_RSA_WITH_NULL_MD5
            || c.code() == TLS_RSA_WITH_NULL_SHA,
{
}

/// Distinct suites have distinct code points.
pub proof fn lemma_cipher_code_injective(a: CipherSuite, b: CipherSuite)
    ensures
        a.code() == b.code() ==> a == b,
{
}

/// The suites the engine supports, in preference order.
pub open spec fn supported_suites() -> Seq<CipherSuite> {
    seq![
        CipherSuite::Aes128GcmSha256,
        CipherSuite::Aes256GcmSha384,
        CipherSuite::ChaCha20Poly1305Sha256,
        CipherSuite::EcdheRsaAes128GcmSha256,
        CipherSuite::RsaAes128CbcSha,
        CipherSuite::RsaAes256CbcSha,
    ]
}

/// The supported list as a fresh vector.
pub fn supported_list() -> (v: Vec<CipherSuite>)
    ensures
        v@ == supported_suites(),
{
    let mut v: Vec<CipherSuite> = Vec::new();
    v.push(CipherSuite::Aes128GcmSha256);
    v.push(CipherSuite::Aes256GcmSha384);
    v.push(CipherSuite::ChaCha20Poly1305Sha256);
    v.push(CipherSuite::EcdheRsaAes128GcmSha256);
    v.push(CipherSuite::RsaAes128CbcSha);
    v.push(CipherSuite::RsaAes256CbcSha);
    proof {
        assert(v@ =~= supported_suites());
    }
    v
}

/// Whether the engine supports `c`.
pub fn is_supported(c: &CipherSuite) -> (r: bool)
    ensures
        r == supported_suites().contains(*c),
{
    let r = match c {
        CipherSuite::NullMd5 => false,
        CipherSuite::NullSha => false,
        _ => true,
    };
    proof {
        if r {
            let i: int = match *c {
                CipherSuite::Aes128GcmSha256 => 0,
                CipherSuite::Aes256GcmSha384 => 1,
                CipherSuite::ChaCha20Poly1305Sha256 => 2,
                CipherSuite::EcdheRsaAes128GcmSha256 => 3,
                CipherSuite::RsaAes128CbcSha => 4,
                CipherSuite::RsaAes256CbcSha => 5,
                _ => 0,
            };
            assert(supported_suites()[i] == *c);
        }
    }
    r
}

} // verus!

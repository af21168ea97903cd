//! The engine's record layer: length-prefixed records and the handshake
//! message encodings carried in them.
//!
//! A record is a tag byte, a four-byte big-endian payload length, and the
//! payload.  Handshake messages are the client hello (the offered cipher
//! codes), the server hello (chosen cipher, certificate-request flag and
//! the server's name) and the finished message (the client's certificate
//! name, if one was presented).

use vstd::prelude::*;
use crate::cipher_suite::CipherSuite;
use crate::transport::copy_range;

verus! {

pub const RECORD_HEADER_LEN: usize = 5;
pub const MAX_NAME_LEN: usize = 65535;
// big enough for any handshake message: a name plus its framing
pub const MAX_RECORD_PAYLOAD: usize = MAX_NAME_LEN + 8;

pub const TAG_CLIENT_HELLO: u8 = 1;
pub const TAG_SERVER_HELLO: u8 = 2;
pub const TAG_FINISHED: u8 = 3;
pub const TAG_DATA: u8 = 4;
pub const TAG_CLOSE: u8 = 5;

/// `n` as two big-endian bytes.
pub open spec fn be16_bytes(n: u16) -> Seq<u8> {
    seq![((n >> 8) & 0xff) as u8, (n & 0xff) as u8]
}

/// The value of two big-endian bytes.
pub open spec fn be16_val(b: Seq<u8>) -> u16
    recommends
        b.len() == 2,
{
    ((b[0] as u16) << 8) | (b[1] as u16)
}

/// `n` as four big-endian bytes.
pub open spec fn be32_bytes(n: u32) -> Seq<u8> {
    seq![
        ((n >> 24) & 0xff) as u8,
        ((n >> 16) & 0xff) as u8,
        ((n >> 8) & 0xff) as u8,
        (n & 0xff) as u8,
    ]
}

/// The value of four big-endian bytes.
pub open spec fn be32_val(b: Seq<u8>) -> u32
    recommends
        b.len() == 4,
{
    ((b[0] as u32) << 24) | ((b[1] as u32) << 16) | ((b[2] as u32) << 8) | (b[3] as u32)
}

pub proof fn lemma_be16_round_trip(n: u16)
    ensures
        be16_val(be16_bytes(n)) == n,
{
    assert((((((n >> 8) & 0xff) as u8) as u16) << 8) | (((n & 0xff) as u8) as u16) == n)
        by (bit_vector);
}

pub proof fn lemma_be16_bytes_of_val(b: Seq<u8>)
    requires
        b.len() == 2,
    ensures
        be16_bytes(be16_val(b)) == b,
{
    let x = b[0];
    let y = b[1];
    let n = be16_val(b);
    assert(((((x as u16) << 8) | (y as u16)) >> 8) & 0xff == x as u16) by (bit_vector);
    assert((((x as u16) << 8) | (y as u16)) & 0xff == y as u16) by (bit_vector);
    assert(be16_bytes(n) =~= b);
}

pub proof fn lemma_be32_round_trip(n: u32)
    ensures
        be32_val(be32_bytes(n)) == n,
{
    assert(((((((n >> 24) & 0xff) as u8) as u32) << 24) | (((((n >> 16) & 0xff) as u8) as u32)
        << 16) | (((((n >> 8) & 0xff) as u8) as u32) << 8) | (((n & 0xff) as u8) as u32)) == n)
        by (bit_vector);
}

pub proof fn lemma_be32_bytes_of_val(b: Seq<u8>)
    requires
        b.len() == 4,
    ensures
        be32_bytes(be32_val(b)) == b,
{
    let x0 = b[0];
    let x1 = b[1];
    let x2 = b[2];
    let x3 = b[3];
    let n = be32_val(b);
    assert(((((x0 as u32) << 24) | ((x1 as u32) << 16) | ((x2 as u32) << 8) | (x3 as u32)) >> 24)
        & 0xff == x0 as u32) by (bit_vector);
    assert(((((x0 as u32) << 24) | ((x1 as u32) << 16) | ((x2 as u32) << 8) | (x3 as u32)) >> 16)
        & 0xff == x1 as u32) by (bit_vector);
    assert(((((x0 as u32) << 24) | ((x1 as u32) << 16) | ((x2 as u32) << 8) | (x3 as u32)) >> 8)
        & 0xff == x2 as u32) by (bit_vector);
    assert((((x0 as u32) << 24) | ((x1 as u32) << 16) | ((x2 as u32) << 8) | (x3 as u32)) & 0xff
        == x3 as u32) by (bit_vector);
    assert(be32_bytes(n) =~= b);
}

/// The wire form of one record.
pub open spec fn record_bytes(tag: u8, payload: Seq<u8>) -> Seq<u8>
    recommends
        payload.len() <= MAX_RECORD_PAYLOAD,
{
    seq![tag] + be32_bytes(payload.len() as u32) + payload
}

/// The payload length a complete header declares.
pub open spec fn spec_payload_len(b: Seq<u8>) -> nat
    recommends
        b.len() >= RECORD_HEADER_LEN,
{
    be32_val(b.subrange(1, 5)) as nat
}

/// Whether `b` begins with a complete record.
pub open spec fn has_complete_record(b: Seq<u8>) -> bool {
    b.len() >= RECORD_HEADER_LEN && b.len() >= RECORD_HEADER_LEN + spec_payload_len(b)
}

pub open spec fn spec_record_tag(b: Seq<u8>) -> u8
    recommends
        b.len() >= RECORD_HEADER_LEN,
{
    b[0]
}

pub open spec fn spec_record_payload(b: Seq<u8>) -> Seq<u8>
    recommends
        has_complete_record(b),
{
    b.subrange(RECORD_HEADER_LEN as int, RECORD_HEADER_LEN + spec_payload_len(b))
}

pub open spec fn spec_record_rest(b: Seq<u8>) -> Seq<u8>
    recommends
        has_complete_record(b),
{
    b.subrange(RECORD_HEADER_LEN + spec_payload_len(b), b.len() as int)
}

/// Parsing inverts framing: a framed record followed by anything parses
/// back to exactly the tag, the payload and the rest.
pub proof fn lemma_record_round_trip(tag: u8, payload: Seq<u8>, rest: Seq<u8>)
    requires
        payload.len() <= MAX_RECORD_PAYLOAD,
    ensures
        has_complete_record(record_bytes(tag, payload) + rest),
        spec_record_tag(record_bytes(tag, payload) + rest) == tag,
        spec_record_payload(record_bytes(tag, payload) + rest) == payload,
        spec_record_rest(record_bytes(tag, payload) + rest) == rest,
{
    let b = record_bytes(tag, payload) + rest;
    assert(b.subrange(1, 5) =~= be32_bytes(payload.len() as u32));
    lemma_be32_round_trip(payload.len() as u32);
    assert(spec_payload_len(b) == payload.len());
    assert(spec_record_payload(b) =~= payload);
    assert(spec_record_rest(b) =~= rest);
}

/// Round-trip integrity at the record layer: the wire form one session
/// writes for a plaintext chunk parses back, on the peer's side, to
/// exactly that chunk, however the incoming bytes continue.
pub proof fn lemma_data_round_trip(payload: Seq<u8>, rest: Seq<u8>)
    requires
        payload.len() <= MAX_RECORD_PAYLOAD,
    ensures
        spec_record_tag(record_bytes(TAG_DATA, payload) + rest) == TAG_DATA,
        spec_record_payload(record_bytes(TAG_DATA, payload) + rest) == payload,
        spec_record_rest(record_bytes(TAG_DATA, payload) + rest) == rest,
{
    lemma_record_round_trip(TAG_DATA, payload, rest);
}

/// Frame `payload` as one record.
pub fn encode_record(tag: u8, payload: &Vec<u8>) -> (r: Vec<u8>)
    requires
        payload@.len() <= MAX_RECORD_PAYLOAD,
    ensures
        r@ == record_bytes(tag, payload@),
        r@.len() == RECORD_HEADER_LEN + payload@.len(),
{
    let n = payload.len() as u32;
    let mut out: Vec<u8> = Vec::new();
    out.push(tag);
    out.push(((n >> 24) & 0xff) as u8);
    out.push(((n >> 16) & 0xff) as u8);
    out.push(((n >> 8) & 0xff) as u8);
    out.push((n & 0xff) as u8);
    let mut p = copy_bytes_local(payload);
    out.append(&mut p);
    proof {
        assert(out@ =~= record_bytes(tag, payload@));
    }
    out
}

/// A fresh vector holding the same bytes.
fn copy_bytes_local(v: &Vec<u8>) -> (r: Vec<u8>)
    ensures
        r@ == v@,
{
    copy_range(v, 0, v.len())
}

/// The payload length the (complete) header of `buf` declares.
pub fn header_payload_len(buf: &Vec<u8>) -> (r: u32)
    requires
        buf@.len() >= RECORD_HEADER_LEN,
    ensures
        r == spec_payload_len(buf@),
{
    let b1 = buf[1];
    let b2 = buf[2];
    let b3 = buf[3];
    let b4 = buf[4];
    let r = ((b1 as u32) << 24) | ((b2 as u32) << 16) | ((b3 as u32) << 8) | (b4 as u32);
    proof {
        let s = buf@.subrange(1, 5);
        assert(s[0] == b1 && s[1] == b2 && s[2] == b3 && s[3] == b4);
    }
    r
}

/// Remove the leading (complete) record from `buf`.
pub fn split_record(buf: &mut Vec<u8>) -> (r: (u8, Vec<u8>))
    requires
        has_complete_record(old(buf)@),
        spec_payload_len(old(buf)@) <= MAX_RECORD_PAYLOAD,
    ensures
        r.0 == spec_record_tag(old(buf)@),
        r.1@ == spec_record_payload(old(buf)@),
        final(buf)@ == spec_record_rest(old(buf)@),
        old(buf)@ == record_bytes(r.0, r.1@) + final(buf)@,
        r.1@.len() == spec_payload_len(old(buf)@),
{
    let tag = buf[0];
    let plen = header_payload_len(buf) as usize;
    let payload = copy_range(buf, RECORD_HEADER_LEN, RECORD_HEADER_LEN + plen);
    let rest = buf.split_off(RECORD_HEADER_LEN + plen);
    *buf = rest;
    proof {
        lemma_be32_bytes_of_val(old(buf)@.subrange(1, 5));
        assert(old(buf)@ =~= record_bytes(tag, payload@) + buf@);
    }
    (tag, payload)
}

/// The value of the two big-endian bytes of `b` at `off`.
pub fn read_be16(b: &Vec<u8>, off: usize) -> (r: u16)
    requires
        off + 2 <= b@.len(),
    ensures
        r == be16_val(b@.subrange(off as int, off + 2)),
{
    let n = b.len();
    let hi = b[off];
    let lo = b[off + 1];
    let r = ((hi as u16) << 8) | (lo as u16);
    proof {
        let s = b@.subrange(off as int, off + 2);
        assert(s[0] == hi && s[1] == lo);
    }
    r
}

/// Whether `b` is the wire form of the cipher list `cs`: each code as two
/// big-endian bytes, in order.
pub open spec fn is_cipher_list_bytes(cs: Seq<CipherSuite>, b: Seq<u8>) -> bool {
    &&& b.len() == 2 * cs.len()
    &&& forall|i: int| #![trigger cs[i]]
        0 <= i < cs.len() ==> {
            &&& b[2 * i] == ((cs[i].code() >> 8) & 0xff) as u8
            &&& b[2 * i + 1] == (cs[i].code() & 0xff) as u8
        }
}

/// The client hello payload: the offered cipher codes.
pub fn encode_cipher_list(cs: &Vec<CipherSuite>) -> (r: Vec<u8>)
    requires
        cs@.len() <= 255,
    ensures
        r@.len() == 2 * cs@.len(),
        is_cipher_list_bytes(cs@, r@),
{
    let mut out: Vec<u8> = Vec::new();
    let mut i: usize = 0;
    while i < cs.len()
        invariant
            i <= cs@.len(),
            cs@.len() <= 255,
            out@.len() == 2 * i,
            forall|j: int| #![trigger cs@[j]]
                0 <= j < i ==> {
                    &&& out@[2 * j] == ((cs@[j].code() >> 8) & 0xff) as u8
                    &&& out@[2 * j + 1] == (cs@[j].code() & 0xff) as u8
                },
        decreases cs@.len() - i,
    {
        let code = cs[i].to_raw();
        out.push(((code >> 8) & 0xff) as u8);
        out.push((code & 0xff) as u8);
        i = i + 1;
    }
    out
}

/// Recover a cipher list from its wire form.  Fails exactly when no list
/// encodes to `b`; on success the result is that (unique) list.
pub fn decode_cipher_list(b: &Vec<u8>) -> (r: Option<Vec<CipherSuite>>)
    ensures
        match r {
            Some(v) => is_cipher_list_bytes(v@, b@),
            None => true,
        },
        forall|cs: Seq<CipherSuite>| #[trigger]
            is_cipher_list_bytes(cs, b@) ==> (match r {
                Some(v) => v@ == cs,
                None => false,
            }),
{
    if b.len() % 2 != 0 {
        return None;
    }
    let n = b.len() / 2;
    let mut out: Vec<CipherSuite> = Vec::new();
    let mut i: usize = 0;
    while i < n
        invariant
            b@.len() == 2 * n,
            2 * n <= usize::MAX,
            i <= n,
            out@.len() == i,
            forall|j: int| #![trigger out@[j]]
                0 <= j < i ==> {
                    &&& b@[2 * j] == ((out@[j].code() >> 8) & 0xff) as u8
                    &&& b@[2 * j + 1] == (out@[j].code() & 0xff) as u8
                },
        decreases n - i,
    {
        let hi = b[2 * i];
        let lo = b[2 * i + 1];
        let raw: u16 = ((hi as u16) << 8) | (lo as u16);
        match CipherSuite::from_raw(raw) {
            Some(c) => {
                proof {
                    let code = c.code();
                    assert((hi as u16) << 8 | (lo as u16) == code ==> hi == ((code >> 8) & 0xff)
                        as u8 && lo == (code & 0xff) as u8) by (bit_vector);
                }
                out.push(c);
                i = i + 1;
            },
            None => {
                proof {
                    assert forall|cs: Seq<CipherSuite>| is_cipher_list_bytes(cs, b@) implies false
                    by {
                        let code = cs[i as int].code();
                        assert(b@[2 * (i as int)] == ((code >> 8) & 0xff) as u8);
                        assert(b@[2 * (i as int) + 1] == (code & 0xff) as u8);
                        assert(((((code >> 8) & 0xff) as u8) as u16) << 8 | (((code & 0xff) as u8)
                            as u16) == code) by (bit_vector);
                        assert(CipherSuite::is_cipher_code(raw));
                    }
                }
                return None;
            },
        }
    }
    proof {
        assert forall|cs: Seq<CipherSuite>| is_cipher_list_bytes(cs, b@) implies out@ == cs by {
            assert forall|j: int| 0 <= j < n implies out@[j] == cs[j] by {
                let c1 = out@[j];
                let c2 = cs[j];
                let x1 = c1.code();
                let x2 = c2.code();
                assert(((((x1 >> 8) & 0xff) as u8) == (((x2 >> 8) & 0xff) as u8) && (((x1
                    & 0xff) as u8) == ((x2 & 0xff) as u8))) ==> x1 == x2) by (bit_vector);
                crate::cipher_suite::lemma_cipher_code_injective(c1, c2);
            }
            assert(out@ =~= cs);
        }
    }
    Some(out)
}

/// The server hello payload: the chosen cipher, whether a client
/// certificate is requested, and the server's name.
pub open spec fn server_hello_bytes(cipher: CipherSuite, cert_req: bool, name: Seq<u8>) -> Seq<u8>
    recommends
        name.len() <= MAX_NAME_LEN,
{
    be16_bytes(cipher.code()) + seq![if cert_req { 1u8 } else { 0u8 }] + be16_bytes(
        name.len() as u16,
    ) + name
}

pub fn encode_server_hello(cipher: CipherSuite, cert_req: bool, name: &Vec<u8>) -> (r: Vec<u8>)
    requires
        name@.len() <= MAX_NAME_LEN,
    ensures
        r@ == server_hello_bytes(cipher, cert_req, name@),
        r@.len() == 5 + name@.len(),
{
    let code = cipher.to_raw();
    let nlen = name.len() as u16;
    let mut out: Vec<u8> = Vec::new();
    out.push(((code >> 8) & 0xff) as u8);
    out.push((code & 0xff) as u8);
    out.push(if cert_req { 1 } else { 0 });
    out.push(((nlen >> 8) & 0xff) as u8);
    out.push((nlen & 0xff) as u8);
    let mut nm = copy_bytes_local(name);
    out.append(&mut nm);
    proof {
        assert(out@ =~= server_hello_bytes(cipher, cert_req, name@));
    }
    out
}

/// Recover a server hello from its wire form.  Fails exactly when no
/// server hello encodes to `b`; on success the result is that (unique)
/// server hello.
pub fn decode_server_hello(b: &Vec<u8>) -> (r: Option<(CipherSuite, bool, Vec<u8>)>)
    ensures
        match r {
            Some(p) => p.2@.len() <= MAX_NAME_LEN && b@ == server_hello_bytes(p.0, p.1, p.2@),
            None => true,
        },
        forall|c: CipherSuite, f: bool, nm: Seq<u8>|
            nm.len() <= MAX_NAME_LEN && b@ == #[trigger] server_hello_bytes(c, f, nm) ==> (match r {
                Some(p) => p.0 == c && p.1 == f && p.2@ == nm,
                None => false,
            }),
{
    if b.len() < 5 {
        return None;
    }
    let raw = read_be16(b, 0);
    let cipher = match CipherSuite::from_raw(raw) {
        Some(c) => c,
        None => {
            proof {
                assert forall|c: CipherSuite, f: bool, nm: Seq<u8>|
                    nm.len() <= MAX_NAME_LEN && b@ == #[trigger] server_hello_bytes(c, f, nm)
                    implies false by {
                    assert(b@.subrange(0, 2) =~= be16_bytes(c.code()));
                    lemma_be16_round_trip(c.code());
                    assert(CipherSuite::is_cipher_code(raw));
                }
            }
            return None;
        },
    };
    let flag = b[2];
    if flag != 0 && flag != 1 {
        proof {
            assert forall|c: CipherSuite, f: bool, nm: Seq<u8>|
                nm.len() <= MAX_NAME_LEN && b@ == #[trigger] server_hello_bytes(c, f, nm)
                implies false by {
                assert(b@[2] == (if f { 1u8 } else { 0u8 }));
            }
        }
        return None;
    }
    let cert_req = flag == 1;
    let nlen = read_be16(b, 3) as usize;
    if b.len() != 5 + nlen {
        proof {
            assert forall|c: CipherSuite, f: bool, nm: Seq<u8>|
                nm.len() <= MAX_NAME_LEN && b@ == #[trigger] server_hello_bytes(c, f, nm)
                implies false by {
                assert(b@.subrange(3, 5) =~= be16_bytes(nm.len() as u16));
                lemma_be16_round_trip(nm.len() as u16);
            }
        }
        return None;
    }
    let name = copy_range(b, 5, b.len());
    proof {
        lemma_be16_bytes_of_val(b@.subrange(0, 2));
        lemma_be16_bytes_of_val(b@.subrange(3, 5));
        assert(b@ =~= server_hello_bytes(cipher, cert_req, name@));
        assert forall|c: CipherSuite, f: bool, nm: Seq<u8>|
            nm.len() <= MAX_NAME_LEN && b@ == #[trigger] server_hello_bytes(c, f, nm)
            implies c == cipher && f == cert_req && nm == name@ by {
            assert(b@.subrange(0, 2) =~= be16_bytes(c.code()));
            lemma_be16_round_trip(c.code());
            lemma_be16_round_trip(cipher.code());
            crate::cipher_suite::lemma_cipher_code_injective(c, cipher);
            assert(b@[2] == (if f { 1u8 } else { 0u8 }));
            assert(b@.subrange(3, 5) =~= be16_bytes(nm.len() as u16));
            lemma_be16_round_trip(nm.len() as u16);
            assert(nm =~= b@.subrange(5, b@.len() as int));
        }
    }
    Some((cipher, cert_req, name))
}

/// The view of an optional byte vector.
pub open spec fn opt_bytes(o: Option<Vec<u8>>) -> Option<Seq<u8>> {
    match o {
        Some(v) => Some(v@),
        None => None,
    }
}

/// The finished payload: the client's certificate name, if one is
/// presented.
pub open spec fn finished_bytes(cert_name: Option<Seq<u8>>) -> Seq<u8>
    recommends
        cert_name matches Some(nm) ==> nm.len() <= MAX_NAME_LEN,
{
    match cert_name {
        Some(nm) => seq![1u8] + be16_bytes(nm.len() as u16) + nm,
        None => seq![0u8, 0u8, 0u8],
    }
}

pub fn encode_finished(cert_name: &Option<Vec<u8>>) -> (r: Vec<u8>)
    requires
        (*cert_name) matches Some(nm) ==> nm@.len() <= MAX_NAME_LEN,
    ensures
        r@ == finished_bytes(opt_bytes(*cert_name)),
        r@.len() <= 3 + MAX_NAME_LEN,
{
    let mut out: Vec<u8> = Vec::new();
    match cert_name {
        Some(nm) => {
            let nlen = nm.len() as u16;
            out.push(1);
            out.push(((nlen >> 8) & 0xff) as u8);
            out.push((nlen & 0xff) as u8);
            let mut body = copy_bytes_local(nm);
            out.append(&mut body);
            proof {
                assert(out@ =~= finished_bytes(opt_bytes(*cert_name)));
            }
        },
        None => {
            out.push(0);
            out.push(0);
            out.push(0);
            proof {
                assert(out@ =~= finished_bytes(opt_bytes(*cert_name)));
            }
        },
    }
    out
}

/// Recover a finished message from its wire form.  Fails exactly when no
/// finished message encodes to `b`; on success the result is that
/// (unique) message.
pub fn decode_finished(b: &Vec<u8>) -> (r: Option<Option<Vec<u8>>>)
    ensures
        match r {
            Some(cn) => b@ == finished_bytes(opt_bytes(cn)) && (cn matches Some(nm) ==> nm@.len()
                <= MAX_NAME_LEN),
            None => true,
        },
        forall|cn: Option<Seq<u8>>|
            ((cn matches Some(nm) ==> nm.len() <= MAX_NAME_LEN) && b@ == #[trigger] finished_bytes(
                cn,
            )) ==> (match r {
                Some(d) => opt_bytes(d) == cn,
                None => false,
            }),
{
    if b.len() < 3 {
        return None;
    }
    let flag = b[0];
    if flag == 0 {
        if b.len() == 3 && b[1] == 0 && b[2] == 0 {
            proof {
                assert(b@ =~= finished_bytes(None));
                assert forall|cn: Option<Seq<u8>>|
                    ((cn matches Some(nm) ==> nm.len() <= MAX_NAME_LEN) && b@
                        == #[trigger] finished_bytes(cn)) implies opt_bytes(None) == cn by {
                    if cn is Some {
                        assert(b@[0] == 1u8);
                    }
                }
            }
            return Some(None);
        } else {
            proof {
                assert forall|cn: Option<Seq<u8>>|
                    ((cn matches Some(nm) ==> nm.len() <= MAX_NAME_LEN) && b@
                        == #[trigger] finished_bytes(cn)) implies false by {
                    if cn is None {
                        assert(b@ =~= seq![0u8, 0u8, 0u8]);
                        assert(b@.len() == 3 && b@[1] == 0u8 && b@[2] == 0u8);
                    } else {
                        assert(b@[0] == 1u8);
                    }
                }
            }
            return None;
        }
    }
    if flag != 1 {
        proof {
            assert forall|cn: Option<Seq<u8>>|
                ((cn matches Some(nm) ==> nm.len() <= MAX_NAME_LEN) && b@
                    == #[trigger] finished_bytes(cn)) implies false by {}
        }
        return None;
    }
    let nlen = read_be16(b, 1) as usize;
    if b.len() != 3 + nlen {
        proof {
            assert forall|cn: Option<Seq<u8>>|
                ((cn matches Some(nm) ==> nm.len() <= MAX_NAME_LEN) && b@
                    == #[trigger] finished_bytes(cn)) implies false by {
                match cn {
                    Some(nm) => {
                        assert(b@.subrange(1, 3) =~= be16_bytes(nm.len() as u16));
                        lemma_be16_round_trip(nm.len() as u16);
                    },
                    None => {},
                }
            }
        }
        return None;
    }
    let name = copy_range(b, 3, b.len());
    proof {
        lemma_be16_bytes_of_val(b@.subrange(1, 3));
        assert(b@ =~= finished_bytes(Some(name@)));
        assert forall|cn: Option<Seq<u8>>|
            ((cn matches Some(nm) ==> nm.len() <= MAX_NAME_LEN) && b@ == #[trigger] finished_bytes(
                cn,
            )) implies cn == Some(name@) by {
            match cn {
                Some(nm) => {
                    assert(b@.subrange(1, 3) =~= be16_bytes(nm.len() as u16));
                    lemma_be16_round_trip(nm.len() as u16);
                    assert(nm =~= b@.subrange(3, b@.len() as int));
                },
                None => {},
            }
        }
    }
    Some(Some(name))
}

} // verus!

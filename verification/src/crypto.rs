//! How an enciphered login packet is framed for the server.
use vstd::prelude::*;
use bytes::Bytes;
use vstd::string::StringSliceAdditionalSpecFns;
use crate::hex::{hex_outcome, try_decode_hex, HexOutcome};
use crate::buf::{
    be_bytes, bytes_as_slice, bytes_contents, bytes_copy_from_slice, bytes_new, vec_extend,
};

verus! {

/// A way of sending enciphered packets: its number on the wire, and the
/// framing around the ciphertext.
pub trait IEncryptMethod {
    /// The method's number on the wire.
    fn id(&self) -> u8;

    /// The packet body around `encrypted`, the payload already enciphered
    /// (with `key` for a session, with the shared key for ECDH); `key` is
    /// the packet's random key.
    fn frame_encrypted(&self, key: &[u8], encrypted: &[u8]) -> Vec<u8>;
}

/// Encryption with a session ticket: the body carries the ticket ahead of
/// the ciphertext.
pub struct EncryptSession {
    t133: Vec<u8>,
}

impl EncryptSession {
    /// The session's ticket.
    pub closed spec fn ticket(&self) -> Seq<u8> {
        self.t133@
    }

    /// A session method holding a copy of the ticket `t133`.
    pub fn new(t133: &[u8]) -> (r: EncryptSession)
        ensures
            r.ticket() == t133@,
    {
        EncryptSession { t133: vstd::slice::slice_to_vec(t133) }
    }
}

/// The body of a session packet: the ticket's length in two big-endian
/// bytes (its low sixteen bits), the ticket, then the ciphertext.
pub open spec fn session_body(ticket: Seq<u8>, encrypted: Seq<u8>) -> Seq<u8> {
    be_bytes(ticket.len() % 0x10000, 2) + ticket + encrypted
}

impl IEncryptMethod for EncryptSession {
    fn id(&self) -> (r: u8)
        ensures
            r == 69,
    {
        69
    }

    fn frame_encrypted(&self, key: &[u8], encrypted: &[u8]) -> (r: Vec<u8>)
        ensures
            r@ == session_body(self.ticket(), encrypted@),
    {
        let n: usize = self.t133.len();
        let len16: u16 = (n % 0x10000) as u16;
        let mut w: Vec<u8> = Vec::new();
        w.push((len16 / 256) as u8);
        w.push((len16 % 256) as u8);
        vec_extend(&mut w, self.t133.as_slice());
        vec_extend(&mut w, encrypted);
        proof {
            let v = (self.t133@.len() % 0x10000) as nat;
            reveal_with_fuel(be_bytes, 3);
            assert(be_bytes(v, 2) =~= seq![((v / 256) % 256) as u8, (v % 256) as u8]);
            assert(w@ =~= session_body(self.ticket(), encrypted@));
        }
        w
    }
}

/// What `md5::compute` gives for `b`.
pub uninterp spec fn md5_digest(b: Seq<u8>) -> Seq<u8>;

/// `md5::compute`: the sixteen bytes of the digest of `b`.
#[verifier::external_body]
fn md5_compute(b: &[u8]) -> (r: [u8; 16])
    ensures
        r@ == md5_digest(b@),
{
    md5::compute(b).0
}

/// Whether `p256::SecretKey::from_bytes` accepts the 32 bytes `s` as a
/// secret scalar: a number from one to below the order of the curve.
pub uninterp spec fn p256_secret_valid(s: Seq<u8>) -> bool;

/// Whether `PublicKey::from_sec1_bytes` accepts `b`: the SEC1 encoding of
/// a point of P-256 other than the identity.
pub uninterp spec fn sec1_point_accepted(b: Seq<u8>) -> bool;

/// The raw x-coordinate of the point shared by the secret scalar `s` and
/// the peer's point encoded as `peer`.
pub uninterp spec fn ecdh_shared_x(s: Seq<u8>, peer: Seq<u8>) -> Seq<u8>;

/// The SEC1 encoding of the public point of the secret scalar `s`.
pub uninterp spec fn p256_public_point(s: Seq<u8>) -> Seq<u8>;

/// `p256::SecretKey::from_bytes`, keeping only whether it accepts `s`.
#[verifier::external_body]
fn p256_secret_ok(s: &[u8; 32]) -> (r: bool)
    ensures
        r == p256_secret_valid(s@),
{
    p256::SecretKey::from_bytes(p256::FieldBytes::from_slice(&s[..])).is_ok()
}

/// `p256::PublicKey::from_sec1_bytes`, keeping only whether it accepts
/// `peer`.
#[verifier::external_body]
fn sec1_point_ok(peer: &[u8]) -> (r: bool)
    ensures
        r == sec1_point_accepted(peer@),
{
    p256::PublicKey::from_sec1_bytes(peer).is_ok()
}

/// `p256::ecdh::diffie_hellman` of the secret scalar `s` with the point
/// that `PublicKey::from_sec1_bytes` reads from `peer`, as the raw
/// x-coordinate (`raw_secret_bytes`); nothing when `peer` is not a point.
#[verifier::external_body]
fn p256_shared_x(s: &[u8; 32], peer: &[u8]) -> (r: Option<[u8; 32]>)
    requires
        p256_secret_valid(s@),
    ensures
        r is Some <==> sec1_point_accepted(peer@),
        r matches Some(x) ==> x@ == ecdh_shared_x(s@, peer@),
{
    let secret = match p256::SecretKey::from_bytes(p256::FieldBytes::from_slice(&s[..])) {
        Ok(k) => k,
        Err(_) => return None,
    };
    let point = match p256::PublicKey::from_sec1_bytes(peer) {
        Ok(p) => p,
        Err(_) => return None,
    };
    let shared = p256::ecdh::diffie_hellman(secret.to_nonzero_scalar(), point.as_affine());
    let mut x = [0u8; 32];
    x.copy_from_slice(shared.raw_secret_bytes().as_slice());
    Some(x)
}

/// `EncodedPoint::from` the public key of the secret scalar `s`. P-256
/// encodes points uncompressed, and a public point is never the identity,
/// so the encoding is the tag 4 and the two 32-byte coordinates.
#[verifier::external_body]
fn p256_public_sec1(s: &[u8; 32]) -> (r: Vec<u8>)
    requires
        p256_secret_valid(s@),
    ensures
        r@ == p256_public_point(s@),
        r@.len() == 65,
        r@[0] == 4,
{
    match p256::SecretKey::from_bytes(p256::FieldBytes::from_slice(&s[..])) {
        Ok(k) => p256::EncodedPoint::from(k.public_key()).as_bytes().to_vec(),
        Err(_) => Vec::new(),
    }
}

/// The hex text of the server's public key that a new ECDH method agrees
/// a key with.
pub fn server_public_key() -> (r: &'static str)
    ensures
        r@ == "04EBCA94D733E399B2DB96EACDD3F69A8BB0F74224E2B44E3357812211D2E62EFBC91BB553098E25E33A799ADC7F76FEB208DA7C6522CDB0719A305180CC54A82E"@,
{
    "04EBCA94D733E399B2DB96EACDD3F69A8BB0F74224E2B44E3357812211D2E62EFBC91BB553098E25E33A799ADC7F76FEB208DA7C6522CDB0719A305180CC54A82E"
}

/// Encryption with a key agreed by ECDH with the server: the body carries
/// the client's public key ahead of the ciphertext.
#[derive(Debug)]
pub struct EncryptECDH {
    /// The MD5 digest of the first sixteen bytes of the shared secret.
    pub initial_share_key: Bytes,
    /// The client's public key, SEC1-encoded.
    pub public_key: Bytes,
    /// The version of the server's key.
    pub public_key_ver: u16,
}

impl EncryptECDH {
    /// A method of key version 1 with no key agreed yet.
    pub fn new() -> (r: Self)
        ensures
            bytes_contents(r.initial_share_key) == Seq::<u8>::empty(),
            bytes_contents(r.public_key) == Seq::<u8>::empty(),
            r.public_key_ver == 1,
    {
        EncryptECDH { initial_share_key: bytes_new(), public_key: bytes_new(), public_key_ver: 1 }
    }

    /// Keeps what a key agreement with the server gave: the shared key is
    /// the MD5 digest of the first sixteen bytes of the shared x-coordinate,
    /// and the public key is the client's encoded public point.
    pub fn apply_agreement(&mut self, share_x: &[u8; 32], public_point: &[u8])
        ensures
            bytes_contents(final(self).initial_share_key) == md5_digest(share_x@.take(16)),
            bytes_contents(final(self).initial_share_key).len() == 16,
            bytes_contents(final(self).public_key) == public_point@,
            final(self).public_key_ver == old(self).public_key_ver,
    {
        let digest = md5_compute(vstd::slice::slice_subrange(share_x.as_slice(), 0, 16));
        proof {
            assert(share_x@.subrange(0, 16) =~= share_x@.take(16));
        }
        self.initial_share_key = bytes_copy_from_slice(digest.as_slice());
        self.public_key = bytes_copy_from_slice(public_point);
    }

    /// Whether `secret` can serve as the secret scalar of a key agreement.
    /// Drawing 32 random bytes until one is accepted draws a secret as
    /// `EphemeralSecret::random` does.
    pub fn secret_accepted(secret: &[u8; 32]) -> (r: bool)
        ensures
            r == p256_secret_valid(secret@),
    {
        p256_secret_ok(secret)
    }

    /// Agrees a key from the secret scalar `secret` with the server key
    /// whose hex text is `s_pub_key`, if both are usable; else nothing
    /// changes and the answer is false.
    pub fn try_generate_key(&mut self, secret: &[u8; 32], s_pub_key: &str) -> (r: bool)
        ensures
            r == (p256_secret_valid(secret@) && server_key_usable(s_pub_key.spec_bytes())),
            r ==> key_agreed(*old(self), *final(self), secret@, server_key_bytes(s_pub_key.spec_bytes())),
            !r ==> *final(self) == *old(self),
    {
        if !p256_secret_ok(secret) {
            return false;
        }
        let key = match try_decode_hex(s_pub_key) {
            Some(k) => k,
            None => return false,
        };
        if !sec1_point_ok(key.as_slice()) {
            return false;
        }
        self.generate_key(secret, s_pub_key);
        true
    }

    /// Agrees a key from the secret scalar `secret` with the server key
    /// whose hex text is `s_pub_key`. Where the text does not decode to a
    /// point of the curve, the engine panics; `requires` leaves that out.
    pub fn generate_key(&mut self, secret: &[u8; 32], s_pub_key: &str)
        requires
            p256_secret_valid(secret@),
            server_key_usable(s_pub_key.spec_bytes()),
        ensures
            key_agreed(*old(self), *final(self), secret@, server_key_bytes(s_pub_key.spec_bytes())),
    {
        let key = match try_decode_hex(s_pub_key) {
            Some(k) => k,
            None => Vec::new(),
        };
        match p256_shared_x(secret, key.as_slice()) {
            Some(x) => {
                let point = p256_public_sec1(secret);
                self.apply_agreement(&x, point.as_slice());
            },
            None => {},
        }
    }
}

/// The bytes that the server key text `s` decodes to, if it decodes.
pub open spec fn server_key_bytes(s: Seq<u8>) -> Seq<u8> {
    match hex_outcome(s) {
        HexOutcome::Bytes(k) => k,
        _ => Seq::empty(),
    }
}

/// The server key text `s` decodes to a point that the curve accepts.
pub open spec fn server_key_usable(s: Seq<u8>) -> bool {
    hex_outcome(s) matches HexOutcome::Bytes(k) && sec1_point_accepted(k)
}

/// `after` holds the key agreed from the secret scalar `secret` with the
/// server point `peer`: the digest of the first half of the shared
/// x-coordinate, and the client's public point; the version stays.
pub open spec fn key_agreed(before: EncryptECDH, after: EncryptECDH, secret: Seq<u8>, peer: Seq<u8>) -> bool {
    &&& after.public_key_ver == before.public_key_ver
    &&& bytes_contents(after.initial_share_key) == md5_digest(ecdh_shared_x(secret, peer).take(16))
    &&& bytes_contents(after.initial_share_key).len() == 16
    &&& bytes_contents(after.public_key) == p256_public_point(secret)
    &&& bytes_contents(after.public_key).len() == 65
    &&& bytes_contents(after.public_key)[0] == 4
}

/// The body of an ECDH packet: 2 and 1, the packet's key, the tag 0x0131,
/// the key version, the public key's length (its low sixteen bits) and the
/// public key, each number in two big-endian bytes, then the ciphertext.
pub open spec fn ecdh_body(e: EncryptECDH, key: Seq<u8>, encrypted: Seq<u8>) -> Seq<u8> {
    let pk = bytes_contents(e.public_key);
    seq![2u8, 1u8] + key + be_bytes(0x0131, 2) + be_bytes(e.public_key_ver as nat, 2) + be_bytes(
        pk.len() % 0x10000,
        2,
    ) + pk + encrypted
}

fn push_u16_be(w: &mut Vec<u8>, v: u16)
    ensures
        final(w)@ == old(w)@ + be_bytes(v as nat, 2),
{
    w.push((v / 256) as u8);
    w.push((v % 256) as u8);
    proof {
        reveal_with_fuel(be_bytes, 3);
        assert(be_bytes(v as nat, 2) =~= seq![((v as nat / 256) % 256) as u8, (v as nat % 256) as u8]);
        assert(final(w)@ =~= old(w)@ + be_bytes(v as nat, 2));
    }
}

impl IEncryptMethod for EncryptECDH {
    fn id(&self) -> (r: u8)
        ensures
            r == 0x87,
    {
        0x87
    }

    fn frame_encrypted(&self, key: &[u8], encrypted: &[u8]) -> (r: Vec<u8>)
        ensures
            r@ == ecdh_body(*self, key@, encrypted@),
    {
        let pk = bytes_as_slice(&self.public_key);
        let mut w: Vec<u8> = Vec::new();
        w.push(2);
        w.push(1);
        vec_extend(&mut w, key);
        push_u16_be(&mut w, 0x0131);
        push_u16_be(&mut w, self.public_key_ver);
        let n: usize = pk.len();
        push_u16_be(&mut w, (n % 0x10000) as u16);
        vec_extend(&mut w, pk);
        vec_extend(&mut w, encrypted);
        proof {
            assert(w@ =~= ecdh_body(*self, key@, encrypted@));
        }
        w
    }
}

} // verus!

//! The cryptographic primitives of the end-to-end encrypted sync channel:
//! SHA-256, HKDF-SHA256, X25519 and XChaCha20-Poly1305, and the system
//! random source. Each is a thin call into its crate; what the call returns
//! is named below, and the contracts say what the crates document of it.
use vstd::prelude::*;

use chacha20poly1305::aead::{Aead, KeyInit, Payload};
use chacha20poly1305::{XChaCha20Poly1305, XNonce};
use hkdf::Hkdf;
use rand_core::{OsRng, RngCore};
use sha2::{Digest, Sha256};
use subtle::ConstantTimeEq;
use x25519_dalek::{PublicKey, StaticSecret};

verus! {

/// The SHA-256 digest of a byte string.
pub uninterp spec fn sha256_digest(data: Seq<u8>) -> Seq<u8>;

/// HMAC-SHA256 (RFC 2104): a key longer than one 64-byte block is hashed
/// first; the key, padded with zero bytes to a block, is XOR-ed with the inner
/// pad 0x36 and the outer pad 0x5c.
pub open spec fn hmac_sha256(key: Seq<u8>, msg: Seq<u8>) -> Seq<u8> {
    let k = if key.len() > 64 {
        sha256_digest(key)
    } else {
        key
    };
    let block = k + Seq::new((64 - k.len()) as nat, |i: int| 0u8);
    let ipad = Seq::new(64, |i: int| block[i] ^ 0x36u8);
    let opad = Seq::new(64, |i: int| block[i] ^ 0x5cu8);
    sha256_digest(opad + sha256_digest(ipad + msg))
}

/// The 32-byte output of HKDF-SHA256 (RFC 5869) with no salt: extract with a
/// salt of 32 zero bytes, then the first expand block, over `info` and the
/// counter byte 1.
pub open spec fn hkdf_sha256(ikm: Seq<u8>, info: Seq<u8>) -> Seq<u8> {
    let prk = hmac_sha256(Seq::new(32, |i: int| 0u8), ikm);
    hmac_sha256(prk, info.push(1u8))
}

/// The X25519 public key of a 32-byte secret key.
pub uninterp spec fn x25519_public(secret: Seq<u8>) -> Seq<u8>;

/// The X25519 shared secret of a secret key and an arbitrary 32-byte public
/// key.
pub uninterp spec fn x25519_agree(secret: Seq<u8>, public: Seq<u8>) -> Seq<u8>;

/// The X25519 shared secret of two key pairs, given by their two public
/// keys; it does not depend on which party computes it.
pub uninterp spec fn x25519_shared(publics: Set<Seq<u8>>) -> Seq<u8>;

/// The XChaCha20 key stream, `len` bytes long, that the AEAD XORs with the
/// message for a key and a 24-byte nonce.
pub uninterp spec fn xchacha20_keystream(key: Seq<u8>, nonce: Seq<u8>, len: nat) -> Seq<u8>;

/// The Poly1305 tag that the AEAD computes over the associated data and the
/// encrypted message for a key and a nonce.
pub uninterp spec fn xchacha_poly1305_tag(key: Seq<u8>, nonce: Seq<u8>, aad: Seq<u8>, body: Seq<u8>) -> Seq<u8>;

/// Byte-wise XOR of `data` with a key stream.
pub open spec fn xor_bytes(data: Seq<u8>, stream: Seq<u8>) -> Seq<u8> {
    Seq::new(data.len(), |i: int| data[i] ^ stream[i])
}

/// The 16 bytes of a tag.
pub open spec fn tag16(t: Seq<u8>) -> Seq<u8> {
    Seq::new(16, |i: int| t[i])
}

/// XChaCha20-Poly1305 encryption (the RFC 8439 construction with an
/// extended nonce): the message XOR the key stream, then the tag.
pub open spec fn aead_seal(key: Seq<u8>, nonce: Seq<u8>, msg: Seq<u8>, aad: Seq<u8>) -> Seq<u8> {
    let body = xor_bytes(msg, xchacha20_keystream(key, nonce, msg.len()));
    body + tag16(xchacha_poly1305_tag(key, nonce, aad, body))
}

/// XChaCha20-Poly1305 decryption: the last 16 bytes must be the tag of the
/// rest, which is then XORed with the key stream.
pub open spec fn aead_open(key: Seq<u8>, nonce: Seq<u8>, ct: Seq<u8>, aad: Seq<u8>) -> Option<Seq<u8>> {
    if ct.len() < 16 {
        None
    } else {
        let body = ct.subrange(0, ct.len() - 16);
        if !aead_len_ok(body.len()) || ct.subrange(ct.len() - 16, ct.len() as int) != tag16(
            xchacha_poly1305_tag(key, nonce, aad, body),
        ) {
            None
        } else {
            Some(xor_bytes(body, xchacha20_keystream(key, nonce, body.len())))
        }
    }
}

/// Whether XChaCha20-Poly1305 accepts a plaintext of `len` bytes: the
/// ChaCha20 block counter (32 bits, 64-byte blocks) must not run out.
pub open spec fn aead_len_ok(len: nat) -> bool {
    len / 64 < 0xFFFF_FFFF
}

/// XORing twice with the same key stream gives the data back.
pub proof fn lemma_xor_twice(data: Seq<u8>, stream: Seq<u8>)
    ensures
        xor_bytes(xor_bytes(data, stream), stream) == data,
{
    let once = xor_bytes(data, stream);
    let twice = xor_bytes(once, stream);
    assert forall|i: int| 0 <= i < data.len() implies #[trigger] twice[i] == data[i] by {
        let x = data[i];
        let k = stream[i];
        assert((x ^ k) ^ k == x) by (bit_vector);
    }
    assert(twice == data);
}

/// A message sealed under a key, a nonce and associated data opens, under
/// the same three, to itself.
pub proof fn lemma_aead_roundtrip(key: Seq<u8>, nonce: Seq<u8>, msg: Seq<u8>, aad: Seq<u8>)
    requires
        aead_len_ok(msg.len()),
    ensures
        aead_open(key, nonce, aead_seal(key, nonce, msg, aad), aad) == Some(msg),
{
    let ks = xchacha20_keystream(key, nonce, msg.len());
    let body = xor_bytes(msg, ks);
    let t = tag16(xchacha_poly1305_tag(key, nonce, aad, body));
    let ct = body + t;
    assert(ct.subrange(0, ct.len() - 16) == body);
    assert(ct.subrange(ct.len() - 16, ct.len() as int) == t);
    lemma_xor_twice(msg, ks);
}

/// `Sha256::digest` (sha2): the digest of `data`.
#[verifier::external_body]
pub(crate) fn sha256(data: &[u8]) -> (r: [u8; 32])
    ensures
        r@ == sha256_digest(data@),
{
    Sha256::digest(data).into()
}

/// `Hkdf::<Sha256>::new(None, ikm)` followed by `expand(info, [0; 32])` (hkdf):
/// RFC 5869 over HMAC-SHA256, the missing salt taken as one hash length of
/// zero bytes.
/// `expand` fails only when more than 255 hash lengths are asked for, so with
/// 32 bytes the result is always `Some`.
#[verifier::external_body]
pub(crate) fn hkdf_sha256_32(ikm: &[u8; 32], info: &[u8]) -> (r: Option<[u8; 32]>)
    ensures
        r is Some,
        r is Some ==> r->0@ == hkdf_sha256(ikm@, info@),
{
    let mut okm = [0u8; 32];
    match Hkdf::<Sha256>::new(None, ikm).expand(info, &mut okm) {
        Ok(()) => Some(okm),
        Err(_) => None,
    }
}

/// `PublicKey::from(&StaticSecret::from(secret))` (x25519-dalek).
#[verifier::external_body]
pub(crate) fn x25519_public_key(secret: [u8; 32]) -> (r: [u8; 32])
    ensures
        r@ == x25519_public(secret@),
{
    PublicKey::from(&StaticSecret::from(secret)).to_bytes()
}

/// `StaticSecret::from(secret).diffie_hellman(&PublicKey::from(peer))`
/// (x25519-dalek). When the peer key is the public key of some secret `b`,
/// the result is the value that the holder of `b` computes from our public
/// key (the agreement that the crate documents), a value of the two public
/// keys.
#[verifier::external_body]
pub(crate) fn x25519_diffie_hellman(secret: [u8; 32], peer: [u8; 32]) -> (r: [u8; 32])
    ensures
        r@ == x25519_agree(secret@, peer@),
        forall|b: Seq<u8>|
            b.len() == 32 && peer@ == #[trigger] x25519_public(b) ==> r@ == x25519_shared(
                set![x25519_public(secret@), peer@],
            ),
{
    StaticSecret::from(secret).diffie_hellman(&PublicKey::from(peer)).to_bytes()
}

/// `XChaCha20Poly1305::new(key).encrypt(nonce, Payload { msg, aad })`
/// (chacha20poly1305). It fails only when the message would exhaust the
/// block counter.
#[verifier::external_body]
pub(crate) fn xchacha_encrypt(key: &[u8; 32], nonce: &[u8; 24], msg: &[u8], aad: &[u8]) -> (r: Option<Vec<u8>>)
    ensures
        r is Some <==> aead_len_ok(msg@.len()),
        r is Some ==> r->0@ == xor_bytes(msg@, xchacha20_keystream(key@, nonce@, msg@.len()))
            + tag16(
            xchacha_poly1305_tag(
                key@,
                nonce@,
                aad@,
                xor_bytes(msg@, xchacha20_keystream(key@, nonce@, msg@.len())),
            ),
        ),
{
    let cipher = XChaCha20Poly1305::new(key.into());
    match cipher.encrypt(XNonce::from_slice(nonce), Payload { msg, aad }) {
        Ok(c) => Some(c),
        Err(_) => None,
    }
}

/// `XChaCha20Poly1305::new(key).decrypt(nonce, Payload { msg, aad })`
/// (chacha20poly1305): `None` when the tag does not match.
#[verifier::external_body]
pub(crate) fn xchacha_decrypt(key: &[u8; 32], nonce: &[u8; 24], msg: &[u8], aad: &[u8]) -> (r: Option<Vec<u8>>)
    ensures
        r is Some <==> (msg@.len() >= 16 && aead_len_ok((msg@.len() - 16) as nat) && msg@.subrange(
            msg@.len() - 16,
            msg@.len() as int,
        ) == tag16(
            xchacha_poly1305_tag(key@, nonce@, aad@, msg@.subrange(0, msg@.len() - 16)),
        )),
        r is Some ==> r->0@ == xor_bytes(
            msg@.subrange(0, msg@.len() - 16),
            xchacha20_keystream(key@, nonce@, (msg@.len() - 16) as nat),
        ),
{
    let cipher = XChaCha20Poly1305::new(key.into());
    match cipher.decrypt(XNonce::from_slice(nonce), Payload { msg, aad }) {
        Ok(p) => Some(p),
        Err(_) => None,
    }
}

/// `OsRng.try_fill_bytes` (rand_core) on a buffer of `n` bytes: `n` fresh
/// random bytes, `None` when the operating system's random source fails.
/// Nothing is promised of the bytes.
#[verifier::external_body]
fn os_random(n: usize) -> (r: Option<Vec<u8>>)
    ensures
        r matches Some(v) ==> v@.len() == n,
{
    let mut bytes = vec![0u8; n];
    match OsRng.try_fill_bytes(&mut bytes) {
        Ok(()) => Some(bytes),
        Err(_) => None,
    }
}

/// The bytes of a slice of 16 bytes, as an array.
pub(crate) fn to_array16(v: &[u8]) -> (r: Option<[u8; 16]>)
    ensures
        match r {
            Some(a) => v@.len() == 16 && a@ == v@,
            None => v@.len() != 16,
        },
{
    if v.len() != 16 {
        return None;
    }
    let mut a = [0u8; 16];
    for i in 0..16
        invariant
            v@.len() == 16,
            forall|j: int| 0 <= j < i ==> a@[j] == v@[j],
    {
        a[i] = v[i];
    }
    assert(a@ == v@);
    Some(a)
}

/// The bytes of a slice of 24 bytes, as an array.
pub(crate) fn to_array24(v: &[u8]) -> (r: Option<[u8; 24]>)
    ensures
        match r {
            Some(a) => v@.len() == 24 && a@ == v@,
            None => v@.len() != 24,
        },
{
    if v.len() != 24 {
        return None;
    }
    let mut a = [0u8; 24];
    for i in 0..24
        invariant
            v@.len() == 24,
            forall|j: int| 0 <= j < i ==> a@[j] == v@[j],
    {
        a[i] = v[i];
    }
    assert(a@ == v@);
    Some(a)
}

/// The bytes of a slice of 32 bytes, as an array.
pub(crate) fn to_array32(v: &[u8]) -> (r: Option<[u8; 32]>)
    ensures
        match r {
            Some(a) => v@.len() == 32 && a@ == v@,
            None => v@.len() != 32,
        },
{
    if v.len() != 32 {
        return None;
    }
    let mut a = [0u8; 32];
    for i in 0..32
        invariant
            v@.len() == 32,
            forall|j: int| 0 <= j < i ==> a@[j] == v@[j],
    {
        a[i] = v[i];
    }
    assert(a@ == v@);
    Some(a)
}

/// 16 fresh random bytes; `None` when the random source fails.
pub(crate) fn random_bytes16() -> (r: Option<[u8; 16]>) {
    match os_random(16) {
        Some(v) => to_array16(v.as_slice()),
        None => None,
    }
}

/// A fresh random 24-byte nonce; `None` when the random source fails.
pub(crate) fn random_nonce() -> (r: Option<[u8; 24]>) {
    match os_random(24) {
        Some(v) => to_array24(v.as_slice()),
        None => None,
    }
}

/// A fresh random X25519 secret key (the 32 random bytes that
/// `StaticSecret::random_from_rng` holds); `None` when the random source
/// fails.
pub(crate) fn random_secret_key() -> (r: Option<[u8; 32]>) {
    match os_random(32) {
        Some(v) => to_array32(v.as_slice()),
        None => None,
    }
}

/// `a.ct_eq(b).unwrap_u8() == 1` (subtle): equality of two byte strings,
/// in time that does not depend on their contents (lengths that differ give
/// `false` at once).
#[verifier::external_body]
pub(crate) fn constant_time_eq(a: &[u8], b: &[u8]) -> (r: bool)
    ensures
        r == (a@ == b@),
{
    a.ct_eq(b).unwrap_u8() == 1
}

} // verus!

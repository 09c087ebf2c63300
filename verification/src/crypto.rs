use vstd::prelude::*;

use crate::errors::Error;

verus! {

// The two primitives of the core: Blake3-256 content digests and Ed25519
// signatures. Both live in outside crates; each call is wrapped once, and its
// result is named by an uninterpreted spec function, since the value of a
// digest or a signature is a function of the inputs alone but has no short
// mathematical statement.

/// The Blake3-256 digest of `data`: a function of the input bytes alone.
pub uninterp spec fn blake3_of(data: Seq<u8>) -> Seq<u8>;

/// The RFC 8032 Ed25519 signature over `msg` by the 64-byte secret key `sk`:
/// Ed25519 signing is deterministic, a function of key and message alone.
pub uninterp spec fn ed25519_sig_of(sk: Seq<u8>, msg: Seq<u8>) -> Seq<u8>;

/// Whether `sig` verifies over `msg` under the 32-byte public key `pk`:
/// Ed25519 verification is a function of these three values alone.
pub uninterp spec fn ed25519_verify_ok(pk: Seq<u8>, msg: Seq<u8>, sig: Seq<u8>) -> bool;

/// Whether `sk` parses as a 64-byte Ed25519 keypair (secret half plus public
/// half): a function of the bytes alone, and exactly the domain on which
/// signing succeeds. Every generated keypair's secret bytes satisfy it.
pub uninterp spec fn ed25519_sk_wf(sk: Seq<u8>) -> bool;

/// A public and a secret key that belong together: every signature made with
/// the secret key verifies under the public key.
pub open spec fn keypair_matched(pk: Seq<u8>, sk: Seq<u8>) -> bool {
    forall|m: Seq<u8>| #[trigger] ed25519_verify_ok(pk, m, ed25519_sig_of(sk, m))
}

/// Relies on blake3::hash: a 32-byte digest of the input bytes.
#[verifier::external_body]
pub fn blake3_digest(data: &[u8]) -> (r: Vec<u8>)
    ensures
        r@ == blake3_of(data@),
        r@.len() == 32,
{
    blake3::hash(data).as_bytes().to_vec()
}

/// Relies on ursa::signatures::ed25519::Ed25519Sha512::keypair with no seed: a
/// fresh Ed25519 keypair, 32-byte public key and 64-byte secret key, whose
/// signatures verify under the public key (RFC 8032 correctness) and whose
/// secret bytes parse back as a keypair. The seedless arm builds the pair
/// unconditionally, so generation always succeeds; a failure of the operating
/// system's randomness source aborts the process, like allocation failure.
#[verifier::external_body]
pub fn ed25519_keypair() -> (r: (Vec<u8>, Vec<u8>))
    ensures
        r.0@.len() == 32,
        r.1@.len() == 64,
        keypair_matched(r.0@, r.1@),
        ed25519_sk_wf(r.1@),
{
    let ed = ursa::signatures::ed25519::Ed25519Sha512;
    let (pk, sk) = ursa::signatures::SignatureScheme::keypair(&ed, None)
        .expect("seedless Ed25519 key generation does not fail");
    (pk.as_ref().to_vec(), sk.as_ref().to_vec())
}

/// Relies on Ed25519Sha512::sign: the deterministic 64-byte RFC 8032 signature
/// over `msg` by `sk`. It fails exactly when the 64 key bytes do not parse as
/// a keypair, which is a function of the bytes alone, so on a well-formed
/// secret key success is owed.
#[verifier::external_body]
pub fn ed25519_sign(msg: &[u8], sk: &[u8]) -> (r: Result<Vec<u8>, Error>)
    ensures
        r matches Ok(s) ==> s@ == ed25519_sig_of(sk@, msg@) && s@.len() == 64,
        ed25519_sk_wf(sk@) ==> r is Ok,
{
    let ed = ursa::signatures::ed25519::Ed25519Sha512;
    let key = ursa::keys::PrivateKey(sk.to_vec());
    match ursa::signatures::SignatureScheme::sign(&ed, msg, &key) {
        Ok(s) => Ok(s),
        Err(_) => Err(Error::CryptoError),
    }
}

/// Relies on Ed25519Sha512::verify: whether `sig` verifies over `msg` under
/// `pk`; a key or signature that does not parse verifies as false.
#[verifier::external_body]
pub fn ed25519_verify(msg: &[u8], sig: &[u8], pk: &[u8]) -> (r: bool)
    ensures
        r == ed25519_verify_ok(pk@, msg@, sig@),
{
    let ed = ursa::signatures::ed25519::Ed25519Sha512;
    let key = ursa::keys::PublicKey(pk.to_vec());
    matches!(ursa::signatures::SignatureScheme::verify(&ed, msg, sig, &key), Ok(true))
}

} // verus!

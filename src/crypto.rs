use vstd::prelude::*;

verus! {

/// Whether `b` is a SEC1 encoding of a point of the P-256 curve other than
/// the identity.
pub uninterp spec fn sec1_point(b: Seq<u8>) -> bool;

/// Whether ECDSA over P-256 with SHA-256 accepts `sig`, the 64 bytes `r || s`,
/// as a signature of `msg` under the SEC1-encoded public key `key`.
pub uninterp spec fn p256_accepts(key: Seq<u8>, msg: Seq<u8>, sig: Seq<u8>) -> bool;

/// Length in bytes of a P-256 signature `r || s`.
pub const SIGNATURE_BYTES: usize = 64;

/// Relies on `p256::PublicKey::from_sec1_bytes`, which succeeds exactly when
/// the bytes encode a point of the curve.
#[verifier::external_body]
pub(crate) fn decodes_to_point(b: &[u8]) -> (r: bool)
    ensures
        r == sec1_point(b@),
{
    p256::PublicKey::from_sec1_bytes(b).is_ok()
}

/// Relies on `p256::ecdsa::VerifyingKey::from_sec1_bytes` (which decodes
/// through `PublicKey::from_sec1_bytes`), on `p256::ecdsa::Signature::from_slice`
/// (which takes exactly 64 bytes) and on `Verifier::verify` (SHA-256 of the
/// message, then ECDSA). A key or signature that does not parse is rejected.
#[verifier::external_body]
pub(crate) fn p256_verify(key: &[u8], msg: &[u8], sig: &[u8]) -> (r: bool)
    ensures
        r == p256_accepts(key@, msg@, sig@),
        r ==> sec1_point(key@),
        r ==> sig@.len() == SIGNATURE_BYTES,
{
    let key = match p256::ecdsa::VerifyingKey::from_sec1_bytes(key) {
        Ok(k) => k,
        Err(_) => return false,
    };
    let sig = match p256::ecdsa::Signature::from_slice(sig) {
        Ok(s) => s,
        Err(_) => return false,
    };
    p256::ecdsa::signature::Verifier::verify(&key, msg, &sig).is_ok()
}

} // verus!

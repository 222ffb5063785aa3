//! Hashes and secp256k1 signatures.

use vstd::prelude::*;
use k256::ecdsa::{RecoveryId, Signature, SigningKey, VerifyingKey};
use sha2::Digest;

verus! {

/// The SHA-256 hash of some bytes.
pub uninterp spec fn sha256(data: Seq<u8>) -> Seq<u8>;

/// The Keccak-256 hash of some bytes.
pub uninterp spec fn keccak256(data: Seq<u8>) -> Seq<u8>;

/// The uncompressed public key of a secp256k1 secret key, where the bytes are
/// a secret key.
pub uninterp spec fn secp_public_key(secret: Seq<u8>) -> Option<Seq<u8>>;

/// The signature `r || s` and the recovery id that a secret key gives for a
/// hash.
pub uninterp spec fn secp_signature(secret: Seq<u8>, hash: Seq<u8>) -> Option<(Seq<u8>, u8)>;

/// Whether some bytes are a signature `r || s`.
pub uninterp spec fn secp_is_signature(rs: Seq<u8>) -> bool;

/// The uncompressed public key whose signature for a hash is `rs`, where the
/// curve point behind `r` has an odd `y` or not.
pub uninterp spec fn secp_recovered(hash: Seq<u8>, rs: Seq<u8>, y_is_odd: bool) -> Option<Seq<u8>>;

/// `Sha256::digest`: the 32 bytes of the hash.
#[verifier::external_body]
pub(crate) fn sha256_digest(data: &[u8]) -> (r: Vec<u8>)
    ensures
        r@ == sha256(data@),
        r@.len() == 32,
{
    sha2::Sha256::digest(data).to_vec()
}

/// `Keccak256::digest`: the 32 bytes of the hash.
#[verifier::external_body]
pub(crate) fn keccak256_digest(data: &[u8]) -> (r: Vec<u8>)
    ensures
        r@ == keccak256(data@),
        r@.len() == 32,
{
    sha3::Keccak256::digest(data).to_vec()
}

/// `SigningKey::from_slice`, and the public key of the result as the 65 bytes
/// of its uncompressed point. Its error has the one text `signature error`.
#[verifier::external_body]
pub(crate) fn public_key(secret: &[u8]) -> (r: Result<Vec<u8>, String>)
    ensures
        match r {
            Ok(k) => secp_public_key(secret@) == Some(k@) && k@.len() == 65,
            Err(e) => secp_public_key(secret@) is None && e@ == "signature error"@,
        },
{
    SigningKey::from_slice(secret)
        .map(|k| k.verifying_key().to_encoded_point(false).as_bytes().to_vec())
        .map_err(|e| e.to_string())
}

/// `SigningKey::sign_prehash_recoverable` of the key that the bytes are, as
/// `r || s` and the recovery id. A recovery id below 2 says whether `y` is
/// odd, and with it the public key of the signer is recovered. Its error has
/// the one text `signature error`.
#[verifier::external_body]
pub(crate) fn sign_hash(secret: &[u8], hash: &[u8]) -> (r: Result<(Vec<u8>, u8), String>)
    requires
        hash@.len() == 32,
    ensures
        match r {
            Ok(p) => secp_signature(secret@, hash@) == Some((p.0@, p.1)) && p.0@.len() == 64 && p.1
                < 4 && secp_is_signature(p.0@),
            Err(e) => secp_signature(secret@, hash@) is None && e@ == "signature error"@,
        },
        r matches Ok(p) ==> p.1 < 2 ==> secp_public_key(secret@) is Some && secp_recovered(
            hash@,
            p.0@,
            p.1 == 1,
        ) == secp_public_key(secret@),
{
    SigningKey::from_slice(secret)
        .and_then(|k| k.sign_prehash_recoverable(hash))
        .map(|p| (p.0.to_bytes().to_vec(), p.1.to_byte()))
        .map_err(|e| e.to_string())
}

/// `Signature::from_slice`: whether the bytes are a signature. Its error has
/// the one text `signature error`.
#[verifier::external_body]
pub(crate) fn check_signature(rs: &[u8]) -> (r: Result<(), String>)
    ensures
        r is Ok <==> secp_is_signature(rs@),
        r matches Err(e) ==> e@ == "signature error"@,
{
    Signature::from_slice(rs).map(|s| ()).map_err(|e| e.to_string())
}

/// `VerifyingKey::recover_from_prehash` for a signature whose recovery id has
/// no reduced `x`, as the 65 bytes of the uncompressed point. Its error has
/// the one text `signature error`.
#[verifier::external_body]
pub(crate) fn recover_key(hash: &[u8], rs: &[u8], y_is_odd: bool) -> (r: Result<Vec<u8>, String>)
    requires
        hash@.len() == 32,
    ensures
        match r {
            Ok(k) => secp_recovered(hash@, rs@, y_is_odd) == Some(k@) && k@.len() == 65,
            Err(e) => secp_recovered(hash@, rs@, y_is_odd) is None && e@ == "signature error"@,
        },
{
    Signature::from_slice(rs)
        .and_then(|s| VerifyingKey::recover_from_prehash(hash, &s, RecoveryId::new(y_is_odd, false)))
        .map(|k| k.to_encoded_point(false).as_bytes().to_vec())
        .map_err(|e| e.to_string())
}

} // verus!

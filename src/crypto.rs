use ed25519_dalek::{Keypair, PublicKey, Signature, Signer, Verifier};
use vstd::prelude::*;

verus! {

/// Whether 32 bytes are the compressed form of a point on the curve, which is
/// what `PublicKey::from_bytes` checks.
pub uninterp spec fn is_public_key(key: Seq<u8>) -> bool;

/// The signature that the keypair with the 64 bytes `keypair` (secret half,
/// then public half) makes on `msg`.
pub uninterp spec fn ed25519_signature(keypair: Seq<u8>, msg: Seq<u8>) -> Seq<u8>;

/// Whether `sig` is a valid signature on `msg` under the public key `key`.
pub uninterp spec fn ed25519_verifies(key: Seq<u8>, msg: Seq<u8>, sig: Seq<u8>) -> bool;

/// The check that `Signature::from_bytes` makes on 64 bytes: the three highest
/// bits of the scalar half are clear.
pub open spec fn is_signature_encoding(sig: Seq<u8>) -> bool {
    sig.len() == 64 && sig[63] & 0xe0u8 == 0
}

#[verifier::external_type_specification]
#[verifier::external_body]
pub struct ExKeypair(Keypair);

/// Relies on `PublicKey::from_bytes`: it accepts 32 bytes exactly when they
/// decompress to a curve point.
#[verifier::external_body]
pub(crate) fn public_key_parses(key: &[u8; 32]) -> (r: bool)
    ensures
        r == is_public_key(key@),
{
    PublicKey::from_bytes(key).is_ok()
}

/// Relies on `Signature::from_bytes` (ed25519 1.5): 64 bytes are accepted
/// exactly when the top three bits of the last byte are clear.
#[verifier::external_body]
pub(crate) fn signature_parses(sig: &[u8; 64]) -> (r: bool)
    ensures
        r == is_signature_encoding(sig@),
{
    Signature::from_bytes(sig).is_ok()
}

/// Relies on `Keypair::to_bytes` and the `Signer` impl of `Keypair`: the
/// keypair's 64 bytes, and its (deterministic) signature on `msg`.
#[verifier::external_body]
pub(crate) fn keypair_sign(key: &Keypair, msg: &[u8]) -> (r: ([u8; 64], [u8; 64]))
    ensures
        r.1@ == ed25519_signature(r.0@, msg@),
{
    (key.to_bytes(), key.sign(msg).to_bytes())
}

/// Relies on the `Verifier` impl of `PublicKey`, after `PublicKey::from_bytes`
/// and `Signature::from_bytes` have read the two byte arrays; a key or a
/// signature that does not parse verifies nothing.
#[verifier::external_body]
pub(crate) fn verify_signature(key: &[u8; 32], msg: &[u8], sig: &[u8; 64]) -> (r: bool)
    ensures
        r == ed25519_verifies(key@, msg@, sig@),
        r ==> is_public_key(key@) && is_signature_encoding(sig@),
{
    match (PublicKey::from_bytes(key), Signature::from_bytes(sig)) {
        (Ok(k), Ok(s)) => k.verify(msg, &s).is_ok(),
        _ => false,
    }
}

} // verus!

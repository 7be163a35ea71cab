//! Ed25519 keys and signatures, and random numbers.

use vstd::prelude::*;

use ed25519_dalek::{Keypair, PublicKey, Signature, Signer, Verifier};

use crate::account::{PublicKeyBytes, SignatureBytes};

verus! {

#[verifier::external_type_specification]
#[verifier::external_body]
pub struct ExKeypair(Keypair);

/// Whether `signature` is an ed25519 signature of `message` under the
/// verification key `public_key`.
pub uninterp spec fn signature_accepted(
    public_key: Seq<u8>,
    message: Seq<u8>,
    signature: Seq<u8>,
) -> bool;

/// Relies on ed25519_dalek::PublicKey::verify (after PublicKey::from_bytes and
/// Signature::from_bytes, whose errors count as a rejection): whether the
/// signature of the message checks against the key.
#[verifier::external_body]
pub(crate) fn ed25519_verify(
    public_key: &PublicKeyBytes,
    message: &[u8],
    signature: &SignatureBytes,
) -> (r: bool)
    ensures
        r == signature_accepted(public_key@, message@, signature@),
{
    match (PublicKey::from_bytes(public_key), Signature::from_bytes(signature)) {
        (Ok(key), Ok(sig)) => key.verify(message, &sig).is_ok(),
        _ => false,
    }
}

/// Relies on ed25519_dalek::Keypair::sign: the signature of the message.
#[verifier::external_body]
pub(crate) fn ed25519_sign(keypair: &Keypair, message: &[u8]) -> (r: SignatureBytes) {
    keypair.sign(message).to_bytes()
}

/// Relies on ed25519_dalek::Keypair::generate with the operating system's
/// random source (rand::rngs::OsRng): a fresh key pair.
#[verifier::external_body]
pub(crate) fn generate_keypair() -> (r: Keypair) {
    Keypair::generate(&mut rand::rngs::OsRng {})
}

/// Relies on ed25519_dalek::PublicKey::to_bytes: the public half of the pair.
#[verifier::external_body]
pub(crate) fn keypair_public_key(keypair: &Keypair) -> (r: PublicKeyBytes) {
    keypair.public.to_bytes()
}

/// rand::random draws a value from the thread-local generator; nothing is
/// known of it.
pub assume_specification<T>[ rand::random::<T> ]() -> (r: T)
    where
        rand::distributions::Standard: rand::distributions::Distribution<T>,
;

} // verus!

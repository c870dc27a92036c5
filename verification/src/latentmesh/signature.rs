//! Ed25519 envelope authentication at the receive seam.

use ed25519_dalek::{Signature, VerifyingKey};
use vstd::prelude::*;

use super::protocol::{ProtocolError, ProtocolResult};

verus! {

/// Whether Ed25519 strict verification accepts `signature` over `message`
/// under the public key whose compressed encoding is `public_key`.
pub uninterp spec fn ed25519_strict_accepts(
    public_key: Seq<u8>,
    message: Seq<u8>,
    signature: Seq<u8>,
) -> bool;

/// Decompresses `public_key` with `ed25519_dalek::VerifyingKey::from_bytes`
/// and checks `signature` over `message` with `VerifyingKey::verify_strict`.
/// Both are deterministic functions of their inputs that do not panic; a key
/// that does not decompress is reported as a rejection. The contract claims
/// only that the answer is that function of the three byte strings.
#[verifier::external_body]
fn ed25519_verify_strict(public_key: &[u8; 32], message: &[u8], signature: &[u8; 64]) -> (accepted:
    bool)
    ensures
        accepted == ed25519_strict_accepts(public_key@, message@, signature@),
{
    match VerifyingKey::from_bytes(public_key) {
        Ok(key) => key.verify_strict(message, &Signature::from_bytes(signature)).is_ok(),
        Err(_) => false,
    }
}

/// The first two authentication requirements of a reassembled envelope, in
/// order: it must carry a signature, and its signed source must have a
/// trusted public key. Returns both.
pub fn require_signature_and_key(
    source_id: u32,
    signature: Option<[u8; 64]>,
    public_key: Option<[u8; 32]>,
) -> (result: ProtocolResult<([u8; 64], [u8; 32])>)
    ensures
        signature is None ==> result == Err::<([u8; 64], [u8; 32]), ProtocolError>(
            ProtocolError::SignatureRequired,
        ),
        signature is Some && public_key is None ==> result == Err::<
            ([u8; 64], [u8; 32]),
            ProtocolError,
        >(ProtocolError::UntrustedPeer(source_id)),
        signature is Some && public_key is Some ==> result == Ok::<
            ([u8; 64], [u8; 32]),
            ProtocolError,
        >((signature->Some_0, public_key->Some_0)),
{
    let signature = match signature {
        Some(signature) => signature,
        None => return Err(ProtocolError::SignatureRequired),
    };
    let public_key = match public_key {
        Some(public_key) => public_key,
        None => return Err(ProtocolError::UntrustedPeer(source_id)),
    };
    Ok((signature, public_key))
}

/// Verify an envelope's Ed25519 signature over its authentication bytes
/// under the source's trusted key; a failed check is `AuthenticationFailed`.
pub fn verify_envelope_signature(
    public_key: &[u8; 32],
    authentication_bytes: &[u8],
    signature: &[u8; 64],
) -> (result: ProtocolResult<()>)
    ensures
        result is Ok <==> ed25519_strict_accepts(public_key@, authentication_bytes@, signature@),
        result is Err ==> result == Err::<(), ProtocolError>(ProtocolError::AuthenticationFailed),
{
    if ed25519_verify_strict(public_key, authentication_bytes, signature) {
        Ok(())
    } else {
        Err(ProtocolError::AuthenticationFailed)
    }
}

} // verus!

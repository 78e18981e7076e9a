//! Ed25519 keys and signatures.
use crate::payload::Payload;
use ring::rand::SystemRandom;
use ring::signature::{Ed25519KeyPair, KeyPair, VerificationAlgorithm, ED25519};
use untrusted::Input;
use vstd::prelude::*;

verus! {

/// An Ed25519 public key: 32 raw bytes.
pub type PublicKey = [u8; 32];

/// An Ed25519 signature: 64 raw bytes.
pub type Signature = [u8; 64];

/// `ring`'s Ed25519 key pair. The library only carries it from the generator
/// to the signing functions; the private half never leaves it.
#[verifier::external_type_specification]
#[verifier::external_body]
pub struct ExEd25519KeyPair(Ed25519KeyPair);

/// Whether `sig` is an Ed25519 signature of `msg` that verifies under the
/// public key `key` (RFC 8032). False for a key or a signature that is
/// malformed; `verify_signature` states so for keys that are not 32 bytes
/// long and signatures that are not 64 bytes long.
pub uninterp spec fn ed25519_verifies(key: Seq<u8>, msg: Seq<u8>, sig: Seq<u8>) -> bool;

/// The public half of a key pair: the 32 bytes that encode the point which
/// the private scalar gives.
pub uninterp spec fn public_key_of(keypair: Ed25519KeyPair) -> Seq<u8>;

/// The Ed25519 signature that a key pair gives to a message. Ed25519 derives
/// its nonce from the key and the message, so this is a function of the two.
/// It verifies under the public half of the pair: `generate_keypair` and
/// `sign` state so.
pub uninterp spec fn signature_of(keypair: Ed25519KeyPair, msg: Seq<u8>) -> Seq<u8>;

/// Returns a new Ed25519 key pair, drawn from the system's secure random
/// number generator.
///
/// Trusted: calls `ring::signature::Ed25519KeyPair::generate_pkcs8` on a
/// `ring::rand::SystemRandom` and parses the document with
/// `Ed25519KeyPair::from_pkcs8`. Which key comes back is left open. The
/// contract claims what holds of every key pair that ring builds: its public
/// key has 32 bytes and is derived from its private scalar, so whatever the
/// pair signs verifies under that public key. Panics if the host cannot
/// supply randomness.
#[verifier::external_body]
pub fn generate_keypair() -> (keypair: Ed25519KeyPair)
    ensures
        public_key_of(keypair).len() == 32,
        forall|msg: Seq<u8>|
            ed25519_verifies(public_key_of(keypair), msg, #[trigger] signature_of(keypair, msg)),
{
    let rng = SystemRandom::new();
    let pkcs8 = Ed25519KeyPair::generate_pkcs8(&rng).unwrap();
    Ed25519KeyPair::from_pkcs8(pkcs8.as_ref()).unwrap()
}

/// Returns the public key of `keypair`.
///
/// Trusted: calls `ring::signature::KeyPair::public_key` and copies its 32
/// bytes. The contract only names them.
#[verifier::external_body]
pub fn get_pubkey(keypair: &Ed25519KeyPair) -> (key: PublicKey)
    ensures
        key@ == public_key_of(*keypair),
{
    let mut key = [0u8; 32];
    key.copy_from_slice(keypair.public_key().as_ref());
    key
}

/// Signs `msg` with the private key of `keypair`.
///
/// Trusted: calls `ring::signature::Ed25519KeyPair::sign` and copies the 64
/// signature bytes. The contract names them, and claims that they verify
/// over `msg` under the public key of the pair: ring derives that key from
/// the private scalar and signs as RFC 8032 prescribes, which is what its
/// verification accepts.
#[verifier::external_body]
pub(crate) fn sign(keypair: &Ed25519KeyPair, msg: &[u8]) -> (sig: Signature)
    ensures
        sig@ == signature_of(*keypair, msg@),
        ed25519_verifies(public_key_of(*keypair), msg@, sig@),
{
    let mut sig = [0u8; 64];
    sig.copy_from_slice(keypair.sign(msg).as_ref());
    sig
}

/// Verifies a signed message with the given public key. Malformed keys and
/// malformed signatures are reported as `false`, like signatures that do not
/// match.
///
/// Trusted: calls ring's `VerificationAlgorithm::verify` for `ED25519` on the
/// three byte strings, each wrapped with `untrusted::Input::from`, and
/// reports whether it returned `Ok`. The contract claims that the verdict is
/// a function of the three byte strings alone, and that it is `false` for a
/// key that is not 32 bytes long and for a signature that is not 64 bytes
/// long: ring rejects both before it computes anything.
#[verifier::external_body]
pub fn verify_signature(peer_public_key_bytes: &[u8], msg_bytes: &[u8], sig_bytes: &[u8]) -> (ok:
    bool)
    ensures
        ok == ed25519_verifies(peer_public_key_bytes@, msg_bytes@, sig_bytes@),
        peer_public_key_bytes@.len() != 32 || sig_bytes@.len() != 64 ==> !ok,
{
    let peer_public_key = Input::from(peer_public_key_bytes);
    let msg = Input::from(msg_bytes);
    let sig = Input::from(sig_bytes);
    ED25519.verify(peer_public_key, msg, sig).is_ok()
}

/// Writes the bytes that the signature of a `Transaction` covers: the
/// encoding of the payload, followed by the destination key.
pub fn transfer_message<T: Payload>(data: &T, to: &PublicKey) -> (message: Vec<u8>)
    ensures
        message@ == data.encoding() + to@,
{
    let mut message = data.encode();
    let ghost encoded = message@;
    message.extend_from_slice(to);
    assert(message@ =~= encoded + to@);
    message
}

/// Returns a signature for the given data using the private key from the
/// given key pair: the signature of a `Claim`. It covers the canonical
/// encoding of the data and verifies under the public key of the pair.
pub fn sign_serialized<T: Payload>(data: &T, keypair: &Ed25519KeyPair) -> (sig: Signature)
    ensures
        sig@ == signature_of(*keypair, data.encoding()),
        ed25519_verifies(public_key_of(*keypair), data.encoding(), sig@),
{
    let serialized = data.encode();
    sign(keypair, serialized.as_slice())
}

/// Returns a signature for the given transaction data using the private key
/// from the given key pair: the signature of a `Transaction` to `to`. It
/// covers the canonical encoding of the data followed by the destination,
/// and verifies under the public key of the pair.
pub fn sign_transaction_data<T: Payload>(
    data: &T,
    keypair: &Ed25519KeyPair,
    to: &PublicKey,
) -> (sig: Signature)
    ensures
        sig@ == signature_of(*keypair, data.encoding() + to@),
        ed25519_verifies(public_key_of(*keypair), data.encoding() + to@, sig@),
{
    let message = transfer_message(data, to);
    sign(keypair, message.as_slice())
}

} // verus!

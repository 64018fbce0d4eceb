//! The boundary to the `libp2p` identity types: signing keys, public keys and
//! the peer identifiers derived from them.
//!
//! Nothing in this file is proved. Each function makes one call into
//! `libp2p` and states what that call is documented to return; the key types
//! themselves are opaque to the verifier.

use libp2p::identity::{DecodingError, Keypair, PublicKey, SigningError};
use libp2p::PeerId;
use vstd::prelude::*;

verus! {

/// `libp2p::identity::Keypair`: a node's signing key, opaque here.
#[verifier::external_type_specification]
#[verifier::external_body]
pub struct ExKeypair(Keypair);

/// `libp2p::identity::PublicKey`: opaque here but for its encoding.
#[verifier::external_type_specification]
#[verifier::external_body]
pub struct ExPublicKey(PublicKey);

/// `libp2p::identity::DecodingError`: why key material failed to decode.
#[verifier::external_type_specification]
#[verifier::external_body]
pub struct ExDecodingError(DecodingError);

/// `libp2p::identity::SigningError`: why a message could not be signed.
#[verifier::external_type_specification]
#[verifier::external_body]
pub struct ExSigningError(SigningError);

/// The protobuf encoding of a public key, as `encode_protobuf` returns it.
pub uninterp spec fn public_key_encoding(key: PublicKey) -> Seq<u8>;

/// The key that `bytes` decode to, given by its own encoding, or `None`
/// where `try_decode_protobuf` rejects them.
pub uninterp spec fn decoded_key(bytes: Seq<u8>) -> Option<Seq<u8>>;

/// The base-58 text of the peer identifier of the key with the given
/// encoding.
pub uninterp spec fn peer_id_text(key_encoding: Seq<u8>) -> Seq<char>;

/// Whether the key with the given encoding accepts `signature` for `msg`.
pub uninterp spec fn signature_valid(key_encoding: Seq<u8>, msg: Seq<u8>, signature: Seq<u8>) -> bool;

/// The protobuf encoding of the public key that belongs to a keypair.
pub uninterp spec fn keypair_public_encoding(keypair: Keypair) -> Seq<u8>;

/// The signature that a keypair puts on `msg`, or `None` where the key
/// cannot sign it.
pub uninterp spec fn signing_outcome(keypair: Keypair, msg: Seq<u8>) -> Option<Seq<u8>>;

/// Trusted: calls `Keypair::generate_ed25519`. The key is random, so nothing
/// is stated of it. The call panics only where the system's source of
/// randomness fails, which no argument decides.
#[verifier::external_body]
pub(crate) fn generate_keypair() -> Keypair {
    Keypair::generate_ed25519()
}

/// Trusted: the `Clone` impl that `libp2p` derives for `Keypair` copies the
/// key, so the clone is the same key.
pub assume_specification[ <Keypair as Clone>::clone ](keypair: &Keypair) -> (res: Keypair)
    ensures
        res == *keypair,
;

/// Trusted: calls `Keypair::public`, a function of the keypair alone. The
/// contract names the key returned by its encoding.
#[verifier::external_body]
pub(crate) fn public_key_of(keypair: &Keypair) -> (key: PublicKey)
    ensures
        public_key_encoding(key) == keypair_public_encoding(*keypair),
{
    keypair.public()
}

/// Trusted: calls `Keypair::sign`, a function of the keypair and the message
/// alone. The contract names the outcome: the signature returned is the one
/// that the key puts on the message, and an error means that it puts none.
#[verifier::external_body]
pub(crate) fn sign_message(keypair: &Keypair, msg: &[u8]) -> (res: Result<Vec<u8>, SigningError>)
    ensures
        match res {
            Ok(signature) => signing_outcome(*keypair, msg@) == Some(signature@),
            Err(_) => signing_outcome(*keypair, msg@) is None,
        },
{
    keypair.sign(msg)
}

/// Trusted: calls `PublicKey::encode_protobuf`, whose result is the key's
/// encoding by definition.
#[verifier::external_body]
pub(crate) fn encode_public_key(key: &PublicKey) -> (bytes: Vec<u8>)
    ensures
        bytes@ == public_key_encoding(*key),
{
    key.encode_protobuf()
}

/// Trusted: calls `PublicKey::try_decode_protobuf`, a function of the bytes
/// alone. The contract names the outcome: the key returned is the one that
/// the bytes decode to, and an error means that they decode to none.
#[verifier::external_body]
pub(crate) fn decode_public_key(bytes: &[u8]) -> (res: Result<PublicKey, DecodingError>)
    ensures
        match res {
            Ok(key) => decoded_key(bytes@) == Some(public_key_encoding(key)),
            Err(_) => decoded_key(bytes@) is None,
        },
{
    PublicKey::try_decode_protobuf(bytes)
}

/// Trusted: calls `PeerId::from_public_key`, which hashes the key's
/// encoding, and prints the identifier in base 58. The contract names the
/// text as a function of that encoding.
#[verifier::external_body]
pub(crate) fn peer_id_of(key: &PublicKey) -> (id: String)
    ensures
        id@ == peer_id_text(public_key_encoding(*key)),
{
    PeerId::from_public_key(key).to_string()
}

/// Trusted: calls `PublicKey::verify`, a function of the key, the message and
/// the signature. The contract names its verdict.
#[verifier::external_body]
pub(crate) fn key_verifies(key: &PublicKey, msg: &[u8], signature: &[u8]) -> (ok: bool)
    ensures
        ok == signature_valid(public_key_encoding(*key), msg@, signature@),
{
    key.verify(msg, signature)
}

} // verus!

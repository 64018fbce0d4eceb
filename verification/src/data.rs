//! The signed envelope in which every payload travels between peers.

use libp2p::identity::SigningError;
use vstd::prelude::*;

use crate::encoding::same_text;
use crate::identity::{
    decode_public_key, decoded_key, key_verifies, peer_id_of, peer_id_text, sign_message, signature_valid,
    signing_outcome,
};
use crate::node::Node;

verus! {

/// Why an envelope could not be made or checked.
#[derive(Debug, Clone, Copy, PartialEq, Eq, Structural)]
pub enum EnvelopeError {
    /// The sender's public key does not decode.
    UndecodableKey,
    /// The payload could not be signed.
    SigningFailed,
}

/// A payload with the sender's identifier, public key and signature.
#[derive(Debug)]
pub struct Data {
    pub node_id: String,
    pub data: Vec<u8>,
    pub signature: Vec<u8>,
    pub public_key: Vec<u8>,
}

/// What a [`Data`] holds.
pub ghost struct DataView {
    pub node_id: Seq<char>,
    pub data: Seq<u8>,
    pub signature: Seq<u8>,
    pub public_key: Seq<u8>,
}

impl View for Data {
    type V = DataView;

    open spec fn view(&self) -> DataView {
        DataView {
            node_id: self.node_id@,
            data: self.data@,
            signature: self.signature@,
            public_key: self.public_key@,
        }
    }
}

impl DataView {
    /// The verdict on an envelope: `None` where the public key does not
    /// decode; otherwise whether the sender's identifier is the one that the
    /// key determines and the signature is valid for the payload under it.
    pub open spec fn authentic(self) -> Option<bool> {
        match decoded_key(self.public_key) {
            None => None,
            Some(key) => Some(
                peer_id_text(key) == self.node_id && signature_valid(key, self.data, self.signature),
            ),
        }
    }
}

/// The envelope in which `node` sends `data`, or `None` where the node's key
/// cannot sign the payload.
pub open spec fn sealed_envelope(node: &Node, data: Seq<u8>) -> Option<DataView> {
    match signing_outcome(node.private_key, data) {
        Some(signature) => Some(
            DataView { node_id: node.id@, data: data, signature: signature, public_key: node.public_key@ },
        ),
        None => None,
    }
}

impl Clone for Data {
    fn clone(&self) -> (out: Self)
        ensures
            out@ == self@,
    {
        Data {
            node_id: self.node_id.clone(),
            data: self.data.clone(),
            signature: self.signature.clone(),
            public_key: self.public_key.clone(),
        }
    }
}

impl Data {
    /// Wraps `data` with the identity of `node` and the outcome of signing
    /// it.
    pub fn from_signature(node: &Node, data: Vec<u8>, signed: Result<Vec<u8>, SigningError>) -> (res: Result<
        Data,
        EnvelopeError,
    >)
        ensures
            match res {
                Ok(envelope) => signed matches Ok(signature) && envelope@ == (DataView {
                    node_id: node.id@,
                    data: data@,
                    signature: signature@,
                    public_key: node.public_key@,
                }),
                Err(e) => signed is Err && e == EnvelopeError::SigningFailed,
            },
    {
        match signed {
            Ok(signature) => Ok(
                Data { node_id: node.id.clone(), data, signature, public_key: node.public_key.clone() },
            ),
            Err(_) => Err(EnvelopeError::SigningFailed),
        }
    }

    /// Signs `data` with the key of `node` and wraps it for sending: the
    /// envelope carries the node's identifier and public key, the payload,
    /// and the signature that the node's key puts on the payload. Sealing
    /// fails exactly where the key cannot sign.
    pub fn seal(node: &Node, data: Vec<u8>) -> (res: Result<Data, EnvelopeError>)
        ensures
            match res {
                Ok(envelope) => sealed_envelope(node, data@) == Some(envelope@),
                Err(e) => sealed_envelope(node, data@) is None && e == EnvelopeError::SigningFailed,
            },
    {
        let signed = sign_message(&node.private_key, data.as_slice());
        Data::from_signature(node, data, signed)
    }

    /// Checks an envelope before its payload is read: the public key must
    /// decode, the sender's identifier must be the one that the key
    /// determines, and the signature must be valid for the payload.
    pub fn verify(&self) -> (res: Result<bool, EnvelopeError>)
        ensures
            match res {
                Ok(ok) => self@.authentic() == Some(ok),
                Err(e) => self@.authentic() is None && e == EnvelopeError::UndecodableKey,
            },
    {
        let public_key = match decode_public_key(self.public_key.as_slice()) {
            Ok(key) => key,
            Err(_) => {
                return Err(EnvelopeError::UndecodableKey);
            },
        };
        let expected_id = peer_id_of(&public_key);
        if !same_text(expected_id.as_str(), self.node_id.as_str()) {
            return Ok(false);
        }
        Ok(key_verifies(&public_key, self.data.as_slice(), self.signature.as_slice()))
    }
}

} // verus!

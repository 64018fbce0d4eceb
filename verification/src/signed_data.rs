//! A payload signed by a key that the receiver already knows.

use libp2p::identity::{Keypair, PublicKey, SigningError};
use vstd::prelude::*;

use crate::data::EnvelopeError;
use crate::identity::{key_verifies, public_key_encoding, sign_message, signature_valid, signing_outcome};

verus! {

/// A payload, its signature, and the identifier of the signer.
#[derive(Debug)]
pub struct SignedData {
    pub data: Vec<u8>,
    pub signature: Vec<u8>,
    pub id: String,
}

/// What a [`SignedData`] holds.
pub ghost struct SignedDataView {
    pub data: Seq<u8>,
    pub signature: Seq<u8>,
    pub id: Seq<char>,
}

impl View for SignedData {
    type V = SignedDataView;

    open spec fn view(&self) -> SignedDataView {
        SignedDataView { data: self.data@, signature: self.signature@, id: self.id@ }
    }
}

impl Clone for SignedData {
    fn clone(&self) -> (out: Self)
        ensures
            out@ == self@,
    {
        SignedData { data: self.data.clone(), signature: self.signature.clone(), id: self.id.clone() }
    }
}

impl SignedData {
    /// Joins `data` and the signer's `id` with the outcome of signing.
    pub fn from_signature(data: Vec<u8>, signed: Result<Vec<u8>, SigningError>, id: String) -> (res: Result<
        Self,
        EnvelopeError,
    >)
        ensures
            match res {
                Ok(out) => signed matches Ok(signature) && out@ == (SignedDataView {
                    data: data@,
                    signature: signature@,
                    id: id@,
                }),
                Err(e) => signed is Err && e == EnvelopeError::SigningFailed,
            },
    {
        match signed {
            Ok(signature) => Ok(SignedData { data, signature, id }),
            Err(_) => Err(EnvelopeError::SigningFailed),
        }
    }

    /// Signs `data` with `private_key` on behalf of the signer `id`: the
    /// result carries the payload, the signature that the key puts on it,
    /// and the signer's identifier. It fails exactly where the key cannot
    /// sign.
    pub fn new(data: Vec<u8>, private_key: &Keypair, id: String) -> (res: Result<Self, EnvelopeError>)
        ensures
            match res {
                Ok(out) => signing_outcome(*private_key, data@) == Some(out@.signature) && out@.data == data@
                    && out@.id == id@,
                Err(e) => signing_outcome(*private_key, data@) is None && e == EnvelopeError::SigningFailed,
            },
    {
        let signed = sign_message(private_key, data.as_slice());
        SignedData::from_signature(data, signed, id)
    }

    /// Whether the signature is valid for the payload under `public_key`.
    pub fn verify(&self, public_key: &PublicKey) -> (ok: bool)
        ensures
            ok == signature_valid(public_key_encoding(*public_key), self@.data, self@.signature),
    {
        key_verifies(public_key, self.data.as_slice(), self.signature.as_slice())
    }
}

} // verus!

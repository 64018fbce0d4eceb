//! The records that peers exchange and that blocks commit to.

use vstd::prelude::*;

use crate::encoding::{debug_quoted, debug_text, decimal_string, to_decimal};

verus! {

/// The committed record that `miner_id` has taken custody of the file of
/// `request_id`.
#[derive(Debug)]
pub struct StorageTx {
    pub miner_id: String,
    pub request_id: String,
    pub file_hash: String,
    pub file_size: usize,
}

/// What a [`StorageTx`] holds.
pub ghost struct StorageTxView {
    pub miner_id: Seq<char>,
    pub request_id: Seq<char>,
    pub file_hash: Seq<char>,
    pub file_size: nat,
}

impl View for StorageTx {
    type V = StorageTxView;

    open spec fn view(&self) -> StorageTxView {
        StorageTxView {
            miner_id: self.miner_id@,
            request_id: self.request_id@,
            file_hash: self.file_hash@,
            file_size: self.file_size as nat,
        }
    }
}

impl StorageTxView {
    /// The text by which a storage transaction enters a block's digest: the
    /// record's name, then each field by name, identifiers quoted and the
    /// size in decimal.
    pub open spec fn canonical_text(self) -> Seq<char> {
        "StorageTx { miner_id: "@ + debug_text(self.miner_id) + ", request_id: "@ + debug_text(
            self.request_id,
        ) + ", file_hash: "@ + debug_text(self.file_hash) + ", file_size: "@ + decimal_string(
            self.file_size,
        ) + " }"@
    }
}

impl Clone for StorageTx {
    fn clone(&self) -> (out: Self)
        ensures
            out@ == self@,
    {
        StorageTx {
            miner_id: self.miner_id.clone(),
            request_id: self.request_id.clone(),
            file_hash: self.file_hash.clone(),
            file_size: self.file_size,
        }
    }
}

impl StorageTx {
    /// Renders the transaction as it enters a block's digest.
    pub fn canonical_text(&self) -> (out: String)
        ensures
            out@ == self@.canonical_text(),
    {
        let mut out = String::from_str("StorageTx { miner_id: ");
        out.append(debug_quoted(self.miner_id.as_str()).as_str());
        out.append(", request_id: ");
        out.append(debug_quoted(self.request_id.as_str()).as_str());
        out.append(", file_hash: ");
        out.append(debug_quoted(self.file_hash.as_str()).as_str());
        out.append(", file_size: ");
        out.append(to_decimal(self.file_size).as_str());
        out.append(" }");
        out
    }
}

/// A reward entry, reserved for accounting that no flow fills in yet.
///
/// The amount is held as its decimal text, the form in which it enters a
/// block's digest.
#[derive(Debug)]
pub struct MonetaryTx {
    pub node_id: String,
    pub amount: String,
}

/// What a [`MonetaryTx`] holds.
pub ghost struct MonetaryTxView {
    pub node_id: Seq<char>,
    pub amount: Seq<char>,
}

impl View for MonetaryTx {
    type V = MonetaryTxView;

    open spec fn view(&self) -> MonetaryTxView {
        MonetaryTxView { node_id: self.node_id@, amount: self.amount@ }
    }
}

impl MonetaryTxView {
    /// The text by which a monetary transaction enters a block's digest.
    pub open spec fn canonical_text(self) -> Seq<char> {
        "MonetaryTx { node_id: "@ + debug_text(self.node_id) + ", amount: "@ + self.amount + " }"@
    }
}

impl Clone for MonetaryTx {
    fn clone(&self) -> (out: Self)
        ensures
            out@ == self@,
    {
        MonetaryTx { node_id: self.node_id.clone(), amount: self.amount.clone() }
    }
}

impl MonetaryTx {
    /// Renders the transaction as it enters a block's digest.
    pub fn canonical_text(&self) -> (out: String)
        ensures
            out@ == self@.canonical_text(),
    {
        let mut out = String::from_str("MonetaryTx { node_id: ");
        out.append(debug_quoted(self.node_id.as_str()).as_str());
        out.append(", amount: ");
        out.append(self.amount.as_str());
        out.append(" }");
        out
    }
}

/// A storer's answer to a proof-of-storage challenge: the digest of the bytes
/// of the file of `request_id` from `start` up to `end`.
#[derive(Debug)]
pub struct ProofOfStorageTx {
    pub request_id: String,
    pub node_id: String,
    pub start: usize,
    pub end: usize,
    pub proof_hash: String,
}

/// What a [`ProofOfStorageTx`] holds.
pub ghost struct ProofOfStorageTxView {
    pub request_id: Seq<char>,
    pub node_id: Seq<char>,
    pub start: nat,
    pub end: nat,
    pub proof_hash: Seq<char>,
}

impl View for ProofOfStorageTx {
    type V = ProofOfStorageTxView;

    open spec fn view(&self) -> ProofOfStorageTxView {
        ProofOfStorageTxView {
            request_id: self.request_id@,
            node_id: self.node_id@,
            start: self.start as nat,
            end: self.end as nat,
            proof_hash: self.proof_hash@,
        }
    }
}

impl Clone for ProofOfStorageTx {
    fn clone(&self) -> (out: Self)
        ensures
            out@ == self@,
    {
        ProofOfStorageTx {
            request_id: self.request_id.clone(),
            node_id: self.node_id.clone(),
            start: self.start,
            end: self.end,
            proof_hash: self.proof_hash.clone(),
        }
    }
}

/// A request to be served the file of `request_id`.
#[derive(Debug)]
pub struct QueryTx {
    pub request_id: String,
}

impl View for QueryTx {
    type V = Seq<char>;

    open spec fn view(&self) -> Seq<char> {
        self.request_id@
    }
}

impl Clone for QueryTx {
    fn clone(&self) -> (out: Self)
        ensures
            out@ == self@,
    {
        QueryTx { request_id: self.request_id.clone() }
    }
}

/// The content of the file of `request_id`, sent in answer to a query.
#[derive(Debug)]
pub struct ServeFileTx {
    pub request_id: String,
    pub file_content: Vec<u8>,
}

impl View for ServeFileTx {
    type V = (Seq<char>, Seq<u8>);

    open spec fn view(&self) -> (Seq<char>, Seq<u8>) {
        (self.request_id@, self.file_content@)
    }
}

impl Clone for ServeFileTx {
    fn clone(&self) -> (out: Self)
        ensures
            out@ == self@,
    {
        ServeFileTx { request_id: self.request_id.clone(), file_content: self.file_content.clone() }
    }
}

} // verus!

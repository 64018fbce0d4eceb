//! A block of the ledger and its digest.

use vstd::prelude::*;
use vstd::utf8::encode_utf8;

use crate::encoding::{hex_string, to_hex};
use crate::transaction::{MonetaryTx, MonetaryTxView, StorageTx, StorageTxView};
use crate::utils::{sha256, sha256_digest};

verus! {

/// One entry of the ledger: at most one storage and one monetary transaction,
/// chained to its predecessor by that block's digest.
#[derive(Debug)]
pub struct Block {
    pub previous_hash: Option<String>,
    pub mtx: Option<MonetaryTx>,
    pub stx: Option<StorageTx>,
    pub hash: String,
}

/// What a [`Block`] holds.
pub ghost struct BlockView {
    pub previous_hash: Option<Seq<char>>,
    pub mtx: Option<MonetaryTxView>,
    pub stx: Option<StorageTxView>,
    pub hash: Seq<char>,
}

impl View for Block {
    type V = BlockView;

    open spec fn view(&self) -> BlockView {
        BlockView {
            previous_hash: match self.previous_hash {
                Some(h) => Some(h@),
                None => None,
            },
            mtx: match self.mtx {
                Some(tx) => Some(tx@),
                None => None,
            },
            stx: match self.stx {
                Some(tx) => Some(tx@),
                None => None,
            },
            hash: self.hash@,
        }
    }
}

impl BlockView {
    /// The text that is digested: the predecessor's digest, then the storage
    /// transaction, then the monetary transaction, each empty when absent.
    pub open spec fn digest_input(self) -> Seq<char> {
        (match self.previous_hash {
            Some(h) => h,
            None => Seq::empty(),
        }) + (match self.stx {
            Some(tx) => tx.canonical_text(),
            None => Seq::empty(),
        }) + (match self.mtx {
            Some(tx) => tx.canonical_text(),
            None => Seq::empty(),
        })
    }

    /// The digest that the block's content determines.
    pub open spec fn content_hash(self) -> Seq<char> {
        hex_string(sha256(encode_utf8(self.digest_input())))
    }

    /// Whether the recorded digest is the one the content determines.
    pub open spec fn sealed(self) -> bool {
        self.hash == self.content_hash()
    }

    /// The genesis block: no predecessor and no transaction.
    pub open spec fn is_genesis(self) -> bool {
        self.previous_hash is None && self.stx is None && self.mtx is None
    }
}

/// The genesis block: no predecessor, no transaction, and the digest of
/// that content.
pub open spec fn genesis_block() -> BlockView {
    let content = BlockView { previous_hash: None, mtx: None, stx: None, hash: Seq::empty() };
    BlockView { previous_hash: None, mtx: None, stx: None, hash: content.content_hash() }
}

impl Clone for Block {
    fn clone(&self) -> (out: Self)
        ensures
            out@ == self@,
    {
        Block {
            previous_hash: match &self.previous_hash {
                Some(h) => Some(h.clone()),
                None => None,
            },
            mtx: match &self.mtx {
                Some(tx) => Some(tx.clone()),
                None => None,
            },
            stx: match &self.stx {
                Some(tx) => Some(tx.clone()),
                None => None,
            },
            hash: self.hash.clone(),
        }
    }
}

impl Block {
    /// Computes the digest of the block's content and records it in `hash`,
    /// leaving the content as it was.
    pub fn calculate_hash(self) -> (out: Self)
        ensures
            out@.previous_hash == self@.previous_hash,
            out@.stx == self@.stx,
            out@.mtx == self@.mtx,
            out@.hash == self@.content_hash(),
            out@.hash.len() == 64,
            out@.sealed(),
    {
        let mut data = match &self.previous_hash {
            Some(h) => h.clone(),
            None => String::new(),
        };
        match &self.stx {
            Some(tx) => {
                data.append(tx.canonical_text().as_str());
            },
            None => {
                assert(data@ + Seq::<char>::empty() =~= data@);
            },
        }
        match &self.mtx {
            Some(tx) => {
                data.append(tx.canonical_text().as_str());
            },
            None => {
                assert(data@ + Seq::<char>::empty() =~= data@);
            },
        }
        let digest = sha256_digest(data.as_str().as_bytes());
        let hash = to_hex(digest.as_slice());
        Block { previous_hash: self.previous_hash, mtx: self.mtx, stx: self.stx, hash }
    }

    /// Whether the recorded digest is the one the content determines.
    pub fn is_sealed(&self) -> (ok: bool)
        ensures
            ok == self@.sealed(),
    {
        let fresh = self.clone().calculate_hash();
        fresh.hash == self.hash
    }
}

/// A block's digest depends on its predecessor's digest and its two
/// transactions alone: blocks that agree on these have the same digest.
pub proof fn lemma_content_hash_is_function_of_content(a: BlockView, b: BlockView)
    requires
        a.previous_hash == b.previous_hash,
        a.stx == b.stx,
        a.mtx == b.mtx,
    ensures
        a.content_hash() == b.content_hash(),
{
}

} // verus!

//! What a node decides when a timer fires or a message arrives. The caller
//! runs the loop: it waits, reads and sends, and hands each event to the
//! handler that decides on it.

use std::collections::VecDeque;
use vstd::prelude::*;

use crate::block::{Block, BlockView};
use crate::blockchain::{chain_valid, genesis_ledger, merged_ledger, Blockchain};
use crate::data::Data;
use crate::encoding::texts;
use crate::mempool::{
    ledger_after_mining, lemma_mined_block_extends_chain, mining_outcome, queue_add, MemPoolRequest, Mempool,
    MiningError, DEFAULT_MAX_SIZE,
};
use crate::node::Node;
use crate::peers::PeerSet;
use crate::post::{check_proof, proves_storage};
use crate::storage_index::storers_in;
use crate::transaction::{ProofOfStorageTx, QueryTx};

verus! {

/// Why a message was set aside. None of these stops the node.
#[derive(Debug, Clone, Copy, PartialEq, Eq, Structural)]
pub enum DispatchError {
    /// The envelope's key does not decode, its sender is not the key's
    /// owner, or its signature is invalid.
    UnverifiedEnvelope,
    /// The payload matches no kind.
    UnknownPayload,
    /// A peer asks for a file that this node does not store.
    QueriedFileNotStored,
    /// A proof for a request that this node does not store.
    ProofNotForMe,
    /// A proof for a request that the ledger does not know.
    UnknownProofRequest,
    /// A proof whose digest does not match the local copy.
    InvalidProof,
}

impl DispatchError {
    /// A sentence for the operator.
    pub fn message(&self) -> (text: String)
        ensures
            text@ == match *self {
                DispatchError::UnverifiedEnvelope => "cannot verify received data"@,
                DispatchError::UnknownPayload => "invalid received_signed_data"@,
                DispatchError::QueriedFileNotStored => "queried file is not stored by me"@,
                DispatchError::ProofNotForMe => "proof is not for me"@,
                DispatchError::UnknownProofRequest => "invalid received_proof"@,
                DispatchError::InvalidProof => "invalid proof"@,
            },
    {
        match self {
            DispatchError::UnverifiedEnvelope => String::from_str("cannot verify received data"),
            DispatchError::UnknownPayload => String::from_str("invalid received_signed_data"),
            DispatchError::QueriedFileNotStored => String::from_str("queried file is not stored by me"),
            DispatchError::ProofNotForMe => String::from_str("proof is not for me"),
            DispatchError::UnknownProofRequest => String::from_str("invalid received_proof"),
            DispatchError::InvalidProof => String::from_str("invalid proof"),
        }
    }
}

/// The kinds of payload that an envelope may carry.
#[derive(Debug, Clone, Copy, PartialEq, Eq, Structural)]
pub enum PayloadKind {
    /// A snapshot of a peer's ledger.
    Ledger,
    /// A storage request for the mempool.
    Request,
    /// A proof of storage.
    Proof,
    /// The content of a file, in answer to a query.
    File,
    /// A query for a file.
    Query,
}

impl PayloadKind {
    /// The place of a kind in the order in which a payload is tried against
    /// the kinds; the first kind that its structure matches wins.
    pub open spec fn rank(self) -> nat {
        match self {
            PayloadKind::Ledger => 0,
            PayloadKind::Request => 1,
            PayloadKind::Proof => 2,
            PayloadKind::File => 3,
            PayloadKind::Query => 4,
        }
    }

    /// The kind to try first.
    pub fn first() -> (kind: PayloadKind)
        ensures
            kind.rank() == 0,
    {
        PayloadKind::Ledger
    }

    /// The kind to try after this one has failed to match. When this was the
    /// last, the payload matches no kind and is set aside.
    pub fn next(self) -> (next: Result<PayloadKind, DispatchError>)
        ensures
            match next {
                Ok(kind) => kind.rank() == self.rank() + 1,
                Err(e) => self.rank() == 4 && e == DispatchError::UnknownPayload,
            },
    {
        match self {
            PayloadKind::Ledger => Ok(PayloadKind::Request),
            PayloadKind::Request => Ok(PayloadKind::Proof),
            PayloadKind::Proof => Ok(PayloadKind::File),
            PayloadKind::File => Ok(PayloadKind::Query),
            PayloadKind::Query => Err(DispatchError::UnknownPayload),
        }
    }
}

/// Admits an envelope: its payload may be read only if the envelope is
/// authentic.
pub fn admit_envelope(envelope: &Data) -> (res: Result<(), DispatchError>)
    ensures
        res is Ok <==> envelope@.authentic() == Some(true),
        res matches Err(e) ==> e == DispatchError::UnverifiedEnvelope,
{
    match envelope.verify() {
        Ok(true) => Ok(()),
        Ok(false) => Err(DispatchError::UnverifiedEnvelope),
        Err(_) => Err(DispatchError::UnverifiedEnvelope),
    }
}

/// What a mining tick did.
#[derive(Debug)]
pub enum MineTick {
    /// No request waits.
    Idle,
    /// No peer is known, not even the node itself: no sortition can be held.
    NoCandidates,
    /// The oldest request was tried and refused; it has left the mempool.
    Refused { request: MemPoolRequest, error: MiningError },
    /// The oldest request was mined into `block`; the caller persists the
    /// request's file.
    Mined { request: MemPoolRequest, block: Block },
}

/// Everything a node keeps between events.
#[derive(Debug)]
pub struct NodeState {
    pub node: Node,
    pub blockchain: Blockchain,
    pub mempool: Mempool,
    pub serving_q: VecDeque<String>,
    pub peers: PeerSet,
}

impl NodeState {
    /// The state of a node that has just started: a ledger with the genesis
    /// block alone, an empty mempool of the default capacity, nothing to
    /// serve, and itself as the only known peer.
    pub fn new(node: Node) -> (state: Self)
        ensures
            state.node == node,
            state.blockchain@ == genesis_ledger(),
            chain_valid(state.blockchain@.chain),
            state.mempool@.requests.len() == 0,
            state.mempool@.max_size == DEFAULT_MAX_SIZE,
            state.serving_q@.len() == 0,
            state.peers@ == set![node.id@],
    {
        let mut peers = PeerSet::new();
        peers.insert(node.id.clone());
        assert(peers@ =~= set![node.id@]);
        NodeState {
            node,
            blockchain: Blockchain::new_with_genesis_block(),
            mempool: Mempool::with_default_capacity(),
            serving_q: VecDeque::new(),
            peers,
        }
    }

    /// A peer has appeared.
    pub fn on_peer_discovered(&mut self, peer_id: String)
        ensures
            final(self).peers@ == old(self).peers@.insert(peer_id@),
            final(self).node == old(self).node,
            final(self).blockchain == old(self).blockchain,
            final(self).mempool == old(self).mempool,
            final(self).serving_q == old(self).serving_q,
    {
        self.peers.insert(peer_id);
    }

    /// A peer has gone.
    pub fn on_peer_expired(&mut self, peer_id: &str)
        ensures
            final(self).peers@ == old(self).peers@.remove(peer_id@),
            final(self).node == old(self).node,
            final(self).blockchain == old(self).blockchain,
            final(self).mempool == old(self).mempool,
            final(self).serving_q == old(self).serving_q,
    {
        self.peers.remove(peer_id);
    }

    /// The time to mine has come: the oldest waiting request is tried once
    /// and leaves the mempool whatever the outcome.
    pub fn on_mine_tick(&mut self) -> (tick: MineTick)
        requires
            old(self).blockchain@.chain.len() > 0,
        ensures
            final(self).node == old(self).node,
            final(self).peers == old(self).peers,
            final(self).serving_q == old(self).serving_q,
            final(self).mempool@.max_size == old(self).mempool@.max_size,
            final(self).blockchain@.chain.len() > 0,
            chain_valid(old(self).blockchain@.chain) ==> chain_valid(final(self).blockchain@.chain),
            tick matches MineTick::Refused { error, .. } && error == MiningError::NotElected ==> old(
                self,
            ).peers@.len() > 3,
            match tick {
                MineTick::Idle => {
                    &&& old(self).mempool@.requests.len() == 0
                    &&& final(self).mempool@ == old(self).mempool@
                    &&& final(self).blockchain@ == old(self).blockchain@
                },
                MineTick::NoCandidates => {
                    &&& old(self).mempool@.requests.len() > 0
                    &&& old(self).peers@.len() == 0
                    &&& final(self).mempool@ == old(self).mempool@
                    &&& final(self).blockchain@ == old(self).blockchain@
                },
                MineTick::Refused { request, error } => {
                    &&& old(self).mempool@.requests.len() > 0
                    &&& old(self).peers@.len() > 0
                    &&& request@ == old(self).mempool@.requests[0]
                    &&& final(self).mempool@.requests == old(self).mempool@.requests.drop_first()
                    &&& mining_outcome(
                        request@,
                        old(self).node.id@,
                        old(self).blockchain@,
                        old(self).peers@.len() as u64,
                    ) == Err::<BlockView, MiningError>(error)
                    &&& final(self).blockchain@ == old(self).blockchain@
                },
                MineTick::Mined { request, block } => {
                    &&& old(self).mempool@.requests.len() > 0
                    &&& old(self).peers@.len() > 0
                    &&& request@ == old(self).mempool@.requests[0]
                    &&& final(self).mempool@.requests == old(self).mempool@.requests.drop_first()
                    &&& mining_outcome(
                        request@,
                        old(self).node.id@,
                        old(self).blockchain@,
                        old(self).peers@.len() as u64,
                    ) == Ok::<BlockView, MiningError>(block@)
                    &&& final(self).blockchain@ == ledger_after_mining(
                        request@,
                        old(self).node.id@,
                        old(self).blockchain@,
                        old(self).peers@.len() as u64,
                    )
                },
            },
    {
        if self.mempool.is_empty() {
            return MineTick::Idle;
        }
        let total_nodes = self.peers.len();
        if total_nodes == 0 {
            return MineTick::NoCandidates;
        }
        let request = match self.mempool.pop_front() {
            Some(request) => request,
            None => {
                return MineTick::Idle;
            },
        };
        let outcome = request.mine(&self.node, &mut self.blockchain, total_nodes);
        proof {
            if outcome is Ok {
                lemma_mined_block_extends_chain(
                    request@,
                    self.node.id@,
                    old(self).blockchain@,
                    total_nodes as u64,
                );
            }
        }
        match outcome {
            Ok(block) => MineTick::Mined { request, block },
            Err(error) => MineTick::Refused { request, error },
        }
    }

    /// A peer's ledger has arrived: it is merged if its chain is valid, and
    /// dropped otherwise, so that a valid chain is only ever replaced by a
    /// valid one.
    pub fn on_ledger(&mut self, received: Blockchain) -> (merged: bool)
        ensures
            merged == chain_valid(received@.chain),
            chain_valid(old(self).blockchain@.chain) ==> chain_valid(final(self).blockchain@.chain),
            final(self).blockchain@ == if merged {
                merged_ledger(old(self).blockchain@, received@)
            } else {
                old(self).blockchain@
            },
            final(self).node == old(self).node,
            final(self).peers == old(self).peers,
            final(self).mempool == old(self).mempool,
            final(self).serving_q == old(self).serving_q,
    {
        let mut received = received;
        if received.verify() {
            self.blockchain.update(&mut received);
            true
        } else {
            false
        }
    }

    /// A storage request has arrived: it joins the mempool.
    pub fn on_request(&mut self, request: MemPoolRequest)
        ensures
            final(self).mempool@.max_size == old(self).mempool@.max_size,
            final(self).mempool@.requests == queue_add(
                old(self).mempool@.requests,
                old(self).mempool@.max_size,
                request@,
            ),
            final(self).node == old(self).node,
            final(self).peers == old(self).peers,
            final(self).blockchain == old(self).blockchain,
            final(self).serving_q == old(self).serving_q,
    {
        self.mempool.add(request);
    }

    /// A peer asks for a file. The request is queued for serving if this
    /// node stores the file, refused if other nodes store it and this one
    /// does not, and ignored if the ledger does not know it. Returns whether
    /// it was queued.
    pub fn on_query(&mut self, query: QueryTx) -> (res: Result<bool, DispatchError>)
        ensures
            res == if !old(self).blockchain@.stored.dom().contains(query@) {
                Ok::<bool, DispatchError>(false)
            } else if old(self).blockchain@.stored[query@].contains(old(self).node.id@) {
                Ok::<bool, DispatchError>(true)
            } else {
                Err::<bool, DispatchError>(DispatchError::QueriedFileNotStored)
            },
            texts(final(self).serving_q@) == if res == Ok::<bool, DispatchError>(true) {
                texts(old(self).serving_q@).push(query@)
            } else {
                texts(old(self).serving_q@)
            },
            final(self).node == old(self).node,
            final(self).peers == old(self).peers,
            final(self).blockchain == old(self).blockchain,
            final(self).mempool == old(self).mempool,
    {
        if !self.blockchain.stored.is_served(query.request_id.as_str()) {
            return Ok(false);
        }
        if !self.blockchain.stored.lists(query.request_id.as_str(), self.node.id.as_str()) {
            return Err(DispatchError::QueriedFileNotStored);
        }
        let ghost before = texts(self.serving_q@);
        self.serving_q.push_back(query.request_id);
        assert(texts(self.serving_q@) =~= before.push(query@));
        Ok(true)
    }

    /// A peer's proof of storage has arrived. Only a node that stores the
    /// same file audits it: the caller then reads its copy and hands it to
    /// [`NodeState::audit`].
    pub fn on_proof(&self, proof: &ProofOfStorageTx) -> (res: Result<(), DispatchError>)
        ensures
            res == if !self.blockchain@.stored.dom().contains(proof@.request_id) {
                Err::<(), DispatchError>(DispatchError::UnknownProofRequest)
            } else if self.blockchain@.stored[proof@.request_id].contains(self.node.id@) {
                Ok::<(), DispatchError>(())
            } else {
                Err::<(), DispatchError>(DispatchError::ProofNotForMe)
            },
    {
        if !self.blockchain.stored.is_served(proof.request_id.as_str()) {
            return Err(DispatchError::UnknownProofRequest);
        }
        if !self.blockchain.stored.lists(proof.request_id.as_str(), self.node.id.as_str()) {
            return Err(DispatchError::ProofNotForMe);
        }
        Ok(())
    }

    /// Audits a peer's proof against the local copy `file` of the same
    /// request.
    pub fn audit(&self, proof: &ProofOfStorageTx, file: &Vec<u8>) -> (res: Result<(), DispatchError>)
        ensures
            res is Ok <==> proves_storage(file@, proof@.start, proof@.end, proof@.proof_hash),
            res matches Err(e) ==> e == DispatchError::InvalidProof,
    {
        if check_proof(proof, file) {
            Ok(())
        } else {
            Err(DispatchError::InvalidProof)
        }
    }

    /// The requests whose files this node stores and has to prove, each
    /// once.
    pub fn audit_duties(&self) -> (ids: Vec<String>)
        ensures
            texts(ids@).no_duplicates(),
            forall|k: Seq<char>|
                texts(ids@).contains(k) <==> storers_in(self.blockchain@.stored, k).contains(self.node.id@),
    {
        self.blockchain.stored.requests_stored_by(self.node.id.as_str())
    }

    /// The request whose file is served next, if any.
    pub fn next_to_serve(&self) -> (next: Option<&String>)
        ensures
            match next {
                Some(id) => self.serving_q@.len() > 0 && *id == self.serving_q@[0],
                None => self.serving_q@.len() == 0,
            },
    {
        if self.serving_q.len() > 0 {
            Some(&self.serving_q[0])
        } else {
            None
        }
    }
}

} // verus!

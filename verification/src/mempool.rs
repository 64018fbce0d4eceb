//! Pending storage requests: the request itself, the bounded queue that
//! holds requests until they are mined, and the mining attempt that turns a
//! request into a block.

use std::collections::VecDeque;
use uuid::Uuid;
use vstd::prelude::*;

use crate::block::{Block, BlockView};
use crate::blockchain::{
    block_records, chain_records, chain_valid, index_covers_chain, lemma_linked_append_keeps_links, links_hold,
    links_to_tip, single_service, Blockchain, BlockchainView,
};
use crate::encoding::same_text;
use crate::node::Node;
use crate::randomized_election::{elected, is_elected};
use crate::storage_index::{index_insert, storers_in};
use crate::transaction::{StorageTx, StorageTxView};
use crate::utils::{compute_file_hash, file_hash};

verus! {

/// A request to store a file, as it waits in the mempool.
#[derive(Debug)]
pub struct MemPoolRequest {
    pub node_id: String,
    pub request_id: String,
    pub file_content: Vec<u8>,
    pub file_hash: String,
    pub file_size: usize,
}

/// What a [`MemPoolRequest`] holds.
pub ghost struct MemPoolRequestView {
    pub node_id: Seq<char>,
    pub request_id: Seq<char>,
    pub file_content: Seq<u8>,
    pub file_hash: Seq<char>,
    pub file_size: nat,
}

impl View for MemPoolRequest {
    type V = MemPoolRequestView;

    open spec fn view(&self) -> MemPoolRequestView {
        MemPoolRequestView {
            node_id: self.node_id@,
            request_id: self.request_id@,
            file_content: self.file_content@,
            file_hash: self.file_hash@,
            file_size: self.file_size as nat,
        }
    }
}

impl MemPoolRequestView {
    /// The digest and the size are those of the content.
    pub open spec fn describes_content(self) -> bool {
        self.file_hash == file_hash(self.file_content) && self.file_size == self.file_content.len()
    }
}

impl Clone for MemPoolRequest {
    fn clone(&self) -> (out: Self)
        ensures
            out@ == self@,
    {
        MemPoolRequest {
            node_id: self.node_id.clone(),
            request_id: self.request_id.clone(),
            file_content: self.file_content.clone(),
            file_hash: self.file_hash.clone(),
            file_size: self.file_size,
        }
    }
}

/// Why a mining attempt produced no block. None of these is a fault: each is
/// an ordinary outcome of a tick.
#[derive(Debug, Clone, Copy, PartialEq, Eq, Structural)]
pub enum MiningError {
    /// Some node already stores the file of this request.
    AlreadyServed,
    /// The miner is the requester itself.
    SelfServiceRejected,
    /// The miner lost the sortition for the candidate block.
    NotElected,
}

impl MiningError {
    /// A sentence for the operator.
    pub fn message(&self) -> (text: String)
        ensures
            text@ == match *self {
                MiningError::AlreadyServed => "Request already served"@,
                MiningError::SelfServiceRejected => "Requesting node is same as miner node"@,
                MiningError::NotElected => "Not eligible to propose a block"@,
            },
    {
        match self {
            MiningError::AlreadyServed => String::from_str("Request already served"),
            MiningError::SelfServiceRejected => String::from_str("Requesting node is same as miner node"),
            MiningError::NotElected => String::from_str("Not eligible to propose a block"),
        }
    }
}

/// The shape of a request identifier: thirty-six characters, hyphens after
/// the eighth, twelfth, sixteenth and twentieth digit.
pub open spec fn request_id_shaped(id: Seq<char>) -> bool {
    id.len() == 36 && id[8] == '-' && id[13] == '-' && id[18] == '-' && id[23] == '-'
}

/// Trusted: calls `Uuid::new_v4` and prints the identifier with its
/// `Display`, the hyphenated form. The identifier is random, so the contract
/// states only the shape that every hyphenated identifier has. The call
/// panics only where the system's source of randomness fails, which no
/// argument decides.
#[verifier::external_body]
fn fresh_request_id() -> (id: String)
    ensures
        request_id_shaped(id@),
{
    Uuid::new_v4().to_string()
}

/// The storage transaction by which `miner` takes custody of the file of
/// `req`.
pub open spec fn custody_tx(req: MemPoolRequestView, miner: Seq<char>) -> StorageTxView {
    StorageTxView {
        miner_id: miner,
        request_id: req.request_id,
        file_hash: req.file_hash,
        file_size: req.file_size,
    }
}

/// The block that `miner` proposes for `req` on top of a block with digest
/// `tip_hash`.
pub open spec fn candidate_block(req: MemPoolRequestView, miner: Seq<char>, tip_hash: Seq<char>) -> BlockView {
    let content = BlockView {
        previous_hash: Some(tip_hash),
        mtx: None,
        stx: Some(custody_tx(req, miner)),
        hash: Seq::empty(),
    };
    BlockView {
        previous_hash: content.previous_hash,
        mtx: content.mtx,
        stx: content.stx,
        hash: content.content_hash(),
    }
}

/// The outcome of a mining attempt by `miner` for `req` on `ledger` among
/// `total_nodes` candidates: the first of the three refusals that applies,
/// or the block that is appended.
pub open spec fn mining_outcome(
    req: MemPoolRequestView,
    miner: Seq<char>,
    ledger: BlockchainView,
    total_nodes: u64,
) -> Result<BlockView, MiningError> {
    let block = candidate_block(req, miner, ledger.chain.last().hash);
    if ledger.stored.dom().contains(req.request_id) {
        Err(MiningError::AlreadyServed)
    } else if req.node_id == miner {
        Err(MiningError::SelfServiceRejected)
    } else if !elected(miner, block.hash, total_nodes) {
        Err(MiningError::NotElected)
    } else {
        Ok(block)
    }
}

/// The ledger after a mining attempt: unchanged by a refusal; otherwise the
/// block is appended and the miner is listed as a storer of the request.
pub open spec fn ledger_after_mining(
    req: MemPoolRequestView,
    miner: Seq<char>,
    ledger: BlockchainView,
    total_nodes: u64,
) -> BlockchainView {
    match mining_outcome(req, miner, ledger, total_nodes) {
        Ok(block) => BlockchainView {
            chain: ledger.chain.push(block),
            stored: index_insert(ledger.stored, req.request_id, miner),
            balance: ledger.balance,
        },
        Err(_) => ledger,
    }
}

impl MemPoolRequest {
    /// The request of `node_id` to store `file_content` under the identifier
    /// `request_id`: digest and size are derived from the content.
    pub fn with_request_id(node_id: String, request_id: String, file_content: Vec<u8>) -> (req: Self)
        ensures
            req@.node_id == node_id@,
            req@.request_id == request_id@,
            req@.file_content == file_content@,
            req@.describes_content(),
    {
        let file_hash = compute_file_hash(file_content.as_slice());
        let file_size = file_content.len();
        MemPoolRequest { node_id, request_id, file_content, file_hash, file_size }
    }

    /// A new request of `node_id` to store `file_content`, under a freshly
    /// drawn identifier.
    pub fn new(node_id: String, file_content: Vec<u8>) -> (req: Self)
        ensures
            req@.node_id == node_id@,
            req@.file_content == file_content@,
            req@.describes_content(),
            request_id_shaped(req@.request_id),
    {
        MemPoolRequest::with_request_id(node_id, fresh_request_id(), file_content)
    }

    /// Attempts to turn this request into a block of `blockchain` on behalf
    /// of `node`, among `total_nodes` candidates.
    ///
    /// The attempt is refused if some node already stores the file, if `node`
    /// is the requester itself, or if `node` loses the sortition for the
    /// candidate block; a refusal leaves the ledger as it was. Otherwise the
    /// block is appended, `node` is listed as a storer of the request, and the
    /// block is returned so that the caller can persist the file.
    ///
    /// The ledger must hold at least its genesis block, and the population
    /// must not be empty.
    pub fn mine(&self, node: &Node, blockchain: &mut Blockchain, total_nodes: usize) -> (res: Result<
        Block,
        MiningError,
    >)
        requires
            old(blockchain)@.chain.len() > 0,
            total_nodes > 0,
        ensures
            match res {
                Ok(block) => mining_outcome(self@, node.id@, old(blockchain)@, total_nodes as u64) == Ok::<
                    BlockView,
                    MiningError,
                >(block@),
                Err(e) => mining_outcome(self@, node.id@, old(blockchain)@, total_nodes as u64) == Err::<
                    BlockView,
                    MiningError,
                >(e),
            },
            final(blockchain)@ == ledger_after_mining(self@, node.id@, old(blockchain)@, total_nodes as u64),
            res matches Err(e) && e == MiningError::NotElected ==> total_nodes > 3,
            res matches Ok(block) ==> block@.hash.len() == 64,
    {
        if blockchain.stored.is_served(self.request_id.as_str()) {
            return Err(MiningError::AlreadyServed);
        }
        if same_text(self.node_id.as_str(), node.id.as_str()) {
            return Err(MiningError::SelfServiceRejected);
        }
        assert(blockchain@.chain.len() == blockchain.chain.len());
        let tip = &blockchain.chain[blockchain.chain.len() - 1];
        let block = Block {
            previous_hash: Some(tip.hash.clone()),
            mtx: None,
            stx: Some(
                StorageTx {
                    miner_id: node.id.clone(),
                    request_id: self.request_id.clone(),
                    file_hash: self.file_hash.clone(),
                    file_size: self.file_size,
                },
            ),
            hash: String::new(),
        }.calculate_hash();
        assert(block@ == candidate_block(self@, node.id@, old(blockchain)@.chain.last().hash));
        if !is_elected(node.id.as_str(), block.hash.as_str(), total_nodes as u64) {
            return Err(MiningError::NotElected);
        }
        blockchain.add_block(block.clone());
        blockchain.stored.insert(self.request_id.clone(), node.id.clone());
        Ok(block)
    }
}

/// A request that already has a storer is refused, and the ledger stays as
/// it was.
pub proof fn lemma_served_request_is_refused(
    req: MemPoolRequestView,
    miner: Seq<char>,
    ledger: BlockchainView,
    total_nodes: u64,
)
    requires
        ledger.stored.dom().contains(req.request_id),
    ensures
        mining_outcome(req, miner, ledger, total_nodes) == Err::<BlockView, MiningError>(
            MiningError::AlreadyServed,
        ),
        ledger_after_mining(req, miner, ledger, total_nodes) == ledger,
{
}

/// A refused attempt changes nothing.
pub proof fn lemma_refusal_leaves_ledger(
    req: MemPoolRequestView,
    miner: Seq<char>,
    ledger: BlockchainView,
    total_nodes: u64,
)
    requires
        mining_outcome(req, miner, ledger, total_nodes) is Err,
    ensures
        ledger_after_mining(req, miner, ledger, total_nodes) == ledger,
{
}

/// Once a request has been mined, every later attempt for the same request
/// identifier, by any node and among any population, is refused as already
/// served and leaves the ledger as it was.
pub proof fn lemma_second_attempt_is_already_served(
    req: MemPoolRequestView,
    miner: Seq<char>,
    ledger: BlockchainView,
    total_nodes: u64,
    again: MemPoolRequestView,
    other_miner: Seq<char>,
    other_total: u64,
)
    requires
        mining_outcome(req, miner, ledger, total_nodes) is Ok,
        again.request_id == req.request_id,
    ensures
        mining_outcome(
            again,
            other_miner,
            ledger_after_mining(req, miner, ledger, total_nodes),
            other_total,
        ) == Err::<BlockView, MiningError>(MiningError::AlreadyServed),
        ledger_after_mining(
            again,
            other_miner,
            ledger_after_mining(req, miner, ledger, total_nodes),
            other_total,
        ) == ledger_after_mining(req, miner, ledger, total_nodes),
{
}

/// A successful attempt appends one block that names the miner, links to the
/// former last block and carries the digest of its content; the chain then
/// records the request, and the index lists the miner for it.
pub proof fn lemma_mined_block_extends_chain(
    req: MemPoolRequestView,
    miner: Seq<char>,
    ledger: BlockchainView,
    total_nodes: u64,
)
    requires
        ledger.chain.len() > 0,
        mining_outcome(req, miner, ledger, total_nodes) is Ok,
    ensures
        ({
            let block = mining_outcome(req, miner, ledger, total_nodes)->Ok_0;
            let after = ledger_after_mining(req, miner, ledger, total_nodes);
            &&& block.stx == Some(custody_tx(req, miner))
            &&& elected(miner, block.hash, total_nodes)
            &&& block.sealed()
            &&& links_to_tip(ledger.chain, block)
            &&& after.chain == ledger.chain.push(block)
            &&& chain_records(after.chain, req.request_id)
            &&& storers_in(after.stored, req.request_id).contains(miner)
            &&& links_hold(ledger.chain) ==> links_hold(after.chain)
            &&& chain_valid(ledger.chain) ==> chain_valid(after.chain)
        }),
{
    let block = mining_outcome(req, miner, ledger, total_nodes)->Ok_0;
    let after = ledger_after_mining(req, miner, ledger, total_nodes);
    assert(block_records(after.chain[ledger.chain.len() as int], req.request_id));
    if links_hold(ledger.chain) {
        lemma_linked_append_keeps_links(ledger.chain, block);
    }
    if chain_valid(ledger.chain) {
        assert forall|i: int| 0 <= i < after.chain.len() implies (#[trigger] after.chain[i]).sealed() by {
            if i < ledger.chain.len() {
                assert(after.chain[i] == ledger.chain[i]);
            }
        }
    }
}

/// Mining never forgets: the chain does not get shorter, and every storer
/// that the index listed is still listed.
pub proof fn lemma_mining_never_shrinks(
    req: MemPoolRequestView,
    miner: Seq<char>,
    ledger: BlockchainView,
    total_nodes: u64,
)
    ensures
        ledger_after_mining(req, miner, ledger, total_nodes).chain.len() >= ledger.chain.len(),
        forall|id: Seq<char>, node: Seq<char>|
            storers_in(ledger.stored, id).contains(node) ==> #[trigger] storers_in(
                ledger_after_mining(req, miner, ledger, total_nodes).stored,
                id,
            ).contains(node),
{
}

/// Mining never commits a second storage transaction for a request: where
/// the index covers the chain and no request is recorded twice, the same
/// holds after any attempt.
pub proof fn lemma_mining_keeps_single_service(
    req: MemPoolRequestView,
    miner: Seq<char>,
    ledger: BlockchainView,
    total_nodes: u64,
)
    requires
        index_covers_chain(ledger),
        single_service(ledger.chain),
    ensures
        index_covers_chain(ledger_after_mining(req, miner, ledger, total_nodes)),
        single_service(ledger_after_mining(req, miner, ledger, total_nodes).chain),
{
    let after = ledger_after_mining(req, miner, ledger, total_nodes);
    if mining_outcome(req, miner, ledger, total_nodes) is Ok {
        let block = mining_outcome(req, miner, ledger, total_nodes)->Ok_0;
        let last = ledger.chain.len() as int;
        assert(!chain_records(ledger.chain, req.request_id));
        assert forall|id: Seq<char>| #[trigger] chain_records(after.chain, id) implies after.stored.dom().contains(
            id,
        ) by {
            let i = choose|i: int| 0 <= i < after.chain.len() && #[trigger] block_records(after.chain[i], id);
            if i < last {
                assert(block_records(ledger.chain[i], id));
                assert(chain_records(ledger.chain, id));
            }
        }
        assert forall|i: int, j: int, id: Seq<char>|
            0 <= i < j < after.chain.len() && #[trigger] block_records(after.chain[i], id) implies !#[trigger] block_records(
            after.chain[j],
            id,
        ) by {
            assert(block_records(ledger.chain[i], id));
            if j < last {
                assert(after.chain[j] == ledger.chain[j]);
            } else {
                if block_records(after.chain[j], id) {
                    assert(id == req.request_id);
                    assert(chain_records(ledger.chain, id));
                }
            }
        }
    }
}

/// The capacity that a mempool has unless another is asked for.
pub const DEFAULT_MAX_SIZE: usize = 1000;

/// What a vector or queue of requests holds.
pub open spec fn requests_view(requests: Seq<MemPoolRequest>) -> Seq<MemPoolRequestView> {
    Seq::new(requests.len(), |i: int| requests[i]@)
}

/// The queue after `request` is added to `queue` under the capacity
/// `max_size`: a queue that holds exactly `max_size` requests first loses its
/// oldest.
pub open spec fn queue_add(queue: Seq<MemPoolRequestView>, max_size: nat, request: MemPoolRequestView) -> Seq<
    MemPoolRequestView,
> {
    if queue.len() == max_size && queue.len() > 0 {
        queue.drop_first().push(request)
    } else {
        queue.push(request)
    }
}

/// The queue after all of `requests` are added in order.
pub open spec fn queue_add_all(
    queue: Seq<MemPoolRequestView>,
    max_size: nat,
    requests: Seq<MemPoolRequestView>,
) -> Seq<MemPoolRequestView>
    decreases requests.len(),
{
    if requests.len() == 0 {
        queue
    } else {
        queue_add(queue_add_all(queue, max_size, requests.drop_last()), max_size, requests.last())
    }
}

/// The most recent `max_size` of `requests`, in their order.
pub open spec fn most_recent(requests: Seq<MemPoolRequestView>, max_size: nat) -> Seq<MemPoolRequestView> {
    if requests.len() <= max_size {
        requests
    } else {
        requests.skip(requests.len() - max_size)
    }
}

/// What a [`Mempool`] holds: the waiting requests, oldest first, and the
/// capacity.
pub ghost struct MempoolView {
    pub requests: Seq<MemPoolRequestView>,
    pub max_size: nat,
}

/// The requests that wait to be mined, oldest first. A mempool of positive
/// capacity never holds more requests than its capacity: adding to a full one
/// evicts the oldest.
#[derive(Debug)]
pub struct Mempool {
    queue: VecDeque<MemPoolRequest>,
    max_size: usize,
}

impl View for Mempool {
    type V = MempoolView;

    closed spec fn view(&self) -> MempoolView {
        MempoolView { requests: requests_view(self.queue@), max_size: self.max_size as nat }
    }
}

impl Mempool {
    #[verifier::type_invariant]
    spec fn bounded(self) -> bool {
        self.max_size > 0 ==> self.queue@.len() <= self.max_size
    }

    /// An empty mempool of capacity `max_size`.
    pub fn new(max_size: usize) -> (pool: Self)
        ensures
            pool@.requests.len() == 0,
            pool@.max_size == max_size,
    {
        Mempool { queue: VecDeque::new(), max_size }
    }

    /// An empty mempool of the default capacity.
    pub fn with_default_capacity() -> (pool: Self)
        ensures
            pool@.requests.len() == 0,
            pool@.max_size == DEFAULT_MAX_SIZE,
    {
        Mempool::new(DEFAULT_MAX_SIZE)
    }

    /// The capacity.
    pub fn max_size(&self) -> (max_size: usize)
        ensures
            max_size == self@.max_size,
    {
        self.max_size
    }

    /// The number of waiting requests.
    pub fn len(&self) -> (len: usize)
        ensures
            len == self@.requests.len(),
            self@.max_size > 0 ==> len <= self@.max_size,
    {
        proof {
            use_type_invariant(self);
        }
        self.queue.len()
    }

    /// Whether no request waits.
    pub fn is_empty(&self) -> (empty: bool)
        ensures
            empty == (self@.requests.len() == 0),
    {
        self.queue.len() == 0
    }

    /// Appends `request`; a mempool that is full first evicts its oldest
    /// request.
    pub fn add(&mut self, request: MemPoolRequest)
        ensures
            final(self)@.max_size == old(self)@.max_size,
            final(self)@.requests == queue_add(old(self)@.requests, old(self)@.max_size, request@),
    {
        proof {
            use_type_invariant(&*self);
        }
        let mut queue: VecDeque<MemPoolRequest> = VecDeque::new();
        std::mem::swap(&mut queue, &mut self.queue);
        let ghost before = requests_view(queue@);
        if queue.len() == self.max_size {
            let evicted = queue.pop_front();
            assert(evicted is Some ==> requests_view(queue@) =~= before.drop_first());
        }
        let ghost kept = requests_view(queue@);
        queue.push_back(request);
        assert(requests_view(queue@) =~= kept.push(request@));
        self.queue = queue;
    }

    /// The oldest waiting request, which stays in the mempool.
    pub fn peek_front(&self) -> (front: Option<&MemPoolRequest>)
        ensures
            match front {
                Some(request) => self@.requests.len() > 0 && request@ == self@.requests[0],
                None => self@.requests.len() == 0,
            },
    {
        if self.queue.len() > 0 {
            Some(&self.queue[0])
        } else {
            None
        }
    }

    /// Removes the oldest waiting request and returns it.
    pub fn pop_front(&mut self) -> (front: Option<MemPoolRequest>)
        ensures
            final(self)@.max_size == old(self)@.max_size,
            match front {
                Some(request) => {
                    &&& old(self)@.requests.len() > 0
                    &&& request@ == old(self)@.requests[0]
                    &&& final(self)@.requests == old(self)@.requests.drop_first()
                },
                None => old(self)@.requests.len() == 0 && final(self)@.requests == old(self)@.requests,
            },
    {
        proof {
            use_type_invariant(&*self);
        }
        let mut queue: VecDeque<MemPoolRequest> = VecDeque::new();
        std::mem::swap(&mut queue, &mut self.queue);
        let ghost before = requests_view(queue@);
        let front = queue.pop_front();
        assert(front is Some ==> requests_view(queue@) =~= before.drop_first());
        self.queue = queue;
        front
    }
}

/// Adding never lets a mempool of positive capacity outgrow it.
pub proof fn lemma_queue_add_is_bounded(queue: Seq<MemPoolRequestView>, max_size: nat, request: MemPoolRequestView)
    requires
        max_size > 0,
        queue.len() <= max_size,
    ensures
        queue_add(queue, max_size, request).len() <= max_size,
        queue_add(queue, max_size, request).last() == request,
{
}

/// A mempool of positive capacity that starts empty holds, after any run of
/// additions, the most recent requests up to its capacity, in the order in
/// which they were added.
pub proof fn lemma_mempool_is_sliding_window(max_size: nat, requests: Seq<MemPoolRequestView>)
    requires
        max_size > 0,
    ensures
        queue_add_all(Seq::empty(), max_size, requests) == most_recent(requests, max_size),
    decreases requests.len(),
{
    if requests.len() > 0 {
        let earlier = requests.drop_last();
        lemma_mempool_is_sliding_window(max_size, earlier);
        let queue = most_recent(earlier, max_size);
        assert(queue_add(queue, max_size, requests.last()) =~= most_recent(requests, max_size));
    } else {
        assert(most_recent(requests, max_size) =~= Seq::empty());
    }
}

/// One request more than the capacity leaves exactly the capacity: the first
/// request ever added is gone, and all later ones wait in their order.
pub proof fn lemma_overflow_evicts_first(max_size: nat, requests: Seq<MemPoolRequestView>)
    requires
        max_size > 0,
        requests.len() == max_size + 1,
    ensures
        queue_add_all(Seq::empty(), max_size, requests).len() == max_size,
        queue_add_all(Seq::empty(), max_size, requests) == requests.drop_first(),
{
    lemma_mempool_is_sliding_window(max_size, requests);
    assert(most_recent(requests, max_size) =~= requests.drop_first());
}

} // verus!

//! The ledger that every node keeps: the chain of blocks, the
//! storage-assignment index, and the reserved balances.

use vstd::prelude::*;

use crate::block::{genesis_block, Block, BlockView};
use crate::encoding::same_text;
use crate::randomized_election::{elected, is_elected};
use crate::storage_index::{
    index_union, lemma_index_union_associates, lemma_index_union_commutes, lemma_index_union_idempotent, storers_in,
    IndexMap, StorageIndex,
};

verus! {

/// A node's balance, reserved for reward accounting: no operation of the
/// ledger reads or writes it. The amount is held as its decimal text.
#[derive(Debug)]
pub struct Balance {
    pub node_id: String,
    pub amount: String,
}

impl View for Balance {
    type V = (Seq<char>, Seq<char>);

    open spec fn view(&self) -> (Seq<char>, Seq<char>) {
        (self.node_id@, self.amount@)
    }
}

impl Clone for Balance {
    fn clone(&self) -> (out: Self)
        ensures
            out@ == self@,
    {
        Balance { node_id: self.node_id.clone(), amount: self.amount.clone() }
    }
}

/// The ledger state of one node.
#[derive(Debug)]
pub struct Blockchain {
    pub chain: Vec<Block>,
    pub stored: StorageIndex,
    pub balance: Vec<Balance>,
}

/// What a [`Blockchain`] holds.
pub ghost struct BlockchainView {
    pub chain: Seq<BlockView>,
    pub stored: IndexMap,
    pub balance: Seq<(Seq<char>, Seq<char>)>,
}

/// What a vector of blocks holds.
pub open spec fn chain_view(chain: Seq<Block>) -> Seq<BlockView> {
    Seq::new(chain.len(), |i: int| chain[i]@)
}

/// What a vector of balances holds.
pub open spec fn balance_view(balance: Seq<Balance>) -> Seq<(Seq<char>, Seq<char>)> {
    Seq::new(balance.len(), |i: int| balance[i]@)
}

impl View for Blockchain {
    type V = BlockchainView;

    open spec fn view(&self) -> BlockchainView {
        BlockchainView {
            chain: chain_view(self.chain@),
            stored: self.stored@,
            balance: balance_view(self.balance@),
        }
    }
}

impl Clone for Blockchain {
    fn clone(&self) -> (out: Self)
        ensures
            out@ == self@,
    {
        let out = Blockchain {
            chain: self.chain.clone(),
            stored: self.stored.clone(),
            balance: self.balance.clone(),
        };
        assert(out@.chain =~= self@.chain);
        assert(out@.balance =~= self@.balance);
        out
    }
}

/// Every block but the first names the digest of the block before it.
pub open spec fn links_hold(chain: Seq<BlockView>) -> bool {
    forall|i: int| 0 < i < chain.len() ==> (#[trigger] chain[i]).previous_hash == Some(chain[i - 1].hash)
}

/// Every block carries the digest of its own content.
pub open spec fn all_sealed(chain: Seq<BlockView>) -> bool {
    forall|i: int| 0 <= i < chain.len() ==> (#[trigger] chain[i]).sealed()
}

/// A chain is valid when it starts at a genesis block, every block carries
/// the digest of its content, and every later block names its predecessor's
/// digest.
pub open spec fn chain_valid(chain: Seq<BlockView>) -> bool {
    &&& chain.len() > 0
    &&& chain[0].is_genesis()
    &&& all_sealed(chain)
    &&& links_hold(chain)
}

/// `block` may follow `chain`: it names the digest of the chain's last block.
pub open spec fn links_to_tip(chain: Seq<BlockView>, block: BlockView) -> bool {
    chain.len() > 0 && block.previous_hash == Some(chain.last().hash)
}

/// Some block of `chain` commits a storage transaction for `request_id`.
pub open spec fn chain_records(chain: Seq<BlockView>, request_id: Seq<char>) -> bool {
    exists|i: int| 0 <= i < chain.len() && #[trigger] block_records(chain[i], request_id)
}

/// `block` commits a storage transaction for `request_id`.
pub open spec fn block_records(block: BlockView, request_id: Seq<char>) -> bool {
    block.stx matches Some(tx) && tx.request_id == request_id
}

/// The chain that the longest-chain rule keeps: the remote one where it is
/// strictly longer, the local one otherwise.
pub open spec fn fork_choice(local: Seq<BlockView>, remote: Seq<BlockView>) -> Seq<BlockView> {
    if local.len() < remote.len() {
        remote
    } else {
        local
    }
}

/// No two blocks commit a storage transaction for the same request.
pub open spec fn single_service(chain: Seq<BlockView>) -> bool {
    forall|i: int, j: int, id: Seq<char>|
        0 <= i < j < chain.len() && #[trigger] block_records(chain[i], id) ==> !#[trigger] block_records(
            chain[j],
            id,
        )
}

/// Every request that the chain records has a storer in the index, so that
/// the index answers whether a request is served as a scan of the chain
/// would.
pub open spec fn index_covers_chain(ledger: BlockchainView) -> bool {
    forall|id: Seq<char>| #[trigger] chain_records(ledger.chain, id) ==> ledger.stored.dom().contains(id)
}

/// Every block that commits a storage transaction was proposed by a miner
/// whom sortition elects for it among `total_nodes` candidates.
pub open spec fn sortition_replays(chain: Seq<BlockView>, total_nodes: u64) -> bool {
    forall|i: int|
        0 <= i < chain.len() ==> ((#[trigger] chain[i]).stx matches Some(tx) ==> elected(
            tx.miner_id,
            chain[i].hash,
            total_nodes,
        ))
}

/// The ledger of a node that has just started: the genesis block alone, no
/// storer and no balance.
pub open spec fn genesis_ledger() -> BlockchainView {
    BlockchainView { chain: seq![genesis_block()], stored: IndexMap::empty(), balance: Seq::empty() }
}

/// The ledger that results from merging `remote` into `local`.
pub open spec fn merged_ledger(local: BlockchainView, remote: BlockchainView) -> BlockchainView {
    BlockchainView {
        chain: fork_choice(local.chain, remote.chain),
        stored: index_union(local.stored, remote.stored),
        balance: local.balance,
    }
}

impl Blockchain {
    /// A ledger that holds the genesis block and nothing else.
    pub fn new_with_genesis_block() -> (ledger: Self)
        ensures
            ledger@ == genesis_ledger(),
            chain_valid(ledger@.chain),
    {
        let genesis = Block { previous_hash: None, mtx: None, stx: None, hash: String::new() }.calculate_hash();
        let mut chain: Vec<Block> = Vec::new();
        chain.push(genesis);
        let ledger = Blockchain { chain, stored: StorageIndex::new(), balance: Vec::new() };
        assert(ledger@.chain =~= genesis_ledger().chain);
        assert(ledger@.balance =~= genesis_ledger().balance);
        ledger
    }

    /// Scans the chain for a block that commits a storage transaction for the
    /// request `id`.
    pub fn search_transaction(&self, id: &str) -> (found: bool)
        ensures
            found == chain_records(self@.chain, id@),
    {
        let ghost chain = self@.chain;
        let mut found: bool = false;
        let mut i: usize = 0;
        while i < self.chain.len()
            invariant
                i <= self.chain.len(),
                chain == chain_view(self.chain@),
                found == exists|a: int| 0 <= a < i && #[trigger] block_records(chain[a], id@),
            decreases self.chain.len() - i,
        {
            let here = match &self.chain[i].stx {
                Some(tx) => same_text(tx.request_id.as_str(), id),
                None => false,
            };
            assert(here == block_records(chain[i as int], id@));
            found = found || here;
            i += 1;
        }
        found
    }

    /// Appends `block` to the chain, whatever it holds.
    pub fn add_block(&mut self, block: Block)
        ensures
            final(self)@.chain == old(self)@.chain.push(block@),
            final(self)@.stored == old(self)@.stored,
            final(self)@.balance == old(self)@.balance,
    {
        self.chain.push(block);
        assert(chain_view(self.chain@) =~= chain_view(old(self).chain@).push(block@));
    }

    /// Checks the chain: it starts at a genesis block, every block carries the
    /// digest of its content, and every later block names its predecessor's
    /// digest.
    pub fn verify(&self) -> (ok: bool)
        ensures
            ok == chain_valid(self@.chain),
    {
        let ghost chain = self@.chain;
        if self.chain.len() == 0 {
            return false;
        }
        let first = &self.chain[0];
        if first.previous_hash.is_some() || first.stx.is_some() || first.mtx.is_some() {
            return false;
        }
        let mut i: usize = 0;
        while i < self.chain.len()
            invariant
                i <= self.chain.len(),
                chain == chain_view(self.chain@),
                forall|a: int| 0 <= a < i ==> (#[trigger] chain[a]).sealed(),
                forall|a: int| 0 < a < i ==> (#[trigger] chain[a]).previous_hash == Some(chain[a - 1].hash),
            decreases self.chain.len() - i,
        {
            if !self.chain[i].is_sealed() {
                assert(!chain[i as int].sealed());
                return false;
            }
            if i > 0 {
                let linked = match &self.chain[i].previous_hash {
                    Some(h) => same_text(h.as_str(), self.chain[i - 1].hash.as_str()),
                    None => false,
                };
                if !linked {
                    assert(chain[i as int].previous_hash != Some(chain[i - 1].hash));
                    return false;
                }
            }
            i += 1;
        }
        true
    }

    /// Replays the sortition of every block that commits a storage
    /// transaction, as it comes out among `total_nodes` candidates.
    ///
    /// An empty population has no draw: callers guard against it.
    pub fn replay_sortition(&self, total_nodes: u64) -> (ok: bool)
        requires
            total_nodes > 0,
        ensures
            ok == sortition_replays(self@.chain, total_nodes),
            total_nodes <= 3 ==> ok,
    {
        let ghost chain = self@.chain;
        let mut i: usize = 0;
        while i < self.chain.len()
            invariant
                i <= self.chain.len(),
                total_nodes > 0,
                chain == chain_view(self.chain@),
                forall|a: int|
                    0 <= a < i ==> ((#[trigger] chain[a]).stx matches Some(tx) ==> elected(
                        tx.miner_id,
                        chain[a].hash,
                        total_nodes,
                    )),
            decreases self.chain.len() - i,
        {
            let block = &self.chain[i];
            match &block.stx {
                Some(tx) => {
                    if !is_elected(tx.miner_id.as_str(), block.hash.as_str(), total_nodes) {
                        assert(chain[i as int].stx is Some);
                        return false;
                    }
                },
                None => {},
            }
            i += 1;
        }
        true
    }

    /// Merges a ledger received from a peer: the storage index becomes the
    /// key-wise union of both, and the chain is replaced by the peer's where
    /// that one is strictly longer. The peer's chain is adopted unchecked.
    ///
    /// The peer's index is drained into this one and left empty.
    pub fn update(&mut self, new_chain: &mut Blockchain)
        ensures
            final(self)@ == merged_ledger(old(self)@, old(new_chain)@),
            final(new_chain)@.chain == old(new_chain)@.chain,
            final(new_chain)@.stored == IndexMap::empty(),
            final(new_chain)@.balance == old(new_chain)@.balance,
    {
        let drained = new_chain.stored.take();
        self.stored.merge(&drained);
        if self.chain.len() < new_chain.chain.len() {
            self.chain = new_chain.chain.clone();
            assert(chain_view(self.chain@) =~= chain_view(new_chain.chain@));
        }
    }
}

/// Appending a block that names the digest of the chain's last block keeps
/// every link intact.
pub proof fn lemma_linked_append_keeps_links(chain: Seq<BlockView>, block: BlockView)
    requires
        links_hold(chain),
        links_to_tip(chain, block),
    ensures
        links_hold(chain.push(block)),
{
    let grown = chain.push(block);
    assert forall|i: int| 0 < i < grown.len() implies (#[trigger] grown[i]).previous_hash == Some(
        grown[i - 1].hash,
    ) by {
        if i < chain.len() {
            assert(grown[i] == chain[i]);
        }
    }
}

/// A chain in which some block does not name its predecessor's digest is not
/// valid.
pub proof fn lemma_broken_link_is_invalid(chain: Seq<BlockView>, i: int)
    requires
        0 < i < chain.len(),
        chain[i].previous_hash != Some(chain[i - 1].hash),
    ensures
        !chain_valid(chain),
{
}

/// A block without a predecessor anywhere but at the start makes a chain
/// invalid.
pub proof fn lemma_late_genesis_is_invalid(chain: Seq<BlockView>, i: int)
    requires
        0 < i < chain.len(),
        chain[i].previous_hash is None,
    ensures
        !chain_valid(chain),
{
}

/// Merging keeps the local chain unless the remote one is strictly longer,
/// and makes the index the key-wise union of both whichever chain is kept.
pub proof fn lemma_merge_outcome(local: BlockchainView, remote: BlockchainView)
    ensures
        remote.chain.len() <= local.chain.len() ==> merged_ledger(local, remote).chain == local.chain,
        remote.chain.len() > local.chain.len() ==> merged_ledger(local, remote).chain == remote.chain,
        forall|id: Seq<char>| #[trigger]
            merged_ledger(local, remote).stored.dom().contains(id) <==> local.stored.dom().contains(id)
                || remote.stored.dom().contains(id),
        forall|id: Seq<char>, node: Seq<char>|
            #![trigger storers_in(merged_ledger(local, remote).stored, id).contains(node)]
            storers_in(merged_ledger(local, remote).stored, id).contains(node) <==> storers_in(
                local.stored,
                id,
            ).contains(node) || storers_in(remote.stored, id).contains(node),
{
}

/// Merging never forgets: the chain does not get shorter, and every storer
/// that the local index listed is still listed.
pub proof fn lemma_merge_never_shrinks(local: BlockchainView, remote: BlockchainView)
    ensures
        merged_ledger(local, remote).chain.len() >= local.chain.len(),
        forall|id: Seq<char>, node: Seq<char>|
            storers_in(local.stored, id).contains(node) ==> #[trigger] storers_in(
                merged_ledger(local, remote).stored,
                id,
            ).contains(node),
{
}

/// Merging the same ledger a second time changes nothing, so that a
/// snapshot may be rebroadcast and received any number of times.
pub proof fn lemma_merge_is_idempotent(local: BlockchainView, remote: BlockchainView)
    ensures
        merged_ledger(merged_ledger(local, remote), remote) == merged_ledger(local, remote),
{
    let once = merged_ledger(local, remote);
    let twice = merged_ledger(once, remote);
    lemma_index_union_associates(local.stored, remote.stored, remote.stored);
    lemma_index_union_idempotent(remote.stored);
}

/// Two nodes that merge each other's ledger end up with the same index, and
/// with chains of the same length.
pub proof fn lemma_mutual_merge_agrees(a: BlockchainView, b: BlockchainView)
    ensures
        merged_ledger(a, b).stored == merged_ledger(b, a).stored,
        merged_ledger(a, b).chain.len() == merged_ledger(b, a).chain.len(),
        a.chain.len() != b.chain.len() ==> merged_ledger(a, b).chain == merged_ledger(b, a).chain,
{
    lemma_index_union_commutes(a.stored, b.stored);
}

/// The longest-chain rule adopts a longer chain unchecked: a remote chain
/// with a broken link replaces a valid local one.
pub proof fn lemma_merge_adopts_unchecked(local: BlockchainView, remote: BlockchainView)
    requires
        chain_valid(local.chain),
        !chain_valid(remote.chain),
        remote.chain.len() > local.chain.len(),
    ensures
        !chain_valid(merged_ledger(local, remote).chain),
{
}

/// Where the index of each ledger covers its chain, the index of the merged
/// ledger covers the merged chain.
pub proof fn lemma_merge_keeps_index_cover(local: BlockchainView, remote: BlockchainView)
    requires
        index_covers_chain(local),
        index_covers_chain(remote),
    ensures
        index_covers_chain(merged_ledger(local, remote)),
{
    let merged = merged_ledger(local, remote);
    assert forall|id: Seq<char>| #[trigger] chain_records(merged.chain, id) implies merged.stored.dom().contains(
        id,
    ) by {
        if local.chain.len() < remote.chain.len() {
            assert(chain_records(remote.chain, id));
        } else {
            assert(chain_records(local.chain, id));
        }
    }
}

} // verus!

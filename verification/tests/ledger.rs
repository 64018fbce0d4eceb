use storage_ledger::block::Block;
use storage_ledger::blockchain::Blockchain;
use storage_ledger::storage_index::StorageIndex;
use storage_ledger::transaction::{MonetaryTx, StorageTx};

const GENESIS_HASH: &str = "e3b0c44298fc1c149afbf4c8996fb92427ae41e4649b934ca495991b7852b855";
const ABC_HASH: &str = "ba7816bf8f01cfea414140de5dae2223b00361a396177a9cb410ff61f20015ad";

fn custody(miner: &str, request: &str) -> StorageTx {
    StorageTx {
        miner_id: miner.to_string(),
        request_id: request.to_string(),
        file_hash: ABC_HASH.to_string(),
        file_size: 3,
    }
}

fn block_on(previous: &str, stx: Option<StorageTx>) -> Block {
    Block { previous_hash: Some(previous.to_string()), mtx: None, stx, hash: String::new() }.calculate_hash()
}

#[test]
fn storage_tx_text_is_fixed() {
    assert_eq!(
        custody("miner-1", "req-1").canonical_text(),
        "StorageTx { miner_id: \"miner-1\", request_id: \"req-1\", file_hash: \"ba7816bf8f01cfea414140de5dae2223b00361a396177a9cb410ff61f20015ad\", file_size: 3 }"
    );
}

#[test]
fn storage_tx_text_matches_debug_rendering() {
    let tx = custody("12D3KooWExample", "67e55044-10b1-426f-9247-bb680e5fe0c8");
    assert_eq!(tx.canonical_text(), format!("{:?}", tx));
}

#[test]
fn storage_tx_text_escapes_identifiers() {
    let tx = StorageTx {
        miner_id: "a\"b".to_string(),
        request_id: "c\\d".to_string(),
        file_hash: "e\nf".to_string(),
        file_size: 1234567890,
    };
    assert_eq!(
        tx.canonical_text(),
        "StorageTx { miner_id: \"a\\\"b\", request_id: \"c\\\\d\", file_hash: \"e\\nf\", file_size: 1234567890 }"
    );
    assert_eq!(tx.canonical_text(), format!("{:?}", tx));
}

#[test]
fn monetary_tx_text_is_fixed() {
    let tx = MonetaryTx { node_id: "n1".to_string(), amount: "1.5".to_string() };
    assert_eq!(tx.canonical_text(), "MonetaryTx { node_id: \"n1\", amount: 1.5 }");
}

#[test]
fn genesis_hash_is_digest_of_nothing() {
    let block = Block { previous_hash: None, mtx: None, stx: None, hash: String::new() }.calculate_hash();
    assert_eq!(block.hash, GENESIS_HASH);
    assert!(block.previous_hash.is_none());
    assert!(block.stx.is_none());
    assert!(block.mtx.is_none());
    assert!(block.is_sealed());
}

#[test]
fn block_hash_covers_predecessor_and_storage_tx() {
    let block = block_on(GENESIS_HASH, Some(custody("miner-1", "req-1")));
    assert_eq!(block.hash, "55c080615faedff8298452b785116ed2fe7281a892af71fc1fbe8ac8fb5995ca");
    assert_eq!(block.previous_hash.as_deref(), Some(GENESIS_HASH));
    assert_eq!(block.stx.as_ref().map(|tx| tx.miner_id.as_str()), Some("miner-1"));
}

#[test]
fn block_hash_covers_monetary_tx_last() {
    let block = Block {
        previous_hash: Some(GENESIS_HASH.to_string()),
        mtx: Some(MonetaryTx { node_id: "n1".to_string(), amount: "1.5".to_string() }),
        stx: Some(custody("miner-1", "req-1")),
        hash: String::new(),
    }
    .calculate_hash();
    assert_eq!(block.hash, "b60506aead4e7d0ab46bc2d97a898ef29bc9b2b4c011ce0ef7cfdff7deedbb73");
    let only_mtx = Block {
        previous_hash: None,
        mtx: Some(MonetaryTx { node_id: "n1".to_string(), amount: "1.5".to_string() }),
        stx: None,
        hash: String::new(),
    }
    .calculate_hash();
    assert_eq!(only_mtx.hash, "c3536f5c1d4e843c98c00c4a3c901bea8334af81f6f38c5febee4b375c3c3ee6");
}

#[test]
fn block_hash_ignores_the_old_hash_field() {
    let a = Block { previous_hash: None, mtx: None, stx: Some(custody("m", "r")), hash: String::new() }
        .calculate_hash();
    let b = Block { previous_hash: None, mtx: None, stx: Some(custody("m", "r")), hash: "junk".to_string() }
        .calculate_hash();
    assert_eq!(a.hash, b.hash);
}

#[test]
fn block_hash_changes_with_any_field() {
    let base = block_on(GENESIS_HASH, Some(custody("miner-1", "req-1"))).hash;
    assert_ne!(base, block_on(GENESIS_HASH, Some(custody("miner-2", "req-1"))).hash);
    assert_ne!(base, block_on(GENESIS_HASH, Some(custody("miner-1", "req-2"))).hash);
    assert_ne!(base, block_on(ABC_HASH, Some(custody("miner-1", "req-1"))).hash);
    assert_ne!(base, block_on(GENESIS_HASH, None).hash);
    let mut bigger = custody("miner-1", "req-1");
    bigger.file_size = 4;
    assert_ne!(base, block_on(GENESIS_HASH, Some(bigger)).hash);
}

#[test]
fn tampered_block_is_not_sealed() {
    let mut block = block_on(GENESIS_HASH, Some(custody("miner-1", "req-1")));
    assert!(block.is_sealed());
    block.stx = Some(custody("intruder", "req-1"));
    assert!(!block.is_sealed());
}

#[test]
fn cloned_block_keeps_every_field() {
    let block = block_on(GENESIS_HASH, Some(custody("miner-1", "req-1")));
    let copy = block.clone();
    assert_eq!(copy.hash, block.hash);
    assert_eq!(copy.previous_hash, block.previous_hash);
    assert_eq!(copy.stx.as_ref().map(|tx| tx.canonical_text()), block.stx.as_ref().map(|tx| tx.canonical_text()));
    assert!(copy.mtx.is_none());
}

#[test]
fn new_ledger_holds_only_genesis() {
    let ledger = Blockchain::new_with_genesis_block();
    assert_eq!(ledger.chain.len(), 1);
    assert_eq!(ledger.chain[0].hash, GENESIS_HASH);
    assert!(ledger.chain[0].previous_hash.is_none());
    assert!(ledger.stored.request_ids().is_empty());
    assert!(ledger.balance.is_empty());
    assert!(ledger.verify());
}

#[test]
fn search_finds_only_recorded_requests() {
    let mut ledger = Blockchain::new_with_genesis_block();
    assert!(!ledger.search_transaction("req-1"));
    ledger.add_block(block_on(GENESIS_HASH, Some(custody("miner-1", "req-1"))));
    assert!(ledger.search_transaction("req-1"));
    assert!(!ledger.search_transaction("req-2"));
    assert!(!ledger.search_transaction(""));
}

#[test]
fn add_block_appends_at_the_end() {
    let mut ledger = Blockchain::new_with_genesis_block();
    let first = block_on(GENESIS_HASH, Some(custody("miner-1", "req-1")));
    let second = block_on(&first.hash, Some(custody("miner-2", "req-2")));
    ledger.add_block(first.clone());
    ledger.add_block(second.clone());
    assert_eq!(ledger.chain.len(), 3);
    assert_eq!(ledger.chain[1].hash, first.hash);
    assert_eq!(ledger.chain[2].hash, second.hash);
    assert!(ledger.verify());
}

#[test]
fn verify_rejects_an_empty_chain() {
    let ledger = Blockchain { chain: vec![], stored: StorageIndex::new(), balance: vec![] };
    assert!(!ledger.verify());
}

#[test]
fn verify_rejects_a_broken_link() {
    let mut ledger = Blockchain::new_with_genesis_block();
    ledger.add_block(block_on(GENESIS_HASH, Some(custody("miner-1", "req-1"))));
    ledger.add_block(block_on(ABC_HASH, Some(custody("miner-2", "req-2"))));
    assert!(!ledger.verify());
}

#[test]
fn verify_rejects_a_second_block_without_predecessor() {
    let mut ledger = Blockchain::new_with_genesis_block();
    ledger.add_block(Block { previous_hash: None, mtx: None, stx: None, hash: String::new() }.calculate_hash());
    assert!(!ledger.verify());
}

#[test]
fn verify_rejects_a_first_block_that_is_not_genesis() {
    let ledger = Blockchain {
        chain: vec![block_on(GENESIS_HASH, None)],
        stored: StorageIndex::new(),
        balance: vec![],
    };
    assert!(!ledger.verify());
    let with_tx = Blockchain {
        chain: vec![Block { previous_hash: None, mtx: None, stx: Some(custody("m", "r")), hash: String::new() }
            .calculate_hash()],
        stored: StorageIndex::new(),
        balance: vec![],
    };
    assert!(!with_tx.verify());
}

#[test]
fn verify_rejects_a_wrong_digest() {
    let mut ledger = Blockchain::new_with_genesis_block();
    let mut forged = block_on(GENESIS_HASH, Some(custody("miner-1", "req-1")));
    forged.hash = ABC_HASH.to_string();
    ledger.add_block(forged);
    assert!(!ledger.verify());
}

#[test]
fn update_keeps_local_chain_when_remote_is_not_longer() {
    let mut local = Blockchain::new_with_genesis_block();
    local.add_block(block_on(GENESIS_HASH, Some(custody("miner-1", "req-1"))));
    let mut same_length = Blockchain::new_with_genesis_block();
    same_length.add_block(block_on(GENESIS_HASH, Some(custody("miner-9", "req-9"))));
    let kept = local.chain[1].hash.clone();
    local.update(&mut same_length);
    assert_eq!(local.chain.len(), 2);
    assert_eq!(local.chain[1].hash, kept);
    let mut shorter = Blockchain::new_with_genesis_block();
    local.update(&mut shorter);
    assert_eq!(local.chain.len(), 2);
    assert_eq!(local.chain[1].hash, kept);
}

#[test]
fn update_adopts_a_longer_remote_chain() {
    let mut local = Blockchain::new_with_genesis_block();
    let mut remote = Blockchain::new_with_genesis_block();
    let first = block_on(GENESIS_HASH, Some(custody("miner-1", "req-1")));
    remote.add_block(first.clone());
    local.update(&mut remote);
    assert_eq!(local.chain.len(), 2);
    assert_eq!(local.chain[1].hash, first.hash);
    assert_eq!(remote.chain.len(), 2);
    assert!(local.search_transaction("req-1"));
}

#[test]
fn update_unions_the_index_whatever_the_chain() {
    let mut local = Blockchain::new_with_genesis_block();
    local.add_block(block_on(GENESIS_HASH, Some(custody("a", "r1"))));
    local.stored.insert("r1".to_string(), "a".to_string());
    local.stored.insert("r2".to_string(), "a".to_string());
    let mut remote = Blockchain::new_with_genesis_block();
    remote.stored.insert("r1".to_string(), "b".to_string());
    remote.stored.insert("r1".to_string(), "a".to_string());
    remote.stored.insert("r3".to_string(), "c".to_string());
    local.update(&mut remote);
    assert_eq!(local.chain.len(), 2);
    let mut r1 = local.stored.storers("r1");
    r1.sort();
    assert_eq!(r1, vec!["a".to_string(), "b".to_string()]);
    assert_eq!(local.stored.storers("r2"), vec!["a".to_string()]);
    assert_eq!(local.stored.storers("r3"), vec!["c".to_string()]);
    let mut keys = local.stored.request_ids();
    keys.sort();
    assert_eq!(keys, vec!["r1".to_string(), "r2".to_string(), "r3".to_string()]);
    assert!(remote.stored.request_ids().is_empty());
}

#[test]
fn update_adopts_a_longer_chain_with_a_broken_link() {
    let mut local = Blockchain::new_with_genesis_block();
    let mut remote = Blockchain::new_with_genesis_block();
    remote.add_block(block_on(ABC_HASH, Some(custody("miner-1", "req-1"))));
    assert!(!remote.verify());
    assert!(local.verify());
    local.update(&mut remote);
    assert_eq!(local.chain.len(), 2);
    assert!(!local.verify());
}

#[test]
fn update_leaves_balances_alone() {
    let mut local = Blockchain::new_with_genesis_block();
    local.balance.push(storage_ledger::blockchain::Balance { node_id: "a".to_string(), amount: "2.0".to_string() });
    let mut remote = Blockchain::new_with_genesis_block();
    remote.balance.push(storage_ledger::blockchain::Balance { node_id: "b".to_string(), amount: "3.0".to_string() });
    local.update(&mut remote);
    assert_eq!(local.balance.len(), 1);
    assert_eq!(local.balance[0].node_id, "a");
    assert_eq!(local.balance[0].amount, "2.0");
    assert_eq!(remote.balance.len(), 1);
}

#[derive(Debug)]
struct MonetaryTxShape {
    node_id: String,
    amount: f64,
}

#[test]
fn monetary_tx_text_follows_the_debug_form_of_the_amount() {
    for amount in [0.0f64, 1.0, 1.5, -2.25, 1e21, 1e-7, 123456789.125] {
        let shape = MonetaryTxShape { node_id: "n\"1".to_string(), amount };
        let tx = MonetaryTx { node_id: shape.node_id.clone(), amount: format!("{:?}", shape.amount) };
        assert_eq!(tx.canonical_text(), format!("{:?}", shape).replace("MonetaryTxShape", "MonetaryTx"));
    }
}

#[test]
fn block_hash_has_sixty_four_digits() {
    for block in [
        Block { previous_hash: None, mtx: None, stx: None, hash: String::new() }.calculate_hash(),
        block_on(GENESIS_HASH, Some(custody("miner-1", "req-1"))),
        block_on("", None),
    ] {
        assert_eq!(block.hash.len(), 64);
        assert!(block.hash.chars().all(|c| c.is_ascii_digit() || ('a'..='f').contains(&c)));
    }
}

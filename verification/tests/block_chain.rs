use minichain::block::{
    calculate_hash, replace_to_new_chain, validate_block, validate_chain, Block, BlockChain,
};
use minichain::miner::{MineError, MinerService, ReconcileOutcome};
use sha3::{Digest, Sha3_256};

const GENESIS_HASH: [u8; 32] = [
    58, 189, 197, 52, 175, 113, 254, 248, 138, 252, 216, 166, 7, 222, 247, 172, 174, 235, 214,
    143, 214, 32, 59, 211, 64, 58, 123, 29, 148, 66, 54, 185,
];

fn clone_block(b: &Block) -> Block {
    b.clone()
}

fn clone_chain(c: &BlockChain) -> BlockChain {
    let mut blocks = Vec::new();
    for b in c.blocks() {
        blocks.push(clone_block(b));
    }
    BlockChain::from_blocks(blocks)
}

fn expected_hash(index: u32, time: &str, pre_hash: &[u8], data: &str) -> Vec<u8> {
    let mut hasher = Sha3_256::new();
    hasher.update(index.to_le_bytes());
    hasher.update(time.as_bytes());
    hasher.update(pre_hash);
    hasher.update(data.as_bytes());
    hasher.finalize().to_vec()
}

#[test]
fn test_genesis_block_is_fixed() {
    let chain = BlockChain::new();
    assert_eq!(chain.len(), 1);
    let genesis = chain.get_latest().unwrap();
    assert_eq!(genesis.index, 0);
    assert!(genesis.pre_hash.is_empty());
    assert_eq!(genesis.data, "Genesis block.");
    assert_eq!(genesis.hash, GENESIS_HASH.to_vec());
}

#[test]
fn test_calculate_hash_is_sha3_256() {
    // The digest must be real SHA3-256 over the fixed byte layout, not the
    // input handed back or any other stand-in.
    let h = calculate_hash(0, "", &[], "");
    assert_eq!(h, Sha3_256::digest([0u8, 0, 0, 0]).to_vec());
    let h2 = calculate_hash(7, "t", &[1, 2, 3], "payload");
    assert_eq!(h2, expected_hash(7, "t", &[1, 2, 3], "payload"));
    assert_eq!(h2.len(), 32);
}

#[test]
fn test_generated_block_validates_against_parent() {
    let chain = BlockChain::new();
    let genesis = clone_block(chain.get_latest().unwrap());
    let next = chain.generate_next_block("some payload".to_string());
    assert_eq!(next.index, 1);
    assert_eq!(next.pre_hash, genesis.hash);
    assert_eq!(next.data, "some payload");
    assert!(validate_block(&genesis, &next));
    assert_eq!(
        next.hash,
        expected_hash(next.index, &next.time, &next.pre_hash, &next.data)
    );
}

#[test]
fn test_chain_built_by_mining_stays_valid() {
    let mut chain = BlockChain::new();
    for i in 1..6u32 {
        let next = chain.generate_next_block(format!("payload {}", i));
        assert!(chain.add_new_block(next));
        assert_eq!(chain.len(), (i + 1) as usize);
        assert!(validate_chain(&chain));
    }
}

#[test]
fn test_add_block_with_wrong_pre_hash_rejected() {
    let mut chain = BlockChain::new();
    let candidate = chain.generate_next_block("ok".to_string());
    let bad = Block::new(
        candidate.index,
        candidate.time.clone(),
        candidate.hash.clone(),
        vec![9, 9, 9],
        candidate.data.clone(),
    );
    let len_before = chain.len();
    assert!(!chain.add_new_block(bad));
    assert_eq!(chain.len(), len_before);
    assert!(chain.add_new_block(candidate));
    assert_eq!(chain.len(), len_before + 1);
}

#[test]
fn test_validate_block_rejects_each_tampered_field() {
    let chain = BlockChain::new();
    let genesis = clone_block(chain.get_latest().unwrap());
    let good = chain.generate_next_block("data".to_string());
    assert!(validate_block(&genesis, &good));

    let bad_index = Block::new(
        2,
        good.time.clone(),
        good.hash.clone(),
        good.pre_hash.clone(),
        good.data.clone(),
    );
    assert!(!validate_block(&genesis, &bad_index));

    let mut wrong_hash = good.hash.clone();
    wrong_hash[0] = wrong_hash[0].wrapping_add(1);
    let bad_hash = Block::new(
        good.index,
        good.time.clone(),
        wrong_hash,
        good.pre_hash.clone(),
        good.data.clone(),
    );
    assert!(!validate_block(&genesis, &bad_hash));

    let mut wrong_pre = good.pre_hash.clone();
    wrong_pre[0] = wrong_pre[0].wrapping_add(1);
    let bad_pre = Block::new(
        good.index,
        good.time.clone(),
        good.hash.clone(),
        wrong_pre,
        good.data.clone(),
    );
    assert!(!validate_block(&genesis, &bad_pre));

    let bad_payload = Block::new(
        good.index,
        good.time.clone(),
        good.hash.clone(),
        good.pre_hash.clone(),
        "datb".to_string(),
    );
    assert!(!validate_block(&genesis, &bad_payload));
}

#[test]
fn test_tampered_payload_invalidates_chain() {
    // Mine "A" then "B" on one node; flipping a single byte of block1's
    // payload must make the whole chain invalid even though block2 itself is
    // untouched.
    let mut node = MinerService::new(Vec::new());
    let genesis = clone_block(node.list_block_chain().get_latest().unwrap());
    let block1 = node.mine_block("A".to_string()).unwrap();
    assert_eq!(block1.index, 1);
    assert_eq!(block1.pre_hash, genesis.hash);
    let block2 = node.mine_block("B".to_string()).unwrap();
    assert_eq!(block2.index, 2);
    assert_eq!(block2.pre_hash, block1.hash);
    assert!(validate_chain(node.list_block_chain()));

    // Flip "A" (0x41) to "C" (0x43): a single-byte change to the payload.
    let tampered = Block::new(
        block1.index,
        block1.time.clone(),
        block1.hash.clone(),
        block1.pre_hash.clone(),
        "C".to_string(),
    );
    let forged = BlockChain::from_blocks(vec![genesis, tampered, block2]);
    assert!(!validate_chain(&forged));
}

#[test]
fn test_replace_adopts_only_longer_valid_chains() {
    let mut local = MinerService::new(Vec::new());
    local.mine_block("local 1".to_string()).unwrap();

    // Equal length, fully valid: never adopted.
    let mut other = MinerService::new(Vec::new());
    other.mine_block("other 1".to_string()).unwrap();
    assert!(replace_to_new_chain(
        local.list_block_chain(),
        clone_chain(other.list_block_chain())
    )
    .is_none());

    // Shorter: never adopted.
    assert!(replace_to_new_chain(local.list_block_chain(), BlockChain::new()).is_none());

    // Strictly longer and fully valid: always adopted.
    other.mine_block("other 2".to_string()).unwrap();
    let adopted = replace_to_new_chain(
        local.list_block_chain(),
        clone_chain(other.list_block_chain()),
    );
    assert!(adopted.is_some());
    assert_eq!(adopted.unwrap().len(), 3);

    // Strictly longer but invalid: never adopted.
    let mut blocks = Vec::new();
    for b in other.list_block_chain().blocks() {
        blocks.push(clone_block(b));
    }
    blocks[1] = Block::new(
        blocks[1].index,
        blocks[1].time.clone(),
        blocks[1].hash.clone(),
        blocks[1].pre_hash.clone(),
        "forged".to_string(),
    );
    let invalid = BlockChain::from_blocks(blocks);
    assert!(replace_to_new_chain(local.list_block_chain(), invalid).is_none());
}

#[test]
fn test_publish_longer_valid_chain_replaces_local() {
    // Nodes A and B start from the same genesis; A mines one block, B mines
    // two; when B publishes its chain, A must adopt it wholesale.
    let mut node_a = MinerService::new(Vec::new());
    node_a.mine_block("a 1".to_string()).unwrap();
    let mut node_b = MinerService::new(Vec::new());
    node_b.mine_block("b 1".to_string()).unwrap();
    node_b.mine_block("b 2".to_string()).unwrap();

    let outcome = node_a.publish_blocks(clone_chain(node_b.list_block_chain()));
    assert_eq!(outcome, ReconcileOutcome::Replaced);
    let a_blocks = node_a.list_block_chain().blocks();
    let b_blocks = node_b.list_block_chain().blocks();
    assert_eq!(a_blocks.len(), b_blocks.len());
    for (a, b) in a_blocks.iter().zip(b_blocks.iter()) {
        assert_eq!(a.index, b.index);
        assert_eq!(a.time, b.time);
        assert_eq!(a.hash, b.hash);
        assert_eq!(a.pre_hash, b.pre_hash);
        assert_eq!(a.data, b.data);
    }
}

#[test]
fn test_publish_extending_tip_fast_forwards() {
    let mut node_a = MinerService::new(Vec::new());
    let mut node_b = MinerService::new(Vec::new());
    node_b.mine_block("shared".to_string()).unwrap();

    let outcome = node_a.publish_blocks(clone_chain(node_b.list_block_chain()));
    assert_eq!(outcome, ReconcileOutcome::Appended);
    assert_eq!(node_a.list_block_chain().len(), 2);
    assert!(validate_chain(node_a.list_block_chain()));
}

#[test]
fn test_publish_stale_tip_is_ignored() {
    let mut node_a = MinerService::new(Vec::new());
    node_a.mine_block("a 1".to_string()).unwrap();
    node_a.mine_block("a 2".to_string()).unwrap();
    let stale = BlockChain::new();
    let outcome = node_a.publish_blocks(stale);
    assert_eq!(outcome, ReconcileOutcome::Ignored);
    assert_eq!(node_a.list_block_chain().len(), 3);
}

#[test]
fn test_publish_equal_length_diverged_is_rejected() {
    let mut node_a = MinerService::new(Vec::new());
    node_a.mine_block("a 1".to_string()).unwrap();
    let mut node_b = MinerService::new(Vec::new());
    node_b.mine_block("b 1".to_string()).unwrap();

    let len_before = node_a.list_block_chain().len();
    let outcome = node_a.publish_blocks(clone_chain(node_b.list_block_chain()));
    assert_eq!(outcome, ReconcileOutcome::Rejected);
    assert_eq!(node_a.list_block_chain().len(), len_before);
}

#[test]
fn test_mine_fails_only_when_index_exhausted() {
    let mut node = MinerService::new(Vec::new());
    let exhausted_tip = Block::new(
        u32::MAX,
        "t".to_string(),
        vec![1, 2, 3],
        Vec::new(),
        "tip".to_string(),
    );
    node.block_chain = BlockChain::from_blocks(vec![exhausted_tip]);
    let r = node.mine_block("more".to_string());
    assert_eq!(r.unwrap_err(), MineError::IndexExhausted);
    assert_eq!(node.block_chain.len(), 1);
}

#[test]
fn test_pop_latest_removes_tip() {
    let mut chain = BlockChain::new();
    let next = chain.generate_next_block("x".to_string());
    assert!(chain.add_new_block(next));
    let popped = chain.pop_latest().unwrap();
    assert_eq!(popped.index, 1);
    assert_eq!(chain.len(), 1);
    let genesis = chain.pop_latest().unwrap();
    assert_eq!(genesis.index, 0);
    assert!(chain.pop_latest().is_none());
    assert!(chain.get_latest().is_none());
}

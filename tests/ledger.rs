use pow_ledger::encoding::push_decimal;
use pow_ledger::{
    create_sample_transactions, genesis_block, Block, BlockHeader, Blockchain, ChainFault, Miner,
    MiningError, Transaction,
};

fn tx(id: &str, inputs: &[&str], outputs: &[&str], amount: u64) -> Transaction {
    Transaction::new(
        id.to_string(),
        inputs.iter().map(|s| s.to_string()).collect(),
        outputs.iter().map(|s| s.to_string()).collect(),
        amount,
    )
}

const GENESIS_ADDRESS: &str = "1A1zP1eP5QGefi2DMPTfTL5SLmv7DivfNa";

#[test]
fn test_blockchain_creation() {
    let blockchain = Blockchain::new(4);
    assert_eq!(blockchain.blocks.len(), 1);
    assert_eq!(blockchain.blocks[0].height, 0);
}

#[test]
fn test_transaction_addition() {
    let mut blockchain = Blockchain::new(4);
    let tx = Transaction::new(
        "test_tx".to_string(),
        vec!["input1".to_string()],
        vec!["output1".to_string()],
        100,
    );

    blockchain.add_transaction(tx);
    assert_eq!(blockchain.pending_transactions.len(), 1);
}

#[test]
fn test_mining_multiple_blocks() {
    let mut blockchain = Blockchain::new(4);

    let tx1 = Transaction::new("tx1".to_string(), vec![], vec!["addr1".to_string()], 100);
    let tx2 = Transaction::new("tx2".to_string(), vec![], vec!["addr2".to_string()], 200);

    blockchain.add_transaction(tx1);
    blockchain.add_transaction(tx2);

    let result = blockchain.mine_pending_transactions();
    assert!(result.is_ok());
    assert_eq!(blockchain.blocks.len(), 2);
}

#[test]
fn test_blockchain_validation() {
    let mut blockchain = Blockchain::new(4);
    let tx = Transaction::new("tx1".to_string(), vec![], vec!["addr1".to_string()], 100);

    blockchain.add_transaction(tx);
    blockchain.mine_pending_transactions().unwrap();

    assert!(blockchain.validate_chain());
}

#[test]
fn transaction_encoding_is_compact_json() {
    let t = tx("tx1", &[], &["addr1"], 100);
    assert_eq!(
        String::from_utf8(t.encode()).unwrap(),
        r#"{"id":"tx1","inputs":[],"outputs":["addr1"],"amount":100}"#
    );
    let t = tx("a\"b\\c\n", &["x", "y"], &[], 0);
    assert_eq!(
        String::from_utf8(t.encode()).unwrap(),
        r#"{"id":"a\"b\\c\n","inputs":["x","y"],"outputs":[],"amount":0}"#
    );
}

#[test]
fn transaction_digest_is_sha256_of_encoding() {
    let t = tx("tx1", &[], &["addr1"], 100);
    assert_eq!(
        t.hash(),
        [
            136, 33, 139, 157, 14, 43, 193, 37, 227, 78, 226, 104, 69, 243, 88, 4, 123, 216, 159,
            50, 13, 116, 4, 167, 90, 14, 132, 233, 167, 47, 44, 22
        ]
    );
}

fn sample_header() -> BlockHeader {
    let mut root = [0u8; 32];
    for (i, b) in root.iter_mut().enumerate() {
        *b = i as u8;
    }
    BlockHeader {
        version: 1,
        previous_hash: [0; 32],
        merkle_root: root,
        timestamp: 1_700_000_000,
        difficulty_target: 8,
        nonce: 42,
    }
}

#[test]
fn header_encoding_and_double_digest() {
    let h = sample_header();
    let text = String::from_utf8(h.encode()).unwrap();
    assert!(text.starts_with(r#"{"version":1,"previous_hash":[0,0,0,"#));
    assert!(text.contains(r#""merkle_root":[0,1,2,3,4,5,6,7,8,9,10,"#));
    assert!(text.ends_with(r#""timestamp":1700000000,"difficulty_target":8,"nonce":42}"#));
    let expected = [
        1, 244, 200, 50, 52, 129, 173, 56, 20, 47, 172, 155, 155, 176, 225, 149, 140, 202, 17, 18,
        79, 223, 144, 95, 212, 5, 119, 25, 7, 239, 223, 196,
    ];
    assert_eq!(h.hash(), expected);
    let block = Block { header: h, transactions: vec![], height: 3 };
    assert_eq!(block.hash(), expected);
}

#[test]
fn merkle_root_of_empty_list_is_zero() {
    assert_eq!(Block::calculate_merkle_root(&vec![]), [0u8; 32]);
}

#[test]
fn merkle_root_is_deterministic() {
    let txs = vec![tx("tx1", &[], &["addr1"], 100), tx("tx2", &[], &["addr2"], 200)];
    let first = Block::calculate_merkle_root(&txs);
    let second = Block::calculate_merkle_root(&txs.clone());
    assert_eq!(first, second);
    assert_eq!(
        first,
        [
            109, 50, 162, 202, 13, 122, 102, 226, 43, 117, 129, 244, 43, 63, 225, 2, 180, 1, 139,
            98, 225, 68, 208, 113, 202, 241, 34, 205, 152, 49, 56, 149
        ]
    );
}

#[test]
fn merkle_root_of_single_transaction_is_its_digest() {
    let t = tx("tx1", &[], &["addr1"], 100);
    assert_eq!(Block::calculate_merkle_root(&vec![t.clone()]), t.hash());
}

#[test]
fn merkle_root_duplicates_last_of_odd_level() {
    let txs = vec![
        tx("tx1", &[], &["addr1"], 100),
        tx("tx2", &[], &["addr2"], 200),
        tx("tx3", &["addr1"], &["addr2"], 50),
    ];
    assert_eq!(
        Block::calculate_merkle_root(&txs),
        [
            77, 188, 197, 17, 161, 100, 29, 102, 57, 132, 47, 178, 19, 3, 177, 64, 36, 189, 234,
            241, 116, 8, 181, 206, 122, 170, 171, 99, 238, 152, 161, 135
        ]
    );
}

#[test]
fn block_new_commits_to_transactions() {
    let txs = vec![tx("tx1", &[], &["addr1"], 100), tx("tx2", &[], &["addr2"], 200)];
    let root = Block::calculate_merkle_root(&txs);
    let block = Block::new(1, [7; 32], txs, 5, 9);
    assert_eq!(block.header.merkle_root, root);
    assert_eq!(block.header.previous_hash, [7; 32]);
    assert_eq!(block.header.difficulty_target, 5);
    assert_eq!(block.header.nonce, 0);
    assert_eq!(block.height, 9);
}

#[test]
fn leading_zero_bits_counts_whole_then_partial_bytes() {
    let miner = Miner::new(0);
    let mut digest = [0xffu8; 32];
    digest[0] = 0;
    digest[1] = 0;
    digest[2] = 0x80;
    assert_eq!(miner.count_leading_zero_bits(&digest), 16);
    let mut digest = [0u8; 32];
    digest[0] = 0x80;
    assert_eq!(miner.count_leading_zero_bits(&digest), 0);
    let mut digest = [0u8; 32];
    digest[1] = 0x01;
    digest[2] = 0xff;
    assert_eq!(miner.count_leading_zero_bits(&digest), 15);
    assert_eq!(miner.count_leading_zero_bits(&[0u8; 32]), 256);
}

#[test]
fn difficulty_target_is_a_lower_bound() {
    let mut digest = [0u8; 32];
    digest[1] = 0x10;
    assert!(Miner::new(11).meets_difficulty_target(&digest));
    assert!(!Miner::new(12).meets_difficulty_target(&digest));
    assert!(Miner::new(0).meets_difficulty_target(&[0xff; 32]));
}

#[test]
fn mining_at_difficulty_zero_takes_the_first_nonce() {
    let miner = Miner::new(0);
    let block = miner
        .mine_block(1, [0; 32], vec![tx("tx1", &[], &["addr1"], 100)], 1)
        .unwrap();
    assert_eq!(block.header.nonce, 0);
    assert!(miner.validate_block(&block));
}

#[test]
fn mined_block_meets_target_and_earlier_nonces_do_not() {
    let miner = Miner::new(8);
    let block = miner
        .mine_block(1, [3; 32], vec![tx("tx1", &[], &["addr1"], 100)], 2)
        .unwrap();
    assert!(miner.count_leading_zero_bits(&block.hash()) >= 8);
    assert!(miner.validate_block(&block));
    let mut earlier = block.clone();
    for n in 0..block.header.nonce {
        earlier.header.nonce = n;
        assert!(!miner.validate_block(&earlier));
    }
    assert_eq!(block.height, 2);
    assert_eq!(block.header.previous_hash, [3; 32]);
}

#[test]
fn search_stops_at_largest_nonce() {
    let miner = Miner::new(256);
    let mut block = Block::new(1, [0; 32], vec![], 256, 0);
    block.header.nonce = u32::MAX - 2;
    assert!(!miner.search_nonces(&mut block));
    assert_eq!(block.header.nonce, u32::MAX);
}

#[test]
fn genesis_only_chain_is_valid() {
    let blockchain = Blockchain::new(4);
    assert!(blockchain.validate_chain());
    assert_eq!(blockchain.blocks[0].header.previous_hash, [0; 32]);
}

#[test]
fn altered_previous_hash_invalidates_chain() {
    let mut blockchain = Blockchain::new(4);
    blockchain.add_transaction(tx("tx1", &[], &["addr1"], 100));
    blockchain.mine_pending_transactions().unwrap();
    assert!(blockchain.validate_chain());
    blockchain.blocks[1].header.previous_hash[31] ^= 0x01;
    assert!(!blockchain.validate_chain());
}

#[test]
fn mining_links_to_previous_block() {
    let mut blockchain = Blockchain::new(4);
    blockchain.add_transaction(tx("tx1", &[], &["addr1"], 100));
    blockchain.add_transaction(tx("tx2", &[], &["addr2"], 200));
    blockchain.mine_pending_transactions().unwrap();
    assert!(blockchain.pending_transactions.is_empty());
    let latest = blockchain.get_latest_block();
    assert_eq!(latest.height, 1);
    assert_eq!(latest.transactions.len(), 2);
    assert_eq!(latest.transactions[0].id, "tx1");
    assert_eq!(latest.header.previous_hash, blockchain.blocks[0].hash());
}

#[test]
fn mining_with_nothing_pending_changes_nothing() {
    let mut blockchain = Blockchain::new(4);
    assert!(blockchain.mine_pending_transactions().is_ok());
    assert_eq!(blockchain.blocks.len(), 1);
}

#[test]
fn balance_follows_additive_rule_over_three_blocks() {
    let mut blockchain = Blockchain::new(0);
    blockchain.add_transaction(tx("t1", &[GENESIS_ADDRESS], &["B"], 10));
    blockchain.mine_pending_transactions().unwrap();
    blockchain.add_transaction(tx("t2", &["B"], &["C"], 5));
    blockchain.mine_pending_transactions().unwrap();
    assert_eq!(blockchain.blocks.len(), 3);
    assert_eq!(blockchain.get_balance(GENESIS_ADDRESS), 4_999_999_990);
    assert_eq!(blockchain.get_balance("B"), 5);
    assert_eq!(blockchain.get_balance("C"), 5);
    assert_eq!(blockchain.get_balance("D"), 0);
}

#[test]
fn balance_saturates_and_is_not_conservative() {
    let mut blockchain = Blockchain::new(0);
    blockchain.add_transaction(tx("t1", &["E"], &[], 30));
    blockchain.add_transaction(tx("t2", &["F"], &["F"], 7));
    blockchain.add_transaction(tx("t3", &[], &["F", "F"], 4));
    blockchain.mine_pending_transactions().unwrap();
    assert_eq!(blockchain.get_balance("E"), 0);
    assert_eq!(blockchain.get_balance("F"), 4);
}

#[test]
fn difficulty_adjusts_by_one_step() {
    let mut miner = Miner::new(4);
    miner.adjust_difficulty(10, 4);
    assert_eq!(miner.difficulty_target, 3);
    let mut miner = Miner::new(1);
    miner.adjust_difficulty(10, 4);
    assert_eq!(miner.difficulty_target, 1);
    let mut miner = Miner::new(4);
    miner.adjust_difficulty(1, 10);
    assert_eq!(miner.difficulty_target, 5);
    let mut miner = Miner::new(4);
    miner.adjust_difficulty(5, 5);
    assert_eq!(miner.difficulty_target, 4);
    let mut miner = Miner::new(4);
    miner.adjust_difficulty(8, 4);
    assert_eq!(miner.difficulty_target, 4);
    miner.adjust_difficulty(2, 4);
    assert_eq!(miner.difficulty_target, 4);
}

#[test]
fn genesis_block_shape() {
    let g = genesis_block();
    assert_eq!(g.height, 0);
    assert_eq!(g.header.difficulty_target, 8);
    assert_eq!(g.transactions.len(), 1);
    assert_eq!(g.transactions[0].outputs, vec![GENESIS_ADDRESS.to_string()]);
    assert_eq!(g.transactions[0].amount, 5_000_000_000);
    assert_eq!(g.header.merkle_root, g.transactions[0].hash());
}

#[test]
fn sample_transactions_are_five_transfers() {
    let txs = create_sample_transactions();
    assert_eq!(txs.len(), 5);
    assert_eq!(txs[0].id, "tx_001");
    assert_eq!(txs[4].amount, 100_000_000);
}

#[test]
fn mining_error_messages() {
    assert_eq!(MiningError::InvalidBlock.message(), "Invalid block");
    assert_eq!(MiningError::MiningFailed.message(), "Mining failed");
}

#[test]
fn decimal_rendering() {
    let mut out = Vec::new();
    push_decimal(&mut out, 0);
    push_decimal(&mut out, 1_234_567_890);
    push_decimal(&mut out, u64::MAX);
    assert_eq!(String::from_utf8(out).unwrap(), "0123456789018446744073709551615");
}

#[test]
fn fault_names_first_failing_block_and_check() {
    let mut blockchain = Blockchain::new(0);
    blockchain.add_transaction(tx("tx1", &[], &["addr1"], 100));
    blockchain.mine_pending_transactions().unwrap();
    blockchain.add_transaction(tx("tx2", &[], &["addr2"], 200));
    blockchain.mine_pending_transactions().unwrap();
    assert_eq!(blockchain.find_fault(), None);
    blockchain.blocks[2].header.previous_hash[0] ^= 0xff;
    assert_eq!(blockchain.find_fault(), Some((2, ChainFault::InvalidPreviousHash)));
    blockchain.miner.difficulty_target = 256;
    assert_eq!(blockchain.find_fault(), Some((1, ChainFault::InvalidHash)));
    assert!(!blockchain.validate_chain());
}

#[test]
fn checked_balance_reports_overflow() {
    let mut blockchain = Blockchain::new(0);
    blockchain.add_transaction(tx("t1", &[], &["G"], u64::MAX));
    blockchain.add_transaction(tx("t2", &[], &["G"], 1));
    blockchain.mine_pending_transactions().unwrap();
    assert_eq!(blockchain.checked_balance("G"), None);
    assert_eq!(blockchain.checked_balance("H"), Some(0));
    assert_eq!(
        blockchain.checked_balance(GENESIS_ADDRESS),
        Some(blockchain.get_balance(GENESIS_ADDRESS))
    );
}

#[test]
fn mining_continues_after_difficulty_is_raised() {
    let mut blockchain = Blockchain::new(0);
    blockchain.add_transaction(tx("t1", &[], &["A"], 1));
    blockchain.mine_pending_transactions().unwrap();
    blockchain.miner.difficulty_target = 2;
    blockchain.add_transaction(tx("t2", &[], &["B"], 2));
    assert!(blockchain.mine_pending_transactions().is_ok());
    assert_eq!(blockchain.blocks.len(), 3);
    assert_eq!(blockchain.blocks[2].header.difficulty_target, 2);
    assert_eq!(blockchain.blocks[2].header.previous_hash, blockchain.blocks[1].hash());
}

use blockchain::utils::mint_initial_supply;
use blockchain::{Block, Transaction, TransactionData};
use ed25519_dalek::Keypair;

#[test]
fn test_creation() {
    let mut block = Block::new(None);
    let keypair_account = Keypair::generate(&mut rand::rngs::OsRng {});
    let tx = Transaction::new(
        TransactionData::CreateAccount(
            "alice".to_string(),
            keypair_account.public.as_bytes().clone(),
        ),
        None,
    );
    block.set_nonce(1);
    block.add_transaction(tx);

    println!("{:?}", block);
}

#[test]
fn test_hash() {
    let mut block = Block::new(None);

    let keypair_account = Keypair::generate(&mut rand::rngs::OsRng {});
    let tx = Transaction::new(
        TransactionData::CreateAccount(
            "alice".to_string(),
            keypair_account.public.as_bytes().clone(),
        ),
        None,
    );
    block.set_nonce(1);

    let hash1 = block.hash();

    block.add_transaction(tx);
    block.set_nonce(1);
    let hash2 = block.hash();

    assert_ne!(hash1, hash2);
}

#[test]
fn block_is_sealed_after_each_change() {
    let mut block = Block::new(None);
    assert!(block.verify());
    block.set_nonce(7);
    assert!(block.verify());
    assert_eq!(block.stored_hash().clone(), Some(block.hash()));
    block.add_transaction(mint_initial_supply("satoshi".to_string(), 5));
    assert!(block.verify());
    assert_eq!(block.nonce(), 7);
    assert_eq!(block.transactions().len(), 1);
}

#[test]
fn nonce_changes_block_hash() {
    let mut block = Block::new(Some("ab".to_string()));
    block.set_nonce(1);
    let h1 = block.hash();
    block.set_nonce(2);
    let h2 = block.hash();
    assert_ne!(h1, h2);
    assert_eq!(h1.len(), 64);
}

#[test]
fn tampered_transaction_breaks_block_hash() {
    let mut block = Block::new(None);
    block.add_transaction(mint_initial_supply("satoshi".to_string(), 100_000_000));
    assert!(block.verify());
    *block.transaction_mut(0) = mint_initial_supply("satoshi".to_string(), 100);
    assert!(!block.verify());
}

#[test]
fn mining_meets_target() {
    let mut block = Block::new(None);
    block.add_transaction(mint_initial_supply("satoshi".to_string(), 1));
    block.mine("20800000".to_string());
    assert!(block.verify());
    assert!(block.meets(0x20800000));
}

#[test]
fn mine_step_raises_nonce_until_met() {
    let mut block = Block::new(None);
    block.add_transaction(mint_initial_supply("satoshi".to_string(), 1));
    // No hash has a compact value below zero.
    assert!(!block.mine_step(0));
    assert_eq!(block.nonce(), 1);
    assert!(block.verify());
    // Every 64-digit hash with a compact value lies below this target.
    let mut steps = 0;
    while !block.mine_step(0x7fffffff) {
        steps += 1;
        assert!(steps < 100);
    }
}

// Every block after the first is refused (the retarget before it sees no
// elapsed time and sets the target to zero), so one later block is mined
// against the target in force and then refused.
#[test]
fn block_test_mining() {
    let mut bc = blockchain::Blockchain::new();

    let account_id_satoshi = "satoshi".to_string();
    let (_, tx_create_satoshi) = blockchain::utils::create_account_tx(account_id_satoshi.clone());
    let tx_mint_initial_supply = mint_initial_supply(account_id_satoshi.clone(), 100_000_000);

    let mut block = Block::new(bc.get_last_block_hash());
    block.add_transaction(tx_create_satoshi);
    block.add_transaction(tx_mint_initial_supply);
    block.mine(bc.target());
    assert!(bc.append_block(block).is_ok());

    let mut block = Block::new(bc.get_last_block_hash());
    let (_, tx_create_alice) =
        blockchain::utils::create_account_tx(blockchain::utils::generate_account_id());
    block.add_transaction(tx_create_alice);
    block.mine(bc.target());
    assert!(block.meets(blockchain::MAX_TARGET));
    assert_eq!(bc.append_block(block).err().unwrap(), blockchain::BlockError::HashAboveTarget);
    assert_eq!(bc.target(), "0");
    assert_eq!(bc.len(), 1);
}

#[test]
fn new_at_keeps_timestamp() {
    let block = Block::new_at(Some("ab".to_string()), 42);
    assert_eq!(block.timestamp(), 42);
    assert_eq!(block.nonce(), 0);
    assert!(block.verify());
}

#[test]
fn mining_a_block_that_meets_target_keeps_nonce() {
    let mut block = Block::new(None);
    block.add_transaction(mint_initial_supply("satoshi".to_string(), 1));
    block.mine("20800000".to_string());
    let nonce = block.nonce();
    let hash = block.hash();
    block.mine("20800000".to_string());
    assert_eq!(block.nonce(), nonce);
    assert_eq!(block.hash(), hash);
}

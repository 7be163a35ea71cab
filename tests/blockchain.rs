use blockchain::utils::{
    append_block_with_tx, create_account_tx, create_transfer_tx, mint_initial_supply,
};
use blockchain::{Block, BlockError, Blockchain, ChainError, Ledger, TxError};

#[test]
fn test_new() {
    let bc = Blockchain::new();
    assert_eq!(bc.get_last_block_hash(), None);
}

#[test]
fn test_create_genesis_block() {
    let bc = &mut Blockchain::new();

    let account = "satoshi".to_string();
    let (_, tx_create_account) = create_account_tx(account.clone());
    let tx_mint_initial_supply = mint_initial_supply(account.clone(), 100_000_000);

    assert!(
        append_block_with_tx(bc, 1, vec![tx_create_account, tx_mint_initial_supply]).is_ok()
    );

    let satoshi = bc.get_account_by_id(account.clone());

    assert!(satoshi.is_some());
    assert_eq!(satoshi.unwrap().balance, 100_000_000);
}

#[test]
fn test_create_genesis_block_fails() {
    let mut bc = Blockchain::new();

    let account = "satoshi".to_string();
    let (_, tx_create_account) = create_account_tx(account.clone());
    let tx_mint_initial_supply = mint_initial_supply(account.clone(), 100_000_000);

    let mut block = Block::new(None);
    block.set_nonce(1);
    block.add_transaction(tx_mint_initial_supply);
    block.add_transaction(tx_create_account);

    assert_eq!(
        bc.append_block(block).err().unwrap().message(),
        "Error during tx execution: Invalid account.".to_string()
    );
}

#[test]
fn test_state_rollback_works() {
    let mut bc = Blockchain::new();

    let account_satoshi = "satoshi".to_string();
    let (_, tx_create_account) = create_account_tx(account_satoshi.clone());
    let tx_mint_initial_supply = mint_initial_supply(account_satoshi.clone(), 100_000_000);

    let mut block = Block::new(None);
    block.set_nonce(1);
    block.add_transaction(tx_create_account);
    block.add_transaction(tx_mint_initial_supply);

    assert!(bc.append_block(block).is_ok());

    let mut block = Block::new(bc.get_last_block_hash());

    let account_alice = "alice".to_string();
    let (_, tx_create_alice) = create_account_tx(account_alice.clone());

    let account_bob = "bob".to_string();
    let (_, tx_create_bob) = create_account_tx(account_bob.clone());

    block.set_nonce(2);
    block.add_transaction(tx_create_alice);
    block.add_transaction(tx_create_bob.clone());
    block.add_transaction(tx_create_bob);

    assert!(bc.append_block(block).is_err());

    assert!(bc.get_account_by_id("satoshi".to_string()).is_some());
    assert!(bc.get_account_by_id("alice".to_string()).is_none());
    assert!(bc.get_account_by_id("bob".to_string()).is_none());
}

#[test]
fn blockchain_test_mining() {
    let mut bc = Blockchain::new();

    let account_id_satoshi = "satoshi".to_string();
    let (_, tx_create_satoshi) = create_account_tx(account_id_satoshi.clone());
    let tx_mint_initial_supply = mint_initial_supply(account_id_satoshi.clone(), 100_000_000);

    let mut block = Block::new(bc.get_last_block_hash());
    block.add_transaction(tx_create_satoshi);
    block.add_transaction(tx_mint_initial_supply);
    block.mine(bc.target());

    assert!(bc.append_block(block).is_ok());
    println!("{}", bc.target());
}

/// A chain whose first block opens satoshi, alice and bob and mints to satoshi.
fn genesis_chain() -> (Blockchain, ed25519_dalek::Keypair, ed25519_dalek::Keypair) {
    let mut bc = Blockchain::new();
    let (keypair_satoshi, tx_satoshi) = create_account_tx("satoshi".to_string());
    let (_, tx_alice) = create_account_tx("alice".to_string());
    let (keypair_bob, tx_bob) = create_account_tx("bob".to_string());
    let mint = mint_initial_supply("satoshi".to_string(), 100_000_000);
    assert!(append_block_with_tx(&mut bc, 1, vec![tx_satoshi, tx_alice, tx_bob, mint]).is_ok());
    (bc, keypair_satoshi, keypair_bob)
}

fn balance(bc: &Blockchain, id: &str) -> u128 {
    bc.get_account_by_id(id.to_string()).unwrap().balance
}

#[test]
fn self_transfer_fails_regardless_of_balance() {
    let (mut bc, keypair_satoshi, _) = genesis_chain();
    for amount in [0u128, 10_000_000, 100_000_000_000] {
        let mut tx = create_transfer_tx("satoshi".to_string(), "satoshi".to_string(), amount);
        tx.sign(&keypair_satoshi);
        let err = append_block_with_tx(&mut bc, 2, vec![tx]).err().unwrap();
        assert_eq!(err, BlockError::Transaction(TxError::SelfTransfer));
        assert_eq!(err.message(), "Error during tx execution: Transfer to yourself.");
    }
    assert_eq!(balance(&bc, "satoshi"), 100_000_000);
    assert_eq!(bc.len(), 1);
}

#[test]
fn transfer_above_balance_fails_and_leaves_ledger() {
    let (mut bc, keypair_satoshi, _) = genesis_chain();
    let mut tx = create_transfer_tx("satoshi".to_string(), "bob".to_string(), 100_000_000_000);
    tx.sign(&keypair_satoshi);
    let err = append_block_with_tx(&mut bc, 3, vec![tx]).err().unwrap();
    assert_eq!(err, BlockError::Transaction(TxError::InsufficientFunds));
    assert_eq!(
        err.message(),
        "Error during tx execution: Sender doesn't have enough currency."
    );
    assert_eq!(balance(&bc, "satoshi"), 100_000_000);
    assert_eq!(balance(&bc, "bob"), 0);
}

#[test]
fn funds_are_checked_before_the_signature() {
    let (mut bc, _, keypair_bob) = genesis_chain();
    // Signed with the wrong key and above the balance: the balance check wins.
    let mut tx = create_transfer_tx("satoshi".to_string(), "bob".to_string(), 100_000_000_001);
    tx.sign(&keypair_bob);
    let err = append_block_with_tx(&mut bc, 3, vec![tx]).err().unwrap();
    assert_eq!(err, BlockError::Transaction(TxError::InsufficientFunds));
}

#[test]
fn transfer_to_unknown_accounts_fails() {
    let (mut bc, keypair_satoshi, _) = genesis_chain();
    let mut tx = create_transfer_tx("satoshi".to_string(), "invalid".to_string(), 1);
    tx.sign(&keypair_satoshi);
    let err = append_block_with_tx(&mut bc, 4, vec![tx]).err().unwrap();
    assert_eq!(err.message(), "Error during tx execution: Invalid receiver account.");

    let tx = create_transfer_tx("invalid".to_string(), "satoshi".to_string(), 1);
    let err = append_block_with_tx(&mut bc, 4, vec![tx]).err().unwrap();
    assert_eq!(err.message(), "Error during tx execution: Invalid sender account.");
}

#[test]
fn payload_changed_after_signing_fails_signature() {
    let (mut bc, keypair_satoshi, _) = genesis_chain();
    let mut signed = create_transfer_tx("satoshi".to_string(), "bob".to_string(), 1);
    signed.sign(&keypair_satoshi);
    let signature = signed.signature().unwrap();

    let mut forged = create_transfer_tx("satoshi".to_string(), "bob".to_string(), 500);
    forged.set_sign(signature);
    let err = append_block_with_tx(&mut bc, 2, vec![forged]).err().unwrap();
    assert_eq!(err, BlockError::Transaction(TxError::InvalidSignature));
    assert_eq!(err.message(), "Error during tx execution: Signature invalid.");
    assert_eq!(balance(&bc, "satoshi"), 100_000_000);
    assert_eq!(bc.len(), 1);
}

#[test]
fn signature_from_another_key_fails() {
    let (mut bc, _, keypair_bob) = genesis_chain();
    let mut tx = create_transfer_tx("satoshi".to_string(), "bob".to_string(), 1);
    tx.sign(&keypair_bob);
    let err = append_block_with_tx(&mut bc, 2, vec![tx]).err().unwrap();
    assert_eq!(err, BlockError::Transaction(TxError::InvalidSignature));
}

#[test]
fn mint_outside_genesis_fails() {
    let (mut bc, _, _) = genesis_chain();
    let mint = mint_initial_supply("satoshi".to_string(), 100_000_000);
    let err = append_block_with_tx(&mut bc, 2, vec![mint]).err().unwrap();
    assert_eq!(err, BlockError::Transaction(TxError::NotGenesisMint));
    assert_eq!(
        err.message(),
        "Error during tx execution: Initial supply can be minted only in genesis block."
    );
    assert_eq!(balance(&bc, "satoshi"), 100_000_000);
}

#[test]
fn empty_and_stale_blocks_are_refused() {
    let mut bc = Blockchain::new();
    let block = Block::new(None);
    let err = bc.append_block(block).err().unwrap();
    assert_eq!(err, BlockError::EmptyBlock);
    assert_eq!(err.message(), "Block has 0 transactions.");

    let mut block = Block::new(None);
    block.add_transaction(mint_initial_supply("satoshi".to_string(), 1));
    *block.transaction_mut(0) = mint_initial_supply("satoshi".to_string(), 2);
    let err = bc.append_block(block).err().unwrap();
    assert_eq!(err, BlockError::InvalidHash);
    assert_eq!(err.message(), "Block has invalid hash");
    assert_eq!(bc.len(), 0);
}

#[test]
fn later_block_is_gated_by_retargeted_target() {
    // The first block sets both timestamps, so the next retarget sees no
    // elapsed time and the target drops to zero.
    let (mut bc, _, _) = genesis_chain();
    let (_, tx_carol) = create_account_tx("carol".to_string());
    let err = append_block_with_tx(&mut bc, 2, vec![tx_carol]).err().unwrap();
    assert_eq!(err, BlockError::HashAboveTarget);
    assert_eq!(err.message(), "Hash greater than target");
    assert!(bc.get_account_by_id("carol".to_string()).is_none());
    assert_eq!(bc.target(), "0");
    assert_eq!(bc.target_bits(), 0);
    assert_eq!(bc.len(), 1);
}

#[test]
fn retarget_uses_elapsed_time() {
    let mut bc = Blockchain::new();
    assert_eq!(bc.target(), "1effffff");
    let (_, tx) = create_account_tx("satoshi".to_string());
    let mut block = Block::new(None);
    block.add_transaction(tx);
    assert!(bc.append_block_at(block, 1_000).is_ok());
    bc.update_difficulty();
    assert_eq!(bc.difficulty().numerator, 0);
    assert_eq!(bc.difficulty().denominator, 1_209_600);
    bc.update_target();
    assert_eq!(bc.target_bits(), 0);
}

#[test]
fn validate_accepts_built_chain_and_detects_tampering() {
    let (mut bc, _, _) = genesis_chain();
    assert_eq!(bc.validate(), Ok(()));
    *bc.block_mut(0).transaction_mut(3) = mint_initial_supply("satoshi".to_string(), 100);
    assert!(!bc.block(0).verify());
    let err = bc.validate().err().unwrap();
    assert_eq!(err, ChainError::InvalidHash(1));
    assert_eq!(err.message(), "Block 1 has invalid hash");
}

#[test]
fn genesis_with_previous_hash_fails_validation() {
    let mut bc = Blockchain::new();
    let mut block = Block::new(Some("abc".to_string()));
    block.add_transaction(mint_initial_supply("x".to_string(), 0));
    let (_, tx) = create_account_tx("x".to_string());
    let mut block2 = Block::new(Some("abc".to_string()));
    block2.add_transaction(tx);
    assert!(bc.append_block(block).is_err());
    assert!(bc.append_block(block2).is_ok());
    let err = bc.validate().err().unwrap();
    assert_eq!(err, ChainError::GenesisPrevHash);
    assert_eq!(err.message(), "Genesis block shouldn't have prev_hash");
}

#[test]
fn chain_error_texts() {
    assert_eq!(ChainError::MissingPrevHash(12).message(), "Block 12 doesn't have prev_hash");
    assert_eq!(
        ChainError::HashMismatch(3).message(),
        "Block 3 prev_hash doesn't match Block 2 hash"
    );
}

#[test]
fn last_block_hash_is_head_hash() {
    let (bc, _, _) = genesis_chain();
    assert_eq!(bc.get_last_block_hash(), Some(bc.block(0).hash()));
    assert_eq!(bc.block(0).stored_hash().clone(), bc.get_last_block_hash());
}

#[test]
fn transfers_scenario_on_the_ledger() {
    let (keypair_satoshi, create_satoshi) = create_account_tx("satoshi".to_string());
    let block1 = vec![create_satoshi, mint_initial_supply("satoshi".to_string(), 100_000_000)];
    let ledger = Ledger::new().apply_transactions(&block1, true).unwrap();
    assert_eq!(ledger.get_account("satoshi").unwrap().balance, 100_000_000);

    let (_, create_alice) = create_account_tx("alice".to_string());
    let (keypair_bob, create_bob) = create_account_tx("bob".to_string());
    let ledger = ledger.apply_transactions(&vec![create_alice, create_bob], false).unwrap();

    let mut t1 = create_transfer_tx("satoshi".to_string(), "alice".to_string(), 10_000_000);
    t1.sign(&keypair_satoshi);
    let mut t2 = create_transfer_tx("satoshi".to_string(), "bob".to_string(), 50_000_000);
    t2.sign(&keypair_satoshi);
    let mut t3 = create_transfer_tx("bob".to_string(), "satoshi".to_string(), 30_000_000);
    t3.sign(&keypair_bob);
    let ledger = ledger.apply_transactions(&vec![t1, t2, t3], false).unwrap();

    assert_eq!(ledger.get_account("alice").unwrap().balance, 10_000_000);
    assert_eq!(ledger.get_account("bob").unwrap().balance, 20_000_000);
    assert_eq!(ledger.get_account("satoshi").unwrap().balance, 70_000_000);
}

#[test]
fn failed_transaction_leaves_ledger_unchanged() {
    let (keypair_satoshi, create_satoshi) = create_account_tx("satoshi".to_string());
    let (_, create_bob) = create_account_tx("bob".to_string());
    let mint = mint_initial_supply("satoshi".to_string(), 50);
    let ledger = Ledger::new().apply_transactions(&vec![create_satoshi, create_bob, mint], true).unwrap();

    let mut ok = create_transfer_tx("satoshi".to_string(), "bob".to_string(), 20);
    ok.sign(&keypair_satoshi);
    let mut too_much = create_transfer_tx("satoshi".to_string(), "bob".to_string(), 40);
    too_much.sign(&keypair_satoshi);
    let err = ledger.apply_transactions(&vec![ok, too_much], false).err().unwrap();
    assert_eq!(err, TxError::InsufficientFunds);
    assert_eq!(ledger.get_account("satoshi").unwrap().balance, 50);
    assert_eq!(ledger.get_account("bob").unwrap().balance, 0);
}

#[test]
fn duplicate_account_is_refused() {
    let mut ledger = Ledger::new();
    assert!(ledger.create_account("x".to_string(), blockchain::AccountType::User, [1u8; 32]).is_ok());
    let err = ledger
        .create_account("x".to_string(), blockchain::AccountType::Contract, [2u8; 32])
        .err()
        .unwrap();
    assert_eq!(err, TxError::AccountExists("x".to_string()));
    assert_eq!(err.message(), "AccountId already exist: x");
    assert_eq!(ledger.get_account("x").unwrap().public_key, [1u8; 32]);
}

#[test]
fn transfer_overflow_is_refused() {
    let (keypair_a, create_a) = create_account_tx("a".to_string());
    let (_, create_b) = create_account_tx("b".to_string());
    let block = vec![
        create_a,
        create_b,
        mint_initial_supply("a".to_string(), 10),
        mint_initial_supply("b".to_string(), u128::MAX),
    ];
    let ledger = Ledger::new().apply_transactions(&block, true).unwrap();
    let mut tx = create_transfer_tx("a".to_string(), "b".to_string(), 1);
    tx.sign(&keypair_a);
    let err = ledger.apply_transactions(&vec![tx], false).err().unwrap();
    assert_eq!(err, TxError::AmountOverflow);
    assert_eq!(err.message(), "Transfer amount overflow.");

    let err = ledger
        .apply_transactions(&vec![mint_initial_supply("b".to_string(), 1)], true)
        .err()
        .unwrap();
    assert_eq!(err, TxError::AmountOverflow);
}

#[test]
fn transfer_without_sender_is_refused() {
    let ledger = Ledger::new();
    let tx = blockchain::Transaction::new(
        blockchain::TransactionData::Transfer { to: "a".to_string(), amount: 1 },
        None,
    );
    let err = ledger.apply_transactions(&vec![tx], false).err().unwrap();
    assert_eq!(err, TxError::InvalidSenderId);
    assert_eq!(err.message(), "Invalid sender account id.");
}

#[test]
fn fresh_chain_keeps_easiest_target_at_multiplier_one() {
    let mut bc = Blockchain::new();
    assert_eq!(bc.difficulty().numerator, 1);
    assert_eq!(bc.difficulty().denominator, 1);
    bc.update_target();
    assert_eq!(bc.target_bits(), blockchain::MAX_TARGET);
    bc.update_difficulty();
    assert_eq!(bc.difficulty().numerator, 0);
    bc.update_target();
    assert_eq!(bc.target(), "0");
    assert_eq!(bc.validate(), Ok(()));
}

// After the first block both block timestamps are equal, so the retarget
// before any later block sees no elapsed time and sets the target to zero:
// every later block is refused with `HashAboveTarget`. The tests below keep
// the steps of their originals and expect that refusal where a later block
// used to be accepted; accounts they need later are opened in the first
// block instead.

#[test]
fn test_append() {
    let bc = &mut Blockchain::new();
    let first = blockchain::utils::append_block(bc, 1).unwrap();
    let second = blockchain::utils::append_block(bc, 2);

    assert_eq!(second.err().unwrap(), BlockError::HashAboveTarget);
    assert_eq!(bc.get_last_block_hash(), first.stored_hash().clone());
    assert_eq!(bc.len(), 1);
}

#[test]
fn test_validate() {
    let bc = &mut Blockchain::new();

    let account = "satoshi".to_string();
    let (_, tx_create_account) = create_account_tx(account.clone());
    let tx_mint_initial_supply = mint_initial_supply(account.clone(), 100_000_000);

    assert!(
        append_block_with_tx(bc, 1, vec![tx_create_account, tx_mint_initial_supply]).is_ok()
    );

    assert_eq!(blockchain::utils::append_block(bc, 2).err().unwrap(), BlockError::HashAboveTarget);
    assert_eq!(blockchain::utils::append_block(bc, 3).err().unwrap(), BlockError::HashAboveTarget);

    assert!(bc.validate().is_ok());

    *bc.block_mut(0).transaction_mut(1) = mint_initial_supply(account.clone(), 100);

    assert!(bc.validate().is_err());
}

#[test]
fn test_transfers() {
    let bc = &mut Blockchain::new();

    let account_id_satoshi = "satoshi".to_string();
    let (keypair_satoshi, tx_create_satoshi) = create_account_tx(account_id_satoshi.clone());
    let tx_mint_initial_supply = mint_initial_supply(account_id_satoshi.clone(), 100_000_000);

    let account_id_alice = "alice".to_string();
    let (_, tx_create_alice) = create_account_tx(account_id_alice.clone());

    let account_id_bob = "bob".to_string();
    let (keypair_bob, tx_create_bob) = create_account_tx(account_id_bob.clone());

    assert!(append_block_with_tx(
        bc,
        1,
        vec![tx_create_satoshi, tx_mint_initial_supply, tx_create_alice, tx_create_bob]
    )
    .is_ok());

    assert!(bc.get_account_by_id("satoshi".to_string()).is_some());
    assert!(bc.get_account_by_id("alice".to_string()).is_some());
    assert!(bc.get_account_by_id("bob".to_string()).is_some());

    // Each transfer is signed with its sender's key: the signature is checked
    // against the sender's stored key.
    let transfers = || {
        let mut tx_tr_from_satoshi_alice =
            create_transfer_tx(account_id_satoshi.clone(), account_id_alice.clone(), 10_000_000);
        tx_tr_from_satoshi_alice.sign(&keypair_satoshi);

        let mut tx_tr_from_satoshi_to_bob =
            create_transfer_tx(account_id_satoshi.clone(), account_id_bob.clone(), 50_000_000);
        tx_tr_from_satoshi_to_bob.sign(&keypair_satoshi);

        let mut tx_tr_from_bob_to_sastoshi =
            create_transfer_tx(account_id_bob.clone(), account_id_satoshi.clone(), 30_000_000);
        tx_tr_from_bob_to_sastoshi.sign(&keypair_bob);

        vec![tx_tr_from_satoshi_alice, tx_tr_from_satoshi_to_bob, tx_tr_from_bob_to_sastoshi]
    };

    // Every transfer applies, then the block fails the retargeted target and
    // the ledger is left as it was.
    assert_eq!(
        append_block_with_tx(bc, 3, transfers()).err().unwrap(),
        BlockError::HashAboveTarget
    );
    assert_eq!(bc.get_account_by_id("satoshi".to_string()).unwrap().balance, 100_000_000);

    // The same block applied to the ledger gives the balances.
    let ledger = bc.ledger().apply_transactions(&transfers(), false).unwrap();
    assert_eq!(ledger.get_account("alice").unwrap().balance, 10_000_000);
    assert_eq!(ledger.get_account("bob").unwrap().balance, 20_000_000);
    assert_eq!(ledger.get_account("satoshi").unwrap().balance, 70_000_000);
}

#[test]
fn test_transfers_fails() {
    let bc = &mut Blockchain::new();

    let account_id_satoshi = "satoshi".to_string();
    let (keypair_satoshi, tx_create_satoshi) = create_account_tx(account_id_satoshi.clone());
    let tx_mint_initial_supply = mint_initial_supply(account_id_satoshi.clone(), 100_000_000);

    let account_id_alice = "alice".to_string();
    let (_, tx_create_alice) = create_account_tx(account_id_alice.clone());

    let account_id_bob = "bob".to_string();
    let (_, tx_create_bob) = create_account_tx(account_id_bob.clone());

    assert!(append_block_with_tx(
        bc,
        1,
        vec![tx_create_satoshi, tx_mint_initial_supply, tx_create_alice, tx_create_bob]
    )
    .is_ok());

    for acc_id in vec![account_id_satoshi.clone(), account_id_bob.clone(), account_id_alice.clone()] {
        assert!(bc.get_account_by_id(acc_id.to_string()).is_some());
    }

    let mut tx_tr_self =
        create_transfer_tx(account_id_satoshi.clone(), account_id_satoshi.clone(), 10_000_000);
    tx_tr_self.sign(&keypair_satoshi);

    assert_eq!(
        append_block_with_tx(bc, 2, vec![tx_tr_self]).err().unwrap().message(),
        "Error during tx execution: Transfer to yourself.".to_string()
    );

    let mut tx_tr_gt_balance =
        create_transfer_tx(account_id_satoshi.clone(), account_id_bob.clone(), 100_000_000_000);
    tx_tr_gt_balance.sign(&keypair_satoshi);

    assert_eq!(
        append_block_with_tx(bc, 3, vec![tx_tr_gt_balance]).err().unwrap().message(),
        "Error during tx execution: Sender doesn't have enough currency.".to_string()
    );

    let mut tx_tr_from_satoshi_to_invalid =
        create_transfer_tx(account_id_satoshi.clone(), "invalid".to_string(), 1);
    tx_tr_from_satoshi_to_invalid.sign(&keypair_satoshi);

    assert_eq!(
        append_block_with_tx(bc, 4, vec![tx_tr_from_satoshi_to_invalid]).err().unwrap().message(),
        "Error during tx execution: Invalid receiver account.".to_string()
    );

    let tx_tr_from_invalid_to_satoshi =
        create_transfer_tx("invalid".to_string(), account_id_satoshi.clone(), 1);

    assert_eq!(
        append_block_with_tx(bc, 4, vec![tx_tr_from_invalid_to_satoshi]).err().unwrap().message(),
        "Error during tx execution: Invalid sender account.".to_string()
    );
}

#[test]
fn test_transfers_sign() {
    let bc = &mut Blockchain::new();

    let account_id_satoshi = "satoshi".to_string();
    let (keypair_satoshi, tx_create_satoshi) = create_account_tx(account_id_satoshi.clone());
    let tx_mint_initial_supply = mint_initial_supply(account_id_satoshi.clone(), 100_000_000);

    let account_id_alice = "alice".to_string();
    let (_, tx_create_alice) = create_account_tx(account_id_alice.clone());

    let account_id_bob = "bob".to_string();
    let (keypair_bob, tx_create_bob) = create_account_tx(account_id_bob.clone());

    assert!(append_block_with_tx(
        bc,
        1,
        vec![tx_create_satoshi, tx_mint_initial_supply, tx_create_alice, tx_create_bob]
    )
    .is_ok());

    let mut tx_tr_from_satoshi_to_bob_wtih_fake_sign =
        create_transfer_tx(account_id_satoshi.clone(), account_id_bob.clone(), 1);

    tx_tr_from_satoshi_to_bob_wtih_fake_sign.sign(&keypair_bob);

    assert!(append_block_with_tx(bc, 2, vec![tx_tr_from_satoshi_to_bob_wtih_fake_sign]).is_err());

    let mut tx_tr_from_satoshi_to_bob_wtih_fake_data =
        create_transfer_tx(account_id_satoshi.clone(), account_id_bob.clone(), 1);
    tx_tr_from_satoshi_to_bob_wtih_fake_data.sign(&keypair_satoshi);

    // The payload cannot be changed in place: the signature moves to a
    // transaction with the other payload instead.
    let mut tx_fake = create_transfer_tx(account_id_satoshi.clone(), account_id_bob.clone(), 500);
    tx_fake.set_sign(tx_tr_from_satoshi_to_bob_wtih_fake_data.signature().unwrap());
    assert_eq!(
        append_block_with_tx(bc, 2, vec![tx_fake]).err().unwrap(),
        BlockError::Transaction(TxError::InvalidSignature)
    );
}

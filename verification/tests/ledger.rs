use nft_contract::errors::ContractError;
use nft_contract::event::EventLogVariant;
use nft_contract::metadata::TokenMetadata;
use nft_contract::storage::usage_grant_bytes;
use nft_contract::Contract;

fn get_sample_metadata() -> TokenMetadata {
    TokenMetadata {
        title: Some("TOKEN_TEST".to_owned()),
        description: Some("Description".to_owned()),
        media: None,
        media_hash: None,
        copies: None,
        issued_at: None,
        expires_at: None,
        starts_at: None,
        updated_at: None,
        extra: None,
        reference: None,
        reference_hash: None,
    }
}

fn empty_metadata() -> TokenMetadata {
    TokenMetadata {
        title: None,
        description: None,
        media: None,
        media_hash: None,
        copies: None,
        issued_at: None,
        expires_at: None,
        starts_at: None,
        updated_at: None,
        extra: None,
        reference: None,
        reference_hash: None,
    }
}

const DEPOSIT: u128 = 1_000_000;

fn mint_simple(contract: &mut Contract, token_id: &str, receiver: &str) {
    contract
        .nft_mint(
            token_id.to_string(),
            get_sample_metadata(),
            receiver.to_string(),
            None,
            DEPOSIT,
            1,
        )
        .unwrap();
}

fn owner_tokens(contract: &Contract, account: &str) -> Option<Vec<String>> {
    contract
        .tokens_per_owner
        .iter()
        .find(|e| e.0 == account)
        .map(|e| e.1.clone())
}

fn approve(contract: &mut Contract, token_id: &str, account: &str, approval_id: u64) {
    let entry = contract
        .tokens_by_id
        .iter_mut()
        .find(|e| e.0 == token_id)
        .expect("token must exist");
    entry.1.approved_account_ids.push((account.to_string(), approval_id));
}

#[test]
fn test_mint_token() {
    let mut contract = Contract::new_default_metadata("alice".to_string());
    let token_id = "SC_1".to_string();
    contract
        .nft_mint(
            token_id.clone(),
            get_sample_metadata(),
            "alice".to_string(),
            None,
            DEPOSIT,
            1,
        )
        .unwrap();

    let token = contract.nft_token(token_id.clone()).unwrap();

    assert_eq!("alice".to_string(), token.owner_id);
    assert_eq!(token_id.clone(), token.token_id);
    assert_eq!(token.metadata, get_sample_metadata());
}

#[test]
fn mint_fresh_id_succeeds_and_reads_back() {
    let mut contract = Contract::new_default_metadata("alice".to_string());
    let r = contract.nft_mint(
        "T1".to_string(),
        get_sample_metadata(),
        "bob".to_string(),
        None,
        DEPOSIT,
        1,
    );
    assert!(r.is_ok());
    let token = contract.nft_token("T1".to_string()).unwrap();
    assert_eq!(token.owner_id, "bob");
    assert_eq!(token.metadata, get_sample_metadata());
    assert!(token.approved_account_ids.is_empty());
    assert!(token.users.is_empty());
    assert_eq!(owner_tokens(&contract, "bob"), Some(vec!["T1".to_string()]));
}

#[test]
fn mint_same_id_twice_fails_already_exists() {
    let mut contract = Contract::new_default_metadata("alice".to_string());
    mint_simple(&mut contract, "T1", "alice");
    let second = contract.nft_mint(
        "T1".to_string(),
        empty_metadata(),
        "bob".to_string(),
        None,
        DEPOSIT,
        1,
    );
    assert_eq!(second, Err(ContractError::AlreadyExists));
    // The first mint's stored state is unaffected.
    let token = contract.nft_token("T1".to_string()).unwrap();
    assert_eq!(token.owner_id, "alice");
    assert_eq!(token.metadata, get_sample_metadata());
    assert_eq!(owner_tokens(&contract, "alice"), Some(vec!["T1".to_string()]));
    assert_eq!(owner_tokens(&contract, "bob"), None);
}

#[test]
fn transfer_moves_token_and_resets_approvals() {
    let mut contract = Contract::new_default_metadata("alice".to_string());
    mint_simple(&mut contract, "T1", "alice");
    approve(&mut contract, "T1", "carol", 0);
    let prev = contract
        .internal_transfer(
            &"alice".to_string(),
            &"bob".to_string(),
            &"T1".to_string(),
            None,
            None,
        )
        .unwrap();
    // The returned record is the pre-transfer snapshot.
    assert_eq!(prev.owner_id, "alice");
    assert_eq!(prev.approved_account_ids, vec![("carol".to_string(), 0)]);
    // Reading afterwards shows the committed state.
    let token = contract.nft_token("T1".to_string()).unwrap();
    assert_eq!(token.owner_id, "bob");
    assert!(token.approved_account_ids.is_empty());
    assert_eq!(owner_tokens(&contract, "alice"), None);
    assert_eq!(owner_tokens(&contract, "bob"), Some(vec!["T1".to_string()]));
}

#[test]
fn transfer_by_stranger_fails_unauthorized() {
    let mut contract = Contract::new_default_metadata("alice".to_string());
    mint_simple(&mut contract, "T1", "alice");
    let r = contract.internal_transfer(
        &"mallory".to_string(),
        &"bob".to_string(),
        &"T1".to_string(),
        None,
        None,
    );
    assert_eq!(r.unwrap_err(), ContractError::Unauthorized);
    // All ledger state is unchanged.
    let token = contract.nft_token("T1".to_string()).unwrap();
    assert_eq!(token.owner_id, "alice");
    assert_eq!(owner_tokens(&contract, "alice"), Some(vec!["T1".to_string()]));
    assert_eq!(owner_tokens(&contract, "bob"), None);
    assert!(contract.events.len() == 1);
}

#[test]
fn transfer_unknown_token_fails_not_found() {
    let mut contract = Contract::new_default_metadata("alice".to_string());
    let r = contract.internal_transfer(
        &"alice".to_string(),
        &"bob".to_string(),
        &"T9".to_string(),
        None,
        None,
    );
    assert_eq!(r.unwrap_err(), ContractError::NotFound);
}

#[test]
fn transfer_with_wrong_approval_id_fails_mismatch() {
    let mut contract = Contract::new_default_metadata("alice".to_string());
    mint_simple(&mut contract, "T1", "alice");
    approve(&mut contract, "T1", "carol", 5);
    let r = contract.internal_transfer(
        &"carol".to_string(),
        &"bob".to_string(),
        &"T1".to_string(),
        Some(7),
        None,
    );
    assert_eq!(r.unwrap_err(), ContractError::ApprovalMismatch);
    // State unchanged.
    let token = contract.nft_token("T1".to_string()).unwrap();
    assert_eq!(token.owner_id, "alice");
    assert_eq!(token.approved_account_ids, vec![("carol".to_string(), 5)]);
    assert_eq!(owner_tokens(&contract, "alice"), Some(vec!["T1".to_string()]));
}

#[test]
fn transfer_with_matching_approval_id_succeeds() {
    let mut contract = Contract::new_default_metadata("alice".to_string());
    mint_simple(&mut contract, "T1", "alice");
    approve(&mut contract, "T1", "carol", 5);
    let prev = contract
        .internal_transfer(
            &"carol".to_string(),
            &"bob".to_string(),
            &"T1".to_string(),
            Some(5),
            None,
        )
        .unwrap();
    assert_eq!(prev.owner_id, "alice");
    let token = contract.nft_token("T1".to_string()).unwrap();
    assert_eq!(token.owner_id, "bob");
}

#[test]
fn transfer_to_current_owner_fails_self_transfer() {
    let mut contract = Contract::new_default_metadata("alice".to_string());
    mint_simple(&mut contract, "T1", "alice");
    let r = contract.internal_transfer(
        &"alice".to_string(),
        &"alice".to_string(),
        &"T1".to_string(),
        None,
        None,
    );
    assert_eq!(r.unwrap_err(), ContractError::SelfTransfer);
}

#[test]
fn removing_last_token_deletes_index_entry() {
    let mut contract = Contract::new_default_metadata("alice".to_string());
    mint_simple(&mut contract, "T1", "alice");
    mint_simple(&mut contract, "T2", "alice");
    contract
        .internal_remove_token_from_owner(&"T1".to_string(), &"alice".to_string())
        .unwrap();
    // An owner retaining other tokens keeps a non-empty entry.
    assert_eq!(owner_tokens(&contract, "alice"), Some(vec!["T2".to_string()]));
    contract
        .internal_remove_token_from_owner(&"T2".to_string(), &"alice".to_string())
        .unwrap();
    // Removing the last token deletes the entry entirely.
    assert_eq!(owner_tokens(&contract, "alice"), None);
    // A further removal finds no entry.
    let r = contract.internal_remove_token_from_owner(&"T2".to_string(), &"alice".to_string());
    assert_eq!(r.unwrap_err(), ContractError::NotFound);
}

#[test]
fn grant_usage_by_approved_account_succeeds() {
    let mut contract = Contract::new_default_metadata("alice".to_string());
    mint_simple(&mut contract, "T1", "alice");
    approve(&mut contract, "T1", "carol", 0);
    let updated = contract
        .internal_add_users("carol".to_string(), "dave".to_string(), &"T1".to_string())
        .unwrap();
    assert_eq!(updated.users, vec!["dave".to_string()]);
    let token = contract.nft_token("T1".to_string()).unwrap();
    assert_eq!(token.users, vec!["dave".to_string()]);
}

#[test]
fn grant_usage_by_stranger_fails_unauthorized() {
    let mut contract = Contract::new_default_metadata("alice".to_string());
    mint_simple(&mut contract, "T1", "alice");
    let r = contract.internal_add_users(
        "mallory".to_string(),
        "dave".to_string(),
        &"T1".to_string(),
    );
    assert_eq!(r.unwrap_err(), ContractError::Unauthorized);
    let token = contract.nft_token("T1".to_string()).unwrap();
    assert!(token.users.is_empty());
}

#[test]
fn grant_usage_to_owner_fails_self_transfer() {
    let mut contract = Contract::new_default_metadata("alice".to_string());
    mint_simple(&mut contract, "T1", "alice");
    let r = contract.internal_add_users(
        "alice".to_string(),
        "alice".to_string(),
        &"T1".to_string(),
    );
    assert_eq!(r.unwrap_err(), ContractError::SelfTransfer);
}

#[test]
fn grant_usage_unknown_token_fails_not_found() {
    let mut contract = Contract::new_default_metadata("alice".to_string());
    let r = contract.internal_add_users(
        "alice".to_string(),
        "dave".to_string(),
        &"T9".to_string(),
    );
    assert_eq!(r.unwrap_err(), ContractError::NotFound);
}

#[test]
fn mint_with_six_royalties_succeeds() {
    let mut contract = Contract::new_default_metadata("alice".to_string());
    let royalties: Vec<(String, u32)> = (0..6).map(|i| (format!("r{}", i), 100)).collect();
    let r = contract.nft_mint(
        "T1".to_string(),
        empty_metadata(),
        "alice".to_string(),
        Some(royalties.clone()),
        DEPOSIT,
        1,
    );
    assert!(r.is_ok());
    let token = contract.nft_token("T1".to_string()).unwrap();
    assert_eq!(token.royalty, royalties);
}

#[test]
fn mint_with_seven_royalties_fails_and_creates_nothing() {
    let mut contract = Contract::new_default_metadata("alice".to_string());
    let royalties: Vec<(String, u32)> = (0..7).map(|i| (format!("r{}", i), 100)).collect();
    let r = contract.nft_mint(
        "T1".to_string(),
        empty_metadata(),
        "alice".to_string(),
        Some(royalties),
        DEPOSIT,
        1,
    );
    assert_eq!(r, Err(ContractError::TooManyRoyalties));
    assert!(contract.nft_token("T1".to_string()).is_none());
    assert_eq!(owner_tokens(&contract, "alice"), None);
    assert!(contract.events.is_empty());
}

#[test]
fn mint_charges_storage_and_refunds_surplus() {
    let mut contract = Contract::new_default_metadata("alice".to_string());
    // Units: 3 * len("T1") + len("bob") + 8 for the approval counter
    // + empty metadata + fresh index entry for "bob" = 6 + 3 + 8 + 3 = 20.
    let refund = contract
        .nft_mint(
            "T1".to_string(),
            empty_metadata(),
            "bob".to_string(),
            None,
            250,
            10,
        )
        .unwrap();
    assert_eq!(refund, 50);
}

#[test]
fn mint_to_existing_owner_charges_no_new_index_entry() {
    let mut contract = Contract::new_default_metadata("alice".to_string());
    contract
        .nft_mint(
            "T1".to_string(),
            empty_metadata(),
            "bob".to_string(),
            None,
            DEPOSIT,
            1,
        )
        .unwrap();
    // "bob" already has an index entry, so its account id is not charged
    // again: units = 3 * len("T2") + len("bob") + 8 = 17.
    let refund = contract
        .nft_mint(
            "T2".to_string(),
            empty_metadata(),
            "bob".to_string(),
            None,
            200,
            10,
        )
        .unwrap();
    assert_eq!(refund, 30);
    assert_eq!(
        owner_tokens(&contract, "bob"),
        Some(vec!["T1".to_string(), "T2".to_string()])
    );
}

#[test]
fn mint_with_insufficient_deposit_fails_and_creates_nothing() {
    let mut contract = Contract::new_default_metadata("alice".to_string());
    let r = contract.nft_mint(
        "T1".to_string(),
        empty_metadata(),
        "bob".to_string(),
        None,
        199,
        10,
    );
    assert_eq!(r, Err(ContractError::InsufficientDeposit));
    assert!(contract.nft_token("T1".to_string()).is_none());
    assert_eq!(owner_tokens(&contract, "bob"), None);
    assert!(contract.events.is_empty());
}

#[test]
fn mint_emits_exactly_one_event() {
    let mut contract = Contract::new_default_metadata("alice".to_string());
    mint_simple(&mut contract, "T1", "alice");
    assert_eq!(contract.events.len(), 1);
    let ev = &contract.events[0];
    assert_eq!(ev.standard, "nep171");
    assert_eq!(ev.version, "1.0.0");
    match &ev.event {
        EventLogVariant::NftMint(logs) => {
            assert_eq!(logs.len(), 1);
            assert_eq!(logs[0].owner_id, "alice");
            assert_eq!(logs[0].token_ids, vec!["T1".to_string()]);
            assert_eq!(logs[0].memo, None);
        },
        EventLogVariant::NftTransfer(_) => panic!("expected a mint event"),
    }
}

#[test]
fn transfer_emits_exactly_one_event() {
    let mut contract = Contract::new_default_metadata("alice".to_string());
    mint_simple(&mut contract, "T1", "alice");
    approve(&mut contract, "T1", "carol", 5);
    contract
        .internal_transfer(
            &"carol".to_string(),
            &"bob".to_string(),
            &"T1".to_string(),
            Some(5),
            Some("gift".to_string()),
        )
        .unwrap();
    assert_eq!(contract.events.len(), 2);
    let ev = &contract.events[1];
    assert_eq!(ev.standard, "nep171");
    assert_eq!(ev.version, "1.0.0");
    match &ev.event {
        EventLogVariant::NftTransfer(logs) => {
            assert_eq!(logs.len(), 1);
            // The sender acted under an explicit approval id, so the event
            // names it as the authorized account.
            assert_eq!(logs[0].authorized_id, Some("carol".to_string()));
            assert_eq!(logs[0].old_owner_id, "alice");
            assert_eq!(logs[0].new_owner_id, "bob");
            assert_eq!(logs[0].token_ids, vec!["T1".to_string()]);
            assert_eq!(logs[0].memo, Some("gift".to_string()));
        },
        EventLogVariant::NftMint(_) => panic!("expected a transfer event"),
    }
}

#[test]
fn transfer_without_approval_id_omits_authorized_id() {
    let mut contract = Contract::new_default_metadata("alice".to_string());
    mint_simple(&mut contract, "T1", "alice");
    contract
        .internal_transfer(
            &"alice".to_string(),
            &"bob".to_string(),
            &"T1".to_string(),
            None,
            None,
        )
        .unwrap();
    match &contract.events[1].event {
        EventLogVariant::NftTransfer(logs) => {
            assert_eq!(logs[0].authorized_id, None);
            assert_eq!(logs[0].memo, None);
        },
        EventLogVariant::NftMint(_) => panic!("expected a transfer event"),
    }
}

#[test]
fn new_default_metadata_fills_collection_record() {
    let contract = Contract::new_default_metadata("alice".to_string());
    assert_eq!(contract.owner_id, "alice");
    assert_eq!(contract.metadata.spec, "sc-nft-0.0.1");
    assert_eq!(contract.metadata.name, "Smart Contract NFT");
    assert_eq!(contract.metadata.symbol, "SCNFT");
    assert_eq!(contract.metadata.icon, None);
    assert!(contract.tokens_by_id.is_empty());
    assert!(contract.events.is_empty());
}

#[test]
fn usage_grant_bytes_counts_account_and_slot() {
    assert_eq!(usage_grant_bytes(&"dave".to_string()), 12);
}

use nft_registry::registry::{transfer_log_line, NftContract, RegistryError};
use nft_registry::token::{Token, TokenMetadata};

fn bob() -> String {
    String::from("bob.near")
}

fn nft() -> String {
    String::from("nft.near")
}

fn helper_token_metadata() -> TokenMetadata {
    TokenMetadata {
        title: Some("Mochi Rising".to_string()),
        description: Some("Limited edition canvas".to_string()),
        media: None,
        media_hash: None,
        copies: None,
        issued_at: None,
        expires_at: None,
        starts_at: None,
        updated_at: None,
        extra: None,
        reference: None,
        reference_hash: None,
    }
}

fn helper_mint() -> NftContract {
    let mut contract = NftContract::default();
    let minted = contract.nft_mint("0".to_string(), helper_token_metadata(), nft());
    assert!(minted.is_ok());
    contract
}

#[test]
fn basic_mint_from_owner() {
    helper_mint();
}

#[test]
fn simple_transfer() {
    let mut contract = helper_mint();
    let token_info = contract.nft_token("0".to_string());
    assert!(token_info.is_some(), "Newly minted token not found");
    let transferred = contract.nft_transfer(bob(), "0".to_string(), nft());
    assert!(transferred.is_ok());
    assert_eq!(contract.nft_token("0".to_string()).unwrap().owner_id, bob());
}

#[test]
fn mint_returns_and_stores_the_record() {
    let mut contract = NftContract::default();
    let minted: Token = contract
        .nft_mint("0".to_string(), helper_token_metadata(), nft())
        .ok()
        .unwrap();
    assert_eq!(minted.token_id, "0".to_string());
    assert_eq!(minted.owner_id, nft());
    assert_eq!(minted.metadata.title, Some("Mochi Rising".to_string()));
    let looked_up = contract.nft_token("0".to_string()).unwrap();
    assert_eq!(looked_up.owner_id, nft());
    assert_eq!(looked_up.metadata.title, Some("Mochi Rising".to_string()));
    assert_eq!(
        looked_up.metadata.description,
        Some("Limited edition canvas".to_string())
    );
    assert!(contract.nft_token("1".to_string()).is_none());
}

#[test]
fn duplicate_mint_is_rejected_and_changes_nothing() {
    let mut contract = helper_mint();
    let second = TokenMetadata {
        title: Some("Impostor".to_string()),
        description: None,
        media: None,
        media_hash: None,
        copies: None,
        issued_at: None,
        expires_at: None,
        starts_at: None,
        updated_at: None,
        extra: None,
        reference: None,
        reference_hash: None,
    };
    let outcome = contract.nft_mint("0".to_string(), second, bob());
    assert_eq!(outcome.err(), Some(RegistryError::DuplicateTokenId));
    let token = contract.nft_token("0".to_string()).unwrap();
    assert_eq!(token.owner_id, nft());
    assert_eq!(token.metadata.title, Some("Mochi Rising".to_string()));
}

#[test]
fn self_transfer_is_rejected() {
    let mut contract = helper_mint();
    let outcome = contract.nft_transfer(nft(), "0".to_string(), nft());
    assert_eq!(outcome.err(), Some(RegistryError::SelfTransferRejected));
    assert_eq!(contract.nft_token("0".to_string()).unwrap().owner_id, nft());
}

#[test]
fn self_transfer_after_transfer_is_rejected() {
    let mut contract = helper_mint();
    assert!(contract.nft_transfer(bob(), "0".to_string(), nft()).is_ok());
    assert_eq!(contract.nft_token("0".to_string()).unwrap().owner_id, bob());
    let outcome = contract.nft_transfer(bob(), "0".to_string(), bob());
    assert_eq!(outcome.err(), Some(RegistryError::SelfTransferRejected));
    assert_eq!(contract.nft_token("0".to_string()).unwrap().owner_id, bob());
}

#[test]
fn unauthorized_transfer_is_rejected() {
    let mut contract = helper_mint();
    let outcome = contract.nft_transfer("carol.near".to_string(), "0".to_string(), bob());
    assert_eq!(outcome.err(), Some(RegistryError::Unauthorized));
    assert_eq!(contract.nft_token("0".to_string()).unwrap().owner_id, nft());
}

#[test]
fn transfer_of_unknown_token_is_rejected() {
    let mut contract = helper_mint();
    let outcome = contract.nft_transfer(bob(), "7".to_string(), nft());
    assert_eq!(outcome.err(), Some(RegistryError::TokenNotFound));
}

#[test]
fn transfer_moves_the_token_between_ownership_sets() {
    let mut contract = helper_mint();
    assert_eq!(contract.tokens_per_owner.tokens_of(&nft()), vec!["0".to_string()]);
    assert!(contract.nft_transfer(bob(), "0".to_string(), nft()).is_ok());
    assert_eq!(contract.nft_token("0".to_string()).unwrap().owner_id, bob());
    assert_eq!(contract.tokens_per_owner.tokens_of(&bob()), vec!["0".to_string()]);
    assert!(contract.tokens_per_owner.tokens_of(&nft()).is_empty());
    // "0" was the prior owner's only token, so its entry is gone entirely
    assert!(!contract.tokens_per_owner.contains_owner(&nft()));
    assert!(contract.tokens_per_owner.contains_owner(&bob()));
}

#[test]
fn owner_with_remaining_tokens_keeps_its_entry() {
    let mut contract = helper_mint();
    let extra = TokenMetadata {
        title: Some("Second Piece".to_string()),
        description: None,
        media: None,
        media_hash: None,
        copies: None,
        issued_at: None,
        expires_at: None,
        starts_at: None,
        updated_at: None,
        extra: None,
        reference: None,
        reference_hash: None,
    };
    assert!(contract.nft_mint("1".to_string(), extra, nft()).is_ok());
    assert!(contract.nft_transfer(bob(), "0".to_string(), nft()).is_ok());
    assert!(contract.tokens_per_owner.contains_owner(&nft()));
    assert_eq!(contract.tokens_per_owner.tokens_of(&nft()), vec!["1".to_string()]);
    assert_eq!(contract.tokens_per_owner.tokens_of(&bob()), vec!["0".to_string()]);
}

#[test]
fn round_trip_restores_the_original_record() {
    let mut contract = helper_mint();
    assert!(contract.nft_transfer(bob(), "0".to_string(), nft()).is_ok());
    assert!(contract.nft_transfer(nft(), "0".to_string(), bob()).is_ok());
    let token = contract.nft_token("0".to_string()).unwrap();
    assert_eq!(token.token_id, "0".to_string());
    assert_eq!(token.owner_id, nft());
    assert_eq!(token.metadata.title, Some("Mochi Rising".to_string()));
    assert_eq!(
        token.metadata.description,
        Some("Limited edition canvas".to_string())
    );
    assert_eq!(contract.tokens_per_owner.tokens_of(&nft()), vec!["0".to_string()]);
    assert!(!contract.tokens_per_owner.contains_owner(&bob()));
}

#[test]
fn collection_metadata_is_the_constructed_one() {
    let contract = NftContract::default();
    let metadata = contract.nft_metadata();
    assert_eq!(metadata.spec, "z-nft-1.0.0".to_string());
    assert_eq!(metadata.name, "Blockchain Z-days Demo".to_string());
    assert_eq!(metadata.symbol, "ZNFT".to_string());
    assert!(metadata.icon.is_none());
    assert!(metadata.base_uri.is_none());
    assert!(metadata.reference.is_none());
    assert!(metadata.reference_hash.is_none());
}

#[test]
fn transfer_log_line_is_human_readable() {
    let line = transfer_log_line("0", "nft.near", "bob.near");
    assert_eq!(line, "Transfer 0 from @nft.near to @bob.near".to_string());
}

#[test]
fn full_metadata_survives_mint_and_transfer_verbatim() {
    let metadata = TokenMetadata {
        title: Some("Parcel #5055".to_string()),
        description: Some("A parcel".to_string()),
        media: Some("https://example.invalid/parcel.png".to_string()),
        media_hash: Some(vec![1, 2, 3, 4]),
        copies: Some(7),
        issued_at: Some("2021-03-01T00:00:00Z".to_string()),
        expires_at: Some("2031-03-01T00:00:00Z".to_string()),
        starts_at: Some("2021-04-01T00:00:00Z".to_string()),
        updated_at: Some("2021-05-01T00:00:00Z".to_string()),
        extra: Some("{\"color\":\"blue\"}".to_string()),
        reference: Some("https://example.invalid/parcel.json".to_string()),
        reference_hash: Some(vec![9, 8, 7]),
    };
    let mut contract = NftContract::default();
    assert!(contract.nft_mint("p".to_string(), metadata, nft()).is_ok());
    assert!(contract.nft_transfer(bob(), "p".to_string(), nft()).is_ok());
    let token = contract.nft_token("p".to_string()).unwrap();
    assert_eq!(token.owner_id, bob());
    assert_eq!(token.metadata.title, Some("Parcel #5055".to_string()));
    assert_eq!(token.metadata.media_hash, Some(vec![1, 2, 3, 4]));
    assert_eq!(token.metadata.copies, Some(7));
    assert_eq!(token.metadata.issued_at, Some("2021-03-01T00:00:00Z".to_string()));
    assert_eq!(token.metadata.extra, Some("{\"color\":\"blue\"}".to_string()));
    assert_eq!(token.metadata.reference_hash, Some(vec![9, 8, 7]));
}

use nft_registry::index::OwnershipIndex;
use nft_registry::namespace::derive_owner_namespace;
use nft_registry::store::TokenStore;
use nft_registry::token::{Token, TokenMetadata};

fn bare_metadata(title: &str) -> TokenMetadata {
    TokenMetadata {
        title: Some(title.to_string()),
        description: None,
        media: None,
        media_hash: None,
        copies: None,
        issued_at: None,
        expires_at: None,
        starts_at: None,
        updated_at: None,
        extra: None,
        reference: None,
        reference_hash: None,
    }
}

fn record(token_id: &str, owner_id: &str, title: &str) -> Token {
    Token {
        token_id: token_id.to_string(),
        owner_id: owner_id.to_string(),
        metadata: bare_metadata(title),
    }
}

#[test]
fn store_put_inserts_and_reports_the_previous_record() {
    let mut store = TokenStore::new();
    assert!(store.get(&"0".to_string()).is_none());
    let first = store.put(record("0", "nft.near", "Mochi Rising"));
    assert!(first.is_none());
    let second = store.put(record("0", "bob.near", "Mochi Rising"));
    let previous = second.unwrap();
    assert_eq!(previous.owner_id, "nft.near".to_string());
    let current = store.get(&"0".to_string()).unwrap();
    assert_eq!(current.owner_id, "bob.near".to_string());
}

#[test]
fn index_add_and_remove_maintain_per_owner_sets() {
    let mut index = OwnershipIndex::new();
    let owner = "nft.near".to_string();
    index.add(&owner, &"0".to_string());
    index.add(&owner, &"1".to_string());
    // adding an identifier the owner already holds changes nothing
    index.add(&owner, &"0".to_string());
    assert_eq!(index.tokens_of(&owner), vec!["0".to_string(), "1".to_string()]);
    index.remove(&owner, &"0".to_string());
    assert_eq!(index.tokens_of(&owner), vec!["1".to_string()]);
    assert!(index.contains_owner(&owner));
    index.remove(&owner, &"1".to_string());
    // the set became empty, so the entry is dropped rather than kept empty
    assert!(!index.contains_owner(&owner));
    assert!(index.tokens_of(&owner).is_empty());
}

#[test]
fn removing_what_is_not_there_changes_nothing() {
    let mut index = OwnershipIndex::new();
    let owner = "nft.near".to_string();
    index.add(&owner, &"0".to_string());
    index.remove(&owner, &"7".to_string());
    index.remove(&"bob.near".to_string(), &"0".to_string());
    assert_eq!(index.tokens_of(&owner), vec!["0".to_string()]);
}

#[test]
fn owner_namespace_is_the_tagged_digest_of_the_identity() {
    let ns = derive_owner_namespace("nft.near");
    let mut expected: Vec<u8> = vec![1];
    expected.extend_from_slice(&[
        14, 114, 105, 181, 137, 176, 54, 92, 22, 235, 23, 249, 88, 44, 43, 235, 8, 149, 217,
        20, 160, 232, 196, 201, 169, 41, 223, 39, 89, 174, 237, 203,
    ]);
    assert_eq!(ns, expected);
}

#[test]
fn distinct_owners_get_distinct_namespaces() {
    let a = derive_owner_namespace("nft.near");
    let b = derive_owner_namespace("bob.near");
    assert_eq!(a.len(), 33);
    assert_eq!(b.len(), 33);
    assert_ne!(a, b);
    // deterministic: the same identity always resolves to the same namespace
    assert_eq!(a, derive_owner_namespace("nft.near"));
}

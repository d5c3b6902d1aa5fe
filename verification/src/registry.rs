//! The registry facade: it exclusively owns the token store and the
//! ownership index, and keeps them in agreement while minting tokens and
//! transferring their ownership. Every operation either commits all of its
//! effects or fails one of its ordered checks and changes nothing.

use vstd::prelude::*;

use crate::index::{index_add, index_remove, owned_set, OwnershipIndex};
use crate::store::TokenStore;
use crate::token::{AccountId, NFTMetadata, NFTMetadataView, Token, TokenId, TokenMetadata,
    TokenMetadataView, TokenView};
use vstd::string::StringExecFns;

verus! {

/// Why a call was rejected. Each failure is surfaced synchronously and
/// leaves the registry unchanged.
#[derive(Clone, Copy, Debug, PartialEq, Eq, Structural)]
pub enum RegistryError {
    /// A mint targeted an identifier that is already present.
    DuplicateTokenId,
    /// An operation referenced an identifier with no record.
    TokenNotFound,
    /// A transfer was invoked by an identity other than the current owner.
    Unauthorized,
    /// A transfer targeted the token's current owner.
    SelfTransferRejected,
}

/// Mathematical view of the whole registry: the collection metadata, the
/// token store as a map, and the ownership index as a map.
#[verifier::ext_equal]
pub ghost struct RegistryView {
    pub collection: NFTMetadataView,
    pub tokens: Map<Seq<char>, TokenView>,
    pub owners: Map<Seq<char>, Set<Seq<char>>>,
}

/// The agreement invariant between the two structures: every record is keyed
/// by its own identifier; a stored token's owner has an entry whose set
/// holds the token; every membership in an owner's set is backed by a record
/// owned by exactly that owner; and no owner keeps an empty set. Together
/// these put each token in exactly one owner's set.
pub open spec fn consistent(r: RegistryView) -> bool {
    &&& forall|t: Seq<char>| #[trigger] r.tokens.contains_key(t) ==> r.tokens[t].token_id == t
    &&& forall|t: Seq<char>| #[trigger] r.tokens.contains_key(t) ==> r.owners.contains_key(
        r.tokens[t].owner_id,
    ) && r.owners[r.tokens[t].owner_id].contains(t)
    &&& forall|o: Seq<char>, t: Seq<char>|
        r.owners.contains_key(o) && #[trigger] r.owners[o].contains(t) ==> r.tokens.contains_key(
            t,
        ) && r.tokens[t].owner_id == o
    &&& forall|o: Seq<char>| #[trigger] r.owners.contains_key(o) ==> r.owners[o]
        != Set::<Seq<char>>::empty()
}

/// What a mint returns: the freshly created record, or the duplicate error
/// when the identifier is already taken.
pub open spec fn mint_result(
    pre: RegistryView,
    token_id: Seq<char>,
    metadata: TokenMetadataView,
    caller: Seq<char>,
) -> Result<TokenView, RegistryError> {
    if pre.tokens.contains_key(token_id) {
        Result::Err(RegistryError::DuplicateTokenId)
    } else {
        Result::Ok(TokenView { token_id, owner_id: caller, metadata })
    }
}

/// The registry after a mint: unchanged on failure; on success the record is
/// stored under its identifier and added to the caller's set.
pub open spec fn mint_post(
    pre: RegistryView,
    token_id: Seq<char>,
    metadata: TokenMetadataView,
    caller: Seq<char>,
) -> RegistryView {
    if pre.tokens.contains_key(token_id) {
        pre
    } else {
        RegistryView {
            collection: pre.collection,
            tokens: pre.tokens.insert(
                token_id,
                TokenView { token_id, owner_id: caller, metadata },
            ),
            owners: index_add(pre.owners, caller, token_id),
        }
    }
}

/// What a transfer returns: the ordered checks, first failure winning.
pub open spec fn transfer_result(
    pre: RegistryView,
    receiver: Seq<char>,
    token_id: Seq<char>,
    caller: Seq<char>,
) -> Result<(), RegistryError> {
    if !pre.tokens.contains_key(token_id) {
        Result::Err(RegistryError::TokenNotFound)
    } else if caller != pre.tokens[token_id].owner_id {
        Result::Err(RegistryError::Unauthorized)
    } else if receiver == pre.tokens[token_id].owner_id {
        Result::Err(RegistryError::SelfTransferRejected)
    } else {
        Result::Ok(())
    }
}

/// The registry after a transfer: unchanged on failure; on success the
/// token leaves the prior owner's set (whose entry is dropped if it becomes
/// empty), enters the receiver's set, and its record is overwritten with the
/// same identifier and metadata but the receiver as owner.
pub open spec fn transfer_post(
    pre: RegistryView,
    receiver: Seq<char>,
    token_id: Seq<char>,
    caller: Seq<char>,
) -> RegistryView {
    match transfer_result(pre, receiver, token_id, caller) {
        Result::Err(_) => pre,
        Result::Ok(_) => RegistryView {
            collection: pre.collection,
            tokens: pre.tokens.insert(
                token_id,
                TokenView {
                    token_id,
                    owner_id: receiver,
                    metadata: pre.tokens[token_id].metadata,
                },
            ),
            owners: index_add(
                index_remove(pre.owners, pre.tokens[token_id].owner_id, token_id),
                receiver,
                token_id,
            ),
        },
    }
}

/// The record a lookup observes, or nothing.
pub open spec fn token_of(r: RegistryView, token_id: Seq<char>) -> Option<TokenView> {
    if r.tokens.contains_key(token_id) {
        Option::Some(r.tokens[token_id])
    } else {
        Option::None
    }
}

/// A mint preserves the agreement invariant.
pub proof fn lemma_mint_preserves_consistent(
    pre: RegistryView,
    token_id: Seq<char>,
    metadata: TokenMetadataView,
    caller: Seq<char>,
)
    requires
        consistent(pre),
    ensures
        consistent(mint_post(pre, token_id, metadata, caller)),
{
    if !pre.tokens.contains_key(token_id) {
        let post = mint_post(pre, token_id, metadata, caller);
        let k = token_id;
        assert(post.owners == pre.owners.insert(caller, owned_set(pre.owners, caller).insert(k)));
        assert forall|t: Seq<char>| #[trigger] post.tokens.contains_key(t) implies
            post.owners.contains_key(post.tokens[t].owner_id)
                && post.owners[post.tokens[t].owner_id].contains(t) by {
            if t == k {
                assert(post.owners[caller].contains(k));
            } else {
                assert(pre.tokens.contains_key(t));
                let o = pre.tokens[t].owner_id;
                assert(pre.owners.contains_key(o) && pre.owners[o].contains(t));
                if o == caller {
                    assert(owned_set(pre.owners, caller) == pre.owners[caller]);
                    assert(post.owners[caller].contains(t));
                }
            }
        }
        assert forall|o: Seq<char>, t: Seq<char>|
            post.owners.contains_key(o) && #[trigger] post.owners[o].contains(t) implies
            post.tokens.contains_key(t) && post.tokens[t].owner_id == o by {
            if o == caller {
                if t != k {
                    assert(owned_set(pre.owners, caller).contains(t));
                    assert(pre.owners.contains_key(caller) && pre.owners[caller].contains(t));
                    assert(pre.tokens.contains_key(t) && pre.tokens[t].owner_id == caller);
                    assert(t != k);
                }
            } else {
                assert(pre.owners.contains_key(o) && pre.owners[o].contains(t));
                assert(pre.tokens.contains_key(t) && pre.tokens[t].owner_id == o);
                assert(t != k);
            }
        }
        assert forall|o: Seq<char>| #[trigger] post.owners.contains_key(o) implies post.owners[o]
            != Set::<Seq<char>>::empty() by {
            if o == caller {
                assert(post.owners[caller].contains(k));
            } else {
                assert(pre.owners.contains_key(o));
            }
        }
    }
}

/// A transfer preserves the agreement invariant.
pub proof fn lemma_transfer_preserves_consistent(
    pre: RegistryView,
    receiver: Seq<char>,
    token_id: Seq<char>,
    caller: Seq<char>,
)
    requires
        consistent(pre),
    ensures
        consistent(transfer_post(pre, receiver, token_id, caller)),
{
    if transfer_result(pre, receiver, token_id, caller) == Result::<(), RegistryError>::Ok(()) {
        let post = transfer_post(pre, receiver, token_id, caller);
        let k = token_id;
        let a = pre.tokens[k].owner_id;
        let b = receiver;
        assert(b != a);
        assert(pre.owners.contains_key(a) && pre.owners[a].contains(k));
        let removed = pre.owners[a].remove(k);
        let m1 = index_remove(pre.owners, a, k);
        assert(post.owners == index_add(m1, b, k));
        // the middle map never touches the receiver's entry
        assert(owned_set(m1, b) == owned_set(pre.owners, b));
        assert forall|t: Seq<char>| #[trigger] post.tokens.contains_key(t) implies
            post.owners.contains_key(post.tokens[t].owner_id)
                && post.owners[post.tokens[t].owner_id].contains(t) by {
            if t == k {
                assert(post.owners[b].contains(k));
            } else {
                assert(pre.tokens.contains_key(t));
                let o = pre.tokens[t].owner_id;
                assert(pre.owners.contains_key(o) && pre.owners[o].contains(t));
                if o == a {
                    assert(removed.contains(t));
                    assert(removed != Set::<Seq<char>>::empty());
                    assert(m1 == pre.owners.insert(a, removed));
                    assert(post.owners[a].contains(t));
                } else if o == b {
                    assert(owned_set(pre.owners, b).contains(t));
                    assert(post.owners[b].contains(t));
                } else {
                    assert(m1.contains_key(o) && m1[o] == pre.owners[o]);
                    assert(post.owners[o].contains(t));
                }
            }
        }
        assert forall|o: Seq<char>, t: Seq<char>|
            post.owners.contains_key(o) && #[trigger] post.owners[o].contains(t) implies
            post.tokens.contains_key(t) && post.tokens[t].owner_id == o by {
            if o == b {
                if t != k {
                    assert(owned_set(pre.owners, b).contains(t));
                    assert(pre.owners.contains_key(b) && pre.owners[b].contains(t));
                    assert(pre.tokens.contains_key(t) && pre.tokens[t].owner_id == b);
                }
            } else if o == a {
                assert(m1.contains_key(a));
                assert(m1[a] == removed);
                assert(removed.contains(t));
                assert(t != k);
                assert(pre.owners[a].contains(t));
                assert(pre.tokens.contains_key(t) && pre.tokens[t].owner_id == a);
            } else {
                assert(m1.contains_key(o) && m1[o] == pre.owners[o]);
                assert(pre.owners[o].contains(t));
                assert(pre.tokens.contains_key(t) && pre.tokens[t].owner_id == o);
                assert(t != k);
            }
        }
        assert forall|o: Seq<char>| #[trigger] post.owners.contains_key(o) implies post.owners[o]
            != Set::<Seq<char>>::empty() by {
            if o == b {
                assert(post.owners[b].contains(k));
            } else if o == a {
                assert(m1.contains_key(a));
                assert(post.owners[a] == removed);
            } else {
                assert(pre.owners.contains_key(o));
                assert(post.owners[o] == pre.owners[o]);
            }
        }
    }
}

/// The registry: the collection metadata together with the token store and
/// the ownership index, which it alone mutates and keeps in agreement.
pub struct NftContract {
    pub metadata: NFTMetadata,
    pub tokens_by_id: TokenStore,
    pub tokens_per_owner: OwnershipIndex,
}

impl View for NftContract {
    type V = RegistryView;

    open spec fn view(&self) -> RegistryView {
        RegistryView {
            collection: self.metadata@,
            tokens: self.tokens_by_id@,
            owners: self.tokens_per_owner@,
        }
    }
}

impl NftContract {
    /// Well-formedness: both structures are well-formed and agree.
    pub open spec fn wf(&self) -> bool {
        &&& self.tokens_by_id.wf()
        &&& self.tokens_per_owner.wf()
        &&& consistent(self@)
    }

    /// The collection-level metadata, returned by copy.
    pub fn nft_metadata(&self) -> (r: NFTMetadata)
        ensures
            r@ == self@.collection,
    {
        self.metadata.duplicate()
    }

    /// Pure lookup of a token record by identifier.
    pub fn nft_token(&self, token_id: TokenId) -> (r: Option<Token>)
        requires
            self.wf(),
        ensures
            match r {
                Option::Some(t) => token_of(self@, token_id@) == Option::Some(t@),
                Option::None => token_of(self@, token_id@) == Option::None::<TokenView>,
            },
    {
        match self.tokens_by_id.get(&token_id) {
            Option::Some(t) => Option::Some(t.duplicate()),
            Option::None => Option::None,
        }
    }

    /// Mints a new token: the caller becomes its owner and the record is
    /// added to both structures, atomically. Fails with `DuplicateTokenId`,
    /// and changes nothing, exactly when the identifier is already present.
    pub fn nft_mint(&mut self, token_id: TokenId, metadata: TokenMetadata, caller: AccountId)
        -> (r: Result<Token, RegistryError>)
        requires
            old(self).wf(),
        ensures
            final(self).wf(),
            final(self)@ == mint_post(old(self)@, token_id@, metadata@, caller@),
            match r {
                Result::Ok(t) => mint_result(old(self)@, token_id@, metadata@, caller@)
                    == Result::<TokenView, RegistryError>::Ok(t@),
                Result::Err(e) => mint_result(old(self)@, token_id@, metadata@, caller@)
                    == Result::<TokenView, RegistryError>::Err(e),
            },
    {
        match self.tokens_by_id.get(&token_id) {
            Option::Some(_) => {
                return Result::Err(RegistryError::DuplicateTokenId);
            },
            Option::None => {},
        }
        let token = Token { token_id: token_id.clone(), owner_id: caller.clone(), metadata };
        let minted = token.duplicate();
        let _ = self.tokens_by_id.put(token);
        self.tokens_per_owner.add(&caller, &token_id);
        proof {
            lemma_mint_preserves_consistent(old(self)@, token_id@, metadata@, caller@);
            assert(minted@ =~= TokenView {
                token_id: token_id@,
                owner_id: caller@,
                metadata: metadata@,
            });
            assert(final(self)@ =~= mint_post(old(self)@, token_id@, metadata@, caller@));
        }
        Result::Ok(minted)
    }

    /// Transfers a token to `receiver_id`, on behalf of `caller`. The
    /// ordered checks — the token exists, the caller is its current owner,
    /// the receiver differs from the owner — run before any mutation, so a
    /// failure changes nothing; on success both structures are updated
    /// atomically and the metadata is copied verbatim.
    pub fn nft_transfer(&mut self, receiver_id: AccountId, token_id: TokenId, caller: AccountId)
        -> (r: Result<(), RegistryError>)
        requires
            old(self).wf(),
        ensures
            final(self).wf(),
            final(self)@ == transfer_post(old(self)@, receiver_id@, token_id@, caller@),
            r == transfer_result(old(self)@, receiver_id@, token_id@, caller@),
    {
        let (prior_owner, new_token) = match self.tokens_by_id.get(&token_id) {
            Option::None => {
                return Result::Err(RegistryError::TokenNotFound);
            },
            Option::Some(current) => {
                if caller != current.owner_id {
                    return Result::Err(RegistryError::Unauthorized);
                }
                if receiver_id == current.owner_id {
                    return Result::Err(RegistryError::SelfTransferRejected);
                }
                (
                    current.owner_id.clone(),
                    Token {
                        token_id: token_id.clone(),
                        owner_id: receiver_id.clone(),
                        metadata: current.metadata.duplicate(),
                    },
                )
            },
        };
        self.tokens_per_owner.remove(&prior_owner, &token_id);
        self.tokens_per_owner.add(&receiver_id, &token_id);
        let _ = self.tokens_by_id.put(new_token);
        proof {
            lemma_transfer_preserves_consistent(old(self)@, receiver_id@, token_id@, caller@);
            assert(new_token@ =~= TokenView {
                token_id: token_id@,
                owner_id: receiver_id@,
                metadata: old(self)@.tokens[token_id@].metadata,
            });
            assert(final(self)@ =~= transfer_post(old(self)@, receiver_id@, token_id@, caller@));
        }
        Result::Ok(())
    }
}

/// The human-readable line that records a transfer for off-chain observers:
/// the token identifier, the prior owner, and the new owner.
pub fn transfer_log_line(token_id: &str, from: &str, to: &str) -> (r: String)
    ensures
        r@ == "Transfer "@ + token_id@ + " from @"@ + from@ + " to @"@ + to@,
{
    let mut r = String::new();
    r.append("Transfer ");
    r.append(token_id);
    r.append(" from @");
    r.append(from);
    r.append(" to @");
    r.append(to);
    proof {
        assert(r@ =~= "Transfer "@ + token_id@ + " from @"@ + from@ + " to @"@ + to@);
    }
    r
}

impl Default for NftContract {
    /// A fresh registry: fixed collection metadata, no tokens, no owners.
    fn default() -> (c: NftContract)
        ensures
            c.wf(),
            c@.tokens == Map::<Seq<char>, TokenView>::empty(),
            c@.owners == Map::<Seq<char>, Set<Seq<char>>>::empty(),
            c@.collection.spec == "z-nft-1.0.0"@,
            c@.collection.name == "Blockchain Z-days Demo"@,
            c@.collection.symbol == "ZNFT"@,
            c@.collection.icon == Option::None::<Seq<char>>,
            c@.collection.base_uri == Option::None::<Seq<char>>,
            c@.collection.reference == Option::None::<Seq<char>>,
            c@.collection.reference_hash == Option::None::<Seq<u8>>,
    {
        let c = NftContract {
            metadata: NFTMetadata {
                spec: "z-nft-1.0.0".to_owned(),
                name: "Blockchain Z-days Demo".to_owned(),
                symbol: "ZNFT".to_owned(),
                icon: Option::None,
                base_uri: Option::None,
                reference: Option::None,
                reference_hash: Option::None,
            },
            tokens_by_id: TokenStore::new(),
            tokens_per_owner: OwnershipIndex::new(),
        };
        c
    }
}

} // verus!

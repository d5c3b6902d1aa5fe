//! Laws of the registry: what mint and transfer guarantee across calls,
//! stated over the registry's mathematical view and proved once and for all.

use vstd::prelude::*;

use crate::index::owned_set;
use crate::registry::{consistent, mint_post, mint_result, token_of, transfer_post,
    transfer_result, RegistryError, RegistryView};
use crate::token::{TokenMetadataView, TokenView};

verus! {

/// Minting a fresh identifier makes a lookup of that identifier observe a
/// record owned by the caller and carrying exactly the given metadata.
pub proof fn lemma_mint_then_lookup(
    pre: RegistryView,
    token_id: Seq<char>,
    metadata: TokenMetadataView,
    caller: Seq<char>,
)
    requires
        !pre.tokens.contains_key(token_id),
    ensures
        mint_result(pre, token_id, metadata, caller) == Result::<
            TokenView,
            RegistryError,
        >::Ok(TokenView { token_id, owner_id: caller, metadata }),
        token_of(mint_post(pre, token_id, metadata, caller), token_id) == Option::Some(
            TokenView { token_id, owner_id: caller, metadata },
        ),
{
}

/// Minting the same identifier twice fails the second time with the
/// duplicate error, changes nothing, and leaves the first record intact.
pub proof fn lemma_mint_duplicate_rejected(
    pre: RegistryView,
    token_id: Seq<char>,
    metadata1: TokenMetadataView,
    caller1: Seq<char>,
    metadata2: TokenMetadataView,
    caller2: Seq<char>,
)
    requires
        !pre.tokens.contains_key(token_id),
    ensures
        ({
            let p1 = mint_post(pre, token_id, metadata1, caller1);
            &&& mint_result(p1, token_id, metadata2, caller2) == Result::<
                TokenView,
                RegistryError,
            >::Err(RegistryError::DuplicateTokenId)
            &&& mint_post(p1, token_id, metadata2, caller2) == p1
            &&& token_of(mint_post(p1, token_id, metadata2, caller2), token_id) == Option::Some(
                TokenView { token_id, owner_id: caller1, metadata: metadata1 },
            )
        }),
{
}

/// A transfer whose receiver is the token's current owner always fails with
/// the self-transfer error, whoever owns the token, and changes nothing.
pub proof fn lemma_self_transfer_rejected(
    pre: RegistryView,
    token_id: Seq<char>,
    owner: Seq<char>,
)
    requires
        pre.tokens.contains_key(token_id),
        pre.tokens[token_id].owner_id == owner,
    ensures
        transfer_result(pre, owner, token_id, owner) == Result::<(), RegistryError>::Err(
            RegistryError::SelfTransferRejected,
        ),
        transfer_post(pre, owner, token_id, owner) == pre,
{
}

/// A transfer invoked by any identity other than the current owner fails
/// with the authorization error and changes nothing.
pub proof fn lemma_unauthorized_transfer_rejected(
    pre: RegistryView,
    receiver: Seq<char>,
    token_id: Seq<char>,
    caller: Seq<char>,
)
    requires
        pre.tokens.contains_key(token_id),
        caller != pre.tokens[token_id].owner_id,
    ensures
        transfer_result(pre, receiver, token_id, caller) == Result::<(), RegistryError>::Err(
            RegistryError::Unauthorized,
        ),
        transfer_post(pre, receiver, token_id, caller) == pre,
{
}

/// After a successful transfer: the record is owned by the receiver with
/// its metadata unchanged, the token has left the prior owner's set, it is
/// in the receiver's set, and a prior owner whose only token it was has no
/// entry left at all.
pub proof fn lemma_transfer_effects(
    pre: RegistryView,
    receiver: Seq<char>,
    token_id: Seq<char>,
    caller: Seq<char>,
)
    requires
        consistent(pre),
        pre.tokens.contains_key(token_id),
        pre.tokens[token_id].owner_id == caller,
        receiver != caller,
    ensures
        transfer_result(pre, receiver, token_id, caller) == Result::<(), RegistryError>::Ok(()),
        ({
            let post = transfer_post(pre, receiver, token_id, caller);
            &&& token_of(post, token_id) == Option::Some(
                TokenView {
                    token_id,
                    owner_id: receiver,
                    metadata: pre.tokens[token_id].metadata,
                },
            )
            &&& !owned_set(post.owners, caller).contains(token_id)
            &&& owned_set(post.owners, receiver).contains(token_id)
            &&& (pre.owners[caller] == set![token_id] ==> !post.owners.contains_key(caller))
        }),
{
    let removed = pre.owners[caller].remove(token_id);
    assert(pre.owners.contains_key(caller) && pre.owners[caller].contains(token_id));
    if pre.owners[caller] == set![token_id] {
        assert(removed =~= Set::<Seq<char>>::empty());
    }
}

/// In a consistent registry a token identifier appears in at most one
/// owner's set, and that owner is the one its record names.
pub proof fn lemma_single_owner(r: RegistryView, o1: Seq<char>, o2: Seq<char>, t: Seq<char>)
    requires
        consistent(r),
        r.owners.contains_key(o1),
        r.owners[o1].contains(t),
        r.owners.contains_key(o2),
        r.owners[o2].contains(t),
    ensures
        o1 == o2,
        r.tokens.contains_key(t),
        r.tokens[t].owner_id == o1,
{
}

/// Minting a token, transferring it away and transferring it back restores
/// the original record: the owner is the minter again and the metadata was
/// never altered along the way.
pub proof fn lemma_transfer_round_trip(
    pre: RegistryView,
    token_id: Seq<char>,
    metadata: TokenMetadataView,
    caller: Seq<char>,
    receiver: Seq<char>,
)
    requires
        !pre.tokens.contains_key(token_id),
        receiver != caller,
    ensures
        ({
            let p1 = mint_post(pre, token_id, metadata, caller);
            let p2 = transfer_post(p1, receiver, token_id, caller);
            let p3 = transfer_post(p2, caller, token_id, receiver);
            &&& transfer_result(p1, receiver, token_id, caller) == Result::<
                (),
                RegistryError,
            >::Ok(())
            &&& token_of(p2, token_id) == Option::Some(
                TokenView { token_id, owner_id: receiver, metadata },
            )
            &&& transfer_result(p2, caller, token_id, receiver) == Result::<
                (),
                RegistryError,
            >::Ok(())
            &&& token_of(p3, token_id) == token_of(p1, token_id)
            &&& token_of(p3, token_id) == Option::Some(
                TokenView { token_id, owner_id: caller, metadata },
            )
        }),
{
}

} // verus!

//! Storage-key namespacing: every owner's token-id set lives under a key made
//! of a fixed structural tag followed by a collision-resistant hash of the
//! owner identity, so per-owner collections are independent and never collide
//! with the registry's top-level regions.

use vstd::prelude::*;

verus! {

/// Tag of the top-level storage region that indexes owners.
pub const TOKENS_PER_OWNER_TAG: u8 = 0;

/// Tag prefixed to the hash of an owner identity to form the sub-namespace
/// that holds that one owner's token-id set.
pub const TOKEN_PER_OWNER_INNER_TAG: u8 = 1;

/// Tag of the top-level storage region that holds the token store.
pub const TOKENS_BY_ID_TAG: u8 = 2;

/// The 32-byte digest that the hashing primitive assigns to a byte sequence;
/// a function of those bytes alone.
pub uninterp spec fn sha256_of(bytes: Seq<u8>) -> Seq<u8>;

/// Relies on sha2::Sha256 (through digest::Digest::digest): the SHA-256
/// digest of the input, a function of the input bytes alone, 32 bytes long.
#[verifier::external_body]
fn sha256(bytes: &[u8]) -> (r: Vec<u8>)
    ensures
        r@ == sha256_of(bytes@),
        r@.len() == 32,
{
    <sha2::Sha256 as sha2::Digest>::digest(bytes).as_slice().to_vec()
}

/// The storage namespace under which an owner's token-id set lives: the
/// inner tag followed by the digest of the owner identity's UTF-8 bytes.
/// The derivation is a function of the owner identity alone, so the same
/// owner always resolves to the same namespace.
pub open spec fn owner_namespace(owner: Seq<char>) -> Seq<u8> {
    seq![TOKEN_PER_OWNER_INNER_TAG] + sha256_of(vstd::utf8::encode_utf8(owner))
}

/// Computes the storage namespace for one owner's token-id set.
pub fn derive_owner_namespace(owner: &str) -> (ns: Vec<u8>)
    ensures
        ns@ == owner_namespace(owner@),
        ns@.len() == 33,
{
    let digest = sha256(owner.as_bytes());
    let mut ns: Vec<u8> = Vec::new();
    ns.push(TOKEN_PER_OWNER_INNER_TAG);
    let mut i: usize = 0;
    while i < digest.len()
        invariant
            i <= digest.len(),
            ns@.len() == 1 + i,
            ns@ == seq![TOKEN_PER_OWNER_INNER_TAG] + digest@.subrange(0, i as int),
        decreases digest.len() - i,
    {
        ns.push(digest[i]);
        proof {
            assert(seq![TOKEN_PER_OWNER_INNER_TAG] + digest@.subrange(0, i as int + 1)
                =~= (seq![TOKEN_PER_OWNER_INNER_TAG] + digest@.subrange(0, i as int)).push(
                digest@[i as int],
            ));
        }
        i += 1;
    }
    proof {
        assert(digest@.subrange(0, digest@.len() as int) =~= digest@);
    }
    ns
}

/// Two owner identities whose hashes differ resolve to different namespaces:
/// the derivation reintroduces no collision beyond those of the hash itself.
pub proof fn lemma_owner_namespaces_distinct(a: Seq<char>, b: Seq<char>)
    requires
        sha256_of(vstd::utf8::encode_utf8(a)) != sha256_of(vstd::utf8::encode_utf8(b)),
    ensures
        owner_namespace(a) != owner_namespace(b),
{
    let ha = sha256_of(vstd::utf8::encode_utf8(a));
    let hb = sha256_of(vstd::utf8::encode_utf8(b));
    if owner_namespace(a) == owner_namespace(b) {
        assert((seq![TOKEN_PER_OWNER_INNER_TAG] + ha).skip(1) =~= ha);
        assert((seq![TOKEN_PER_OWNER_INNER_TAG] + hb).skip(1) =~= hb);
    }
}

/// An owner's namespace never collides with either top-level region key:
/// its leading tag differs from both top-level tags.
pub proof fn lemma_owner_namespace_avoids_top_level(owner: Seq<char>)
    ensures
        owner_namespace(owner) != seq![TOKENS_PER_OWNER_TAG],
        owner_namespace(owner) != seq![TOKENS_BY_ID_TAG],
{
    assert(owner_namespace(owner)[0] == TOKEN_PER_OWNER_INNER_TAG);
}

} // verus!

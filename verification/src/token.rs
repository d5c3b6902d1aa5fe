//! The token data model: token records, per-token metadata, and the
//! collection-level metadata, together with their mathematical views.

use vstd::prelude::*;

verus! {

/// Identifier of a token: an opaque string chosen by the minting caller,
/// globally unique and immutable thereafter.
pub type TokenId = String;

/// Identity of an account: an opaque string supplied by the host's
/// caller-authentication layer and trusted as-is.
pub type AccountId = String;

/// Descriptive payload attached to a token at mint time; the registry never
/// edits it afterward (a transfer copies it verbatim). Every field is
/// optional; whether a `reference` comes with its hash is the caller's
/// responsibility, not checked here.
pub struct TokenMetadata {
    pub title: Option<String>,
    pub description: Option<String>,
    pub media: Option<String>,
    pub media_hash: Option<Vec<u8>>,
    pub copies: Option<u64>,
    pub issued_at: Option<String>,
    pub expires_at: Option<String>,
    pub starts_at: Option<String>,
    pub updated_at: Option<String>,
    pub extra: Option<String>,
    pub reference: Option<String>,
    pub reference_hash: Option<Vec<u8>>,
}

/// Collection-level metadata: set once when the registry is constructed and
/// read-only afterward.
pub struct NFTMetadata {
    pub spec: String,
    pub name: String,
    pub symbol: String,
    pub icon: Option<String>,
    pub base_uri: Option<String>,
    pub reference: Option<String>,
    pub reference_hash: Option<Vec<u8>>,
}

/// A token record: the unique identifier, the single current owner, and the
/// metadata attached at mint time.
pub struct Token {
    pub token_id: TokenId,
    pub owner_id: AccountId,
    pub metadata: TokenMetadata,
}

/// View of an optional string as an optional sequence of characters.
pub open spec fn opt_str_view(o: Option<String>) -> Option<Seq<char>> {
    match o {
        Option::None => Option::None,
        Option::Some(s) => Option::Some(s@),
    }
}

/// View of an optional byte vector as an optional sequence of bytes.
pub open spec fn opt_bytes_view(o: Option<Vec<u8>>) -> Option<Seq<u8>> {
    match o {
        Option::None => Option::None,
        Option::Some(v) => Option::Some(v@),
    }
}

/// Mathematical view of `TokenMetadata`.
#[verifier::ext_equal]
pub ghost struct TokenMetadataView {
    pub title: Option<Seq<char>>,
    pub description: Option<Seq<char>>,
    pub media: Option<Seq<char>>,
    pub media_hash: Option<Seq<u8>>,
    pub copies: Option<u64>,
    pub issued_at: Option<Seq<char>>,
    pub expires_at: Option<Seq<char>>,
    pub starts_at: Option<Seq<char>>,
    pub updated_at: Option<Seq<char>>,
    pub extra: Option<Seq<char>>,
    pub reference: Option<Seq<char>>,
    pub reference_hash: Option<Seq<u8>>,
}

impl View for TokenMetadata {
    type V = TokenMetadataView;

    open spec fn view(&self) -> TokenMetadataView {
        TokenMetadataView {
            title: opt_str_view(self.title),
            description: opt_str_view(self.description),
            media: opt_str_view(self.media),
            media_hash: opt_bytes_view(self.media_hash),
            copies: self.copies,
            issued_at: opt_str_view(self.issued_at),
            expires_at: opt_str_view(self.expires_at),
            starts_at: opt_str_view(self.starts_at),
            updated_at: opt_str_view(self.updated_at),
            extra: opt_str_view(self.extra),
            reference: opt_str_view(self.reference),
            reference_hash: opt_bytes_view(self.reference_hash),
        }
    }
}

/// Mathematical view of `NFTMetadata`.
#[verifier::ext_equal]
pub ghost struct NFTMetadataView {
    pub spec: Seq<char>,
    pub name: Seq<char>,
    pub symbol: Seq<char>,
    pub icon: Option<Seq<char>>,
    pub base_uri: Option<Seq<char>>,
    pub reference: Option<Seq<char>>,
    pub reference_hash: Option<Seq<u8>>,
}

impl View for NFTMetadata {
    type V = NFTMetadataView;

    open spec fn view(&self) -> NFTMetadataView {
        NFTMetadataView {
            spec: self.spec@,
            name: self.name@,
            symbol: self.symbol@,
            icon: opt_str_view(self.icon),
            base_uri: opt_str_view(self.base_uri),
            reference: opt_str_view(self.reference),
            reference_hash: opt_bytes_view(self.reference_hash),
        }
    }
}

/// Mathematical view of a token record.
#[verifier::ext_equal]
pub ghost struct TokenView {
    pub token_id: Seq<char>,
    pub owner_id: Seq<char>,
    pub metadata: TokenMetadataView,
}

impl View for Token {
    type V = TokenView;

    open spec fn view(&self) -> TokenView {
        TokenView {
            token_id: self.token_id@,
            owner_id: self.owner_id@,
            metadata: self.metadata@,
        }
    }
}

/// Copies a byte vector element by element.
pub fn clone_bytes(v: &Vec<u8>) -> (r: Vec<u8>)
    ensures
        r@ == v@,
{
    let mut r: Vec<u8> = Vec::new();
    let mut i: usize = 0;
    while i < v.len()
        invariant
            i <= v.len(),
            r@ == v@.subrange(0, i as int),
        decreases v.len() - i,
    {
        r.push(v[i]);
        proof {
            assert(v@.subrange(0, i as int).push(v@[i as int]) =~= v@.subrange(
                0,
                i as int + 1,
            ));
        }
        i += 1;
    }
    proof {
        assert(r@ =~= v@);
    }
    r
}

/// Copies an optional string, preserving the value exactly.
pub fn clone_opt_string(o: &Option<String>) -> (r: Option<String>)
    ensures
        r == *o,
{
    match o {
        Option::None => Option::None,
        Option::Some(s) => Option::Some(s.clone()),
    }
}

/// Copies an optional byte vector, preserving its view.
pub fn clone_opt_bytes(o: &Option<Vec<u8>>) -> (r: Option<Vec<u8>>)
    ensures
        opt_bytes_view(r) == opt_bytes_view(*o),
{
    match o {
        Option::None => Option::None,
        Option::Some(v) => Option::Some(clone_bytes(v)),
    }
}

impl TokenMetadata {
    /// Copies the metadata, preserving its view.
    pub fn duplicate(&self) -> (r: TokenMetadata)
        ensures
            r@ == self@,
    {
        let r = TokenMetadata {
            title: clone_opt_string(&self.title),
            description: clone_opt_string(&self.description),
            media: clone_opt_string(&self.media),
            media_hash: clone_opt_bytes(&self.media_hash),
            copies: self.copies,
            issued_at: clone_opt_string(&self.issued_at),
            expires_at: clone_opt_string(&self.expires_at),
            starts_at: clone_opt_string(&self.starts_at),
            updated_at: clone_opt_string(&self.updated_at),
            extra: clone_opt_string(&self.extra),
            reference: clone_opt_string(&self.reference),
            reference_hash: clone_opt_bytes(&self.reference_hash),
        };
        proof {
            assert(r@ =~= self@);
        }
        r
    }
}

impl NFTMetadata {
    /// Copies the collection metadata, preserving its view.
    pub fn duplicate(&self) -> (r: NFTMetadata)
        ensures
            r@ == self@,
    {
        let r = NFTMetadata {
            spec: self.spec.clone(),
            name: self.name.clone(),
            symbol: self.symbol.clone(),
            icon: clone_opt_string(&self.icon),
            base_uri: clone_opt_string(&self.base_uri),
            reference: clone_opt_string(&self.reference),
            reference_hash: clone_opt_bytes(&self.reference_hash),
        };
        proof {
            assert(r@ =~= self@);
        }
        r
    }
}

impl Token {
    /// Copies the token record, preserving its view.
    pub fn duplicate(&self) -> (r: Token)
        ensures
            r@ == self@,
    {
        let r = Token {
            token_id: self.token_id.clone(),
            owner_id: self.owner_id.clone(),
            metadata: self.metadata.duplicate(),
        };
        proof {
            assert(r@ =~= self@);
        }
        r
    }
}

} // verus!

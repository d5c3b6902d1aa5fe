//! The token store: a mapping from token identifier to token record, kept as
//! a vector of records with pairwise-distinct identifiers and viewed as a
//! mathematical map.

use vstd::prelude::*;

use crate::token::{Token, TokenView};
use vstd::pervasive::VecAdditionalExecFns;

verus! {

/// True when some record in `s` carries the identifier `id`.
pub open spec fn has_id(s: Seq<Token>, id: Seq<char>) -> bool {
    exists|i: int| 0 <= i < s.len() && s[i].token_id@ == id
}

/// The index of the record carrying `id`; meaningful only when `has_id`
/// holds and the identifiers are pairwise distinct.
pub open spec fn idx_of(s: Seq<Token>, id: Seq<char>) -> int {
    choose|i: int| 0 <= i < s.len() && s[i].token_id@ == id
}

/// True when the records in `s` carry pairwise-distinct identifiers.
pub open spec fn distinct_ids(s: Seq<Token>) -> bool {
    forall|i: int, j: int| 0 <= i < j < s.len() ==> s[i].token_id@ != s[j].token_id@
}

/// The records of `s` as a mathematical map from identifier to record view.
pub open spec fn store_map(s: Seq<Token>) -> Map<Seq<char>, TokenView> {
    Map::new(|id: Seq<char>| has_id(s, id), |id: Seq<char>| s[idx_of(s, id)]@)
}

/// With pairwise-distinct identifiers, a record's position is the unique
/// witness that `idx_of` resolves to.
pub proof fn lemma_idx_of_unique(s: Seq<Token>, i: int, id: Seq<char>)
    requires
        distinct_ids(s),
        0 <= i < s.len(),
        s[i].token_id@ == id,
    ensures
        has_id(s, id),
        idx_of(s, id) == i,
{
    assert(has_id(s, id));
    let j = idx_of(s, id);
    assert(0 <= j < s.len() && s[j].token_id@ == id);
    if i < j {
        assert(s[i].token_id@ != s[j].token_id@);
    } else if j < i {
        assert(s[j].token_id@ != s[i].token_id@);
    }
}

/// Overwriting the record that carries `t`'s identifier, or appending `t`
/// when no record carries it, turns the store map into the map with `t`
/// inserted under its identifier.
proof fn lemma_store_map_put(s0: Seq<Token>, s1: Seq<Token>, i: int, t: Token)
    requires
        distinct_ids(s0),
        0 <= i <= s0.len(),
        i < s0.len() ==> s0[i].token_id@ == t.token_id@ && s1 == s0.update(i, t),
        i == s0.len() ==> !has_id(s0, t.token_id@) && s1 == s0.push(t),
    ensures
        distinct_ids(s1),
        store_map(s1) == store_map(s0).insert(t.token_id@, t@),
{
    let k = t.token_id@;
    assert(s1.len() == if i < s0.len() {
        s0.len() as int
    } else {
        s0.len() + 1 as int
    });
    assert(s1[i] == t);
    assert forall|a: int| 0 <= a < s1.len() implies s1[a].token_id@ == if a < s0.len() {
        s0[a].token_id@
    } else {
        k
    } by {
        if a != i {
            assert(s1[a] == s0[a]);
        }
    }
    assert forall|a: int, b: int| 0 <= a < b < s1.len() implies s1[a].token_id@
        != s1[b].token_id@ by {
        if b < s0.len() {
            assert(s0[a].token_id@ != s0[b].token_id@);
        } else {
            assert(s1[b].token_id@ == k);
            assert(!has_id(s0, k));
            assert(s0[a].token_id@ != k);
        }
    }
    assert(distinct_ids(s1));
    assert forall|id: Seq<char>| has_id(s1, id) <==> (has_id(s0, id) || id == k) by {
        if has_id(s1, id) {
            let w = choose|w: int| 0 <= w < s1.len() && s1[w].token_id@ == id;
            if id != k {
                assert(w != i);
                assert(w < s0.len());
                assert(s0[w].token_id@ == id);
                assert(has_id(s0, id));
            }
        }
        if has_id(s0, id) {
            let w = choose|w: int| 0 <= w < s0.len() && s0[w].token_id@ == id;
            if w == i {
                assert(id == k);
                assert(s1[i].token_id@ == k);
            } else {
                assert(s1[w].token_id@ == id);
            }
            assert(has_id(s1, id));
        }
        if id == k {
            assert(s1[i].token_id@ == k);
            assert(has_id(s1, id));
        }
    }
    assert forall|id: Seq<char>| #[trigger] store_map(s1).contains_key(id) implies store_map(
        s1,
    )[id] == store_map(s0).insert(k, t@)[id] by {
        if id == k {
            lemma_idx_of_unique(s1, i, k);
            assert(store_map(s1)[id] == t@);
        } else {
            let w = choose|w: int| 0 <= w < s1.len() && s1[w].token_id@ == id;
            assert(w != i);
            assert(w < s0.len());
            assert(s1[w] == s0[w]);
            lemma_idx_of_unique(s1, w, id);
            lemma_idx_of_unique(s0, w, id);
            assert(store_map(s1)[id] == s1[w]@);
            assert(store_map(s0)[id] == s0[w]@);
        }
    }
    assert(store_map(s1) =~= store_map(s0).insert(k, t@));
}

/// The token store: a keyed collection of token records.
pub struct TokenStore {
    pub records: Vec<Token>,
}

impl View for TokenStore {
    type V = Map<Seq<char>, TokenView>;

    /// The store as a mathematical map from token identifier to the view of
    /// the record that carries it.
    open spec fn view(&self) -> Map<Seq<char>, TokenView> {
        store_map(self.records@)
    }
}

impl TokenStore {
    /// Well-formedness: no identifier occurs twice.
    pub open spec fn wf(&self) -> bool {
        distinct_ids(self.records@)
    }

    /// An empty store.
    pub fn new() -> (s: TokenStore)
        ensures
            s.wf(),
            s@ == Map::<Seq<char>, TokenView>::empty(),
    {
        let s = TokenStore { records: Vec::new() };
        proof {
            assert(s@ =~= Map::<Seq<char>, TokenView>::empty());
        }
        s
    }

    /// Pure lookup: the record stored under `token_id`, or nothing.
    pub fn get<'a>(&'a self, token_id: &String) -> (r: Option<&'a Token>)
        requires
            self.wf(),
        ensures
            match r {
                Option::Some(t) => self@.contains_key(token_id@) && t@ == self@[token_id@]
                    && t.token_id@ == token_id@,
                Option::None => !self@.contains_key(token_id@),
            },
    {
        let n = self.records.len();
        let mut i: usize = 0;
        while i < n
            invariant
                n == self.records@.len(),
                i <= n,
                forall|j: int| 0 <= j < i ==> self.records@[j].token_id@ != token_id@,
                self.wf(),
            decreases n - i,
        {
            if self.records[i].token_id == *token_id {
                proof {
                    lemma_idx_of_unique(self.records@, i as int, token_id@);
                }
                return Option::Some(&self.records[i]);
            }
            i += 1;
        }
        Option::None
    }

    /// Inserts or overwrites the record under its own identifier and hands
    /// back the previous record under that identifier, if there was one.
    pub fn put(&mut self, token: Token) -> (prev: Option<Token>)
        requires
            old(self).wf(),
        ensures
            final(self).wf(),
            final(self)@ == old(self)@.insert(token.token_id@, token@),
            match prev {
                Option::Some(p) => old(self)@.contains_key(token.token_id@) && p@ == old(
                    self,
                )@[token.token_id@],
                Option::None => !old(self)@.contains_key(token.token_id@),
            },
    {
        let ghost k = token.token_id@;
        let ghost s0 = self.records@;
        let n = self.records.len();
        let mut i: usize = 0;
        while i < n
            invariant
                n == self.records@.len(),
                i <= n,
                forall|j: int| 0 <= j < i ==> self.records@[j].token_id@ != k,
                self.wf(),
                self.records@ == s0,
                s0 == old(self).records@,
                k == token.token_id@,
            decreases n - i,
        {
            if self.records[i].token_id == token.token_id {
                proof {
                    lemma_idx_of_unique(s0, i as int, k);
                }
                let mut slot = token;
                self.records.set_and_swap(i, &mut slot);
                proof {
                    lemma_store_map_put(s0, self.records@, i as int, token);
                }
                return Option::Some(slot);
            }
            i += 1;
        }
        self.records.push(token);
        proof {
            lemma_store_map_put(s0, self.records@, s0.len() as int, token);
        }
        Option::None
    }
}

} // verus!

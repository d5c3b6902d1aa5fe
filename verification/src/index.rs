//! The ownership index: a reverse mapping from owner identity to the set of
//! token identifiers that owner currently controls. Each owner's set lives
//! under its own derived storage namespace, and an owner whose set becomes
//! empty loses its entry entirely.

use vstd::prelude::*;

use crate::namespace::{derive_owner_namespace, owner_namespace};
use crate::token::{AccountId, TokenId};
use vstd::pervasive::VecAdditionalExecFns;

verus! {

/// One owner's entry: the owner identity, the derived storage namespace of
/// its token-id set, and the token identifiers it currently owns.
pub struct OwnerEntry {
    pub owner_id: AccountId,
    pub namespace: Vec<u8>,
    pub token_ids: Vec<TokenId>,
}

/// The set of views of the strings in `ids`.
pub open spec fn ids_set(ids: Seq<String>) -> Set<Seq<char>> {
    Set::new(|id: Seq<char>| exists|i: int| 0 <= i < ids.len() && ids[i]@ == id)
}

/// True when the strings in `ids` have pairwise-distinct views.
pub open spec fn distinct_strs(ids: Seq<String>) -> bool {
    forall|i: int, j: int| 0 <= i < j < ids.len() ==> ids[i]@ != ids[j]@
}

/// True when some entry in `s` belongs to `owner`.
pub open spec fn has_owner(s: Seq<OwnerEntry>, owner: Seq<char>) -> bool {
    exists|i: int| 0 <= i < s.len() && s[i].owner_id@ == owner
}

/// The position of `owner`'s entry; meaningful only when `has_owner` holds
/// and the owners are pairwise distinct.
pub open spec fn owner_idx(s: Seq<OwnerEntry>, owner: Seq<char>) -> int {
    choose|i: int| 0 <= i < s.len() && s[i].owner_id@ == owner
}

/// True when the entries in `s` belong to pairwise-distinct owners.
pub open spec fn distinct_owners(s: Seq<OwnerEntry>) -> bool {
    forall|i: int, j: int| 0 <= i < j < s.len() ==> s[i].owner_id@ != s[j].owner_id@
}

/// The entries of `s` as a mathematical map from owner identity to the set
/// of token identifiers that owner controls.
pub open spec fn index_map(s: Seq<OwnerEntry>) -> Map<Seq<char>, Set<Seq<char>>> {
    Map::new(
        |o: Seq<char>| has_owner(s, o),
        |o: Seq<char>| ids_set(s[owner_idx(s, o)].token_ids@),
    )
}

/// The set an owner controls under `m`: its entry's set, or the empty set
/// for an owner that has no entry.
pub open spec fn owned_set(m: Map<Seq<char>, Set<Seq<char>>>, o: Seq<char>) -> Set<Seq<char>> {
    if m.contains_key(o) {
        m[o]
    } else {
        Set::empty()
    }
}

/// The index map after `t` is added to `o`'s set, the entry being created
/// if `o` had none.
pub open spec fn index_add(
    m: Map<Seq<char>, Set<Seq<char>>>,
    o: Seq<char>,
    t: Seq<char>,
) -> Map<Seq<char>, Set<Seq<char>>> {
    m.insert(o, owned_set(m, o).insert(t))
}

/// The index map after `t` is removed from `o`'s set, the entry being
/// dropped entirely when its set becomes empty.
pub open spec fn index_remove(
    m: Map<Seq<char>, Set<Seq<char>>>,
    o: Seq<char>,
    t: Seq<char>,
) -> Map<Seq<char>, Set<Seq<char>>> {
    if !m.contains_key(o) {
        m
    } else if m[o].remove(t) == Set::<Seq<char>>::empty() {
        m.remove(o)
    } else {
        m.insert(o, m[o].remove(t))
    }
}

/// With pairwise-distinct owners, an entry's position is the unique witness
/// that `owner_idx` resolves to.
pub proof fn lemma_owner_idx_unique(s: Seq<OwnerEntry>, i: int, owner: Seq<char>)
    requires
        distinct_owners(s),
        0 <= i < s.len(),
        s[i].owner_id@ == owner,
    ensures
        has_owner(s, owner),
        owner_idx(s, owner) == i,
{
    assert(has_owner(s, owner));
    let j = owner_idx(s, owner);
    assert(0 <= j < s.len() && s[j].owner_id@ == owner);
    if i < j {
        assert(s[i].owner_id@ != s[j].owner_id@);
    } else if j < i {
        assert(s[j].owner_id@ != s[i].owner_id@);
    }
}

/// Appending a string adds its view to the set of views.
pub proof fn lemma_ids_set_push(ids: Seq<String>, x: String)
    ensures
        ids_set(ids.push(x)) == ids_set(ids).insert(x@),
{
    let s1 = ids.push(x);
    assert forall|y: Seq<char>|
        ids_set(s1).contains(y) <==> ids_set(ids).insert(x@).contains(y) by {
        if ids_set(s1).contains(y) {
            let w = choose|w: int| 0 <= w < s1.len() && s1[w]@ == y;
            if w < ids.len() {
                assert(ids[w]@ == y);
            } else {
                assert(y == x@);
            }
        }
        if ids_set(ids).contains(y) {
            let w = choose|w: int| 0 <= w < ids.len() && ids[w]@ == y;
            assert(s1[w]@ == y);
        }
        if y == x@ {
            assert(s1[ids.len() as int]@ == y);
        }
    }
    assert(ids_set(s1) =~= ids_set(ids).insert(x@));
}

/// With pairwise-distinct views, removing a string removes exactly its view
/// from the set of views.
pub proof fn lemma_ids_set_remove(ids: Seq<String>, j: int)
    requires
        distinct_strs(ids),
        0 <= j < ids.len(),
    ensures
        distinct_strs(ids.remove(j)),
        ids_set(ids.remove(j)) == ids_set(ids).remove(ids[j]@),
{
    let s1 = ids.remove(j);
    assert forall|y: Seq<char>|
        ids_set(s1).contains(y) <==> ids_set(ids).remove(ids[j]@).contains(y) by {
        if ids_set(s1).contains(y) {
            let w = choose|w: int| 0 <= w < s1.len() && s1[w]@ == y;
            let w0 = if w < j {
                w
            } else {
                w + 1
            };
            assert(ids[w0]@ == y);
            if w0 < j {
                assert(ids[w0]@ != ids[j]@);
            } else {
                assert(ids[j]@ != ids[w0]@);
            }
        }
        if ids_set(ids).contains(y) && y != ids[j]@ {
            let w = choose|w: int| 0 <= w < ids.len() && ids[w]@ == y;
            if w < j {
                assert(s1[w]@ == y);
            } else {
                assert(s1[w - 1]@ == y);
            }
        }
    }
    assert(ids_set(s1) =~= ids_set(ids).remove(ids[j]@));
}

/// A vector of strings is empty exactly when the set of its views is.
pub proof fn lemma_ids_set_empty(ids: Seq<String>)
    ensures
        ids.len() == 0 ==> ids_set(ids) == Set::<Seq<char>>::empty(),
        ids.len() > 0 ==> ids_set(ids) != Set::<Seq<char>>::empty(),
{
    if ids.len() == 0 {
        assert(ids_set(ids) =~= Set::<Seq<char>>::empty());
    } else {
        assert(ids_set(ids).contains(ids[0]@));
    }
}

/// Overwriting the entry that belongs to `e`'s owner, or appending `e` when
/// no entry does, turns the index map into the map with `e`'s set inserted
/// under its owner.
proof fn lemma_index_map_put(s0: Seq<OwnerEntry>, s1: Seq<OwnerEntry>, i: int, e: OwnerEntry)
    requires
        distinct_owners(s0),
        0 <= i <= s0.len(),
        i < s0.len() ==> s0[i].owner_id@ == e.owner_id@ && s1 == s0.update(i, e),
        i == s0.len() ==> !has_owner(s0, e.owner_id@) && s1 == s0.push(e),
    ensures
        distinct_owners(s1),
        index_map(s1) == index_map(s0).insert(e.owner_id@, ids_set(e.token_ids@)),
{
    let k = e.owner_id@;
    assert(s1[i] == e);
    assert forall|a: int| 0 <= a < s1.len() implies s1[a].owner_id@ == if a < s0.len() {
        s0[a].owner_id@
    } else {
        k
    } by {
        if a != i {
            assert(s1[a] == s0[a]);
        }
    }
    assert forall|a: int, b: int| 0 <= a < b < s1.len() implies s1[a].owner_id@
        != s1[b].owner_id@ by {
        if b < s0.len() {
            assert(s0[a].owner_id@ != s0[b].owner_id@);
        } else {
            assert(s1[b].owner_id@ == k);
            assert(!has_owner(s0, k));
            assert(s0[a].owner_id@ != k);
        }
    }
    assert(distinct_owners(s1));
    assert forall|o: Seq<char>| has_owner(s1, o) <==> (has_owner(s0, o) || o == k) by {
        if has_owner(s1, o) {
            let w = choose|w: int| 0 <= w < s1.len() && s1[w].owner_id@ == o;
            if o != k {
                assert(w != i);
                assert(w < s0.len());
                assert(s0[w].owner_id@ == o);
            }
        }
        if has_owner(s0, o) {
            let w = choose|w: int| 0 <= w < s0.len() && s0[w].owner_id@ == o;
            if w == i {
                assert(o == k);
                assert(s1[i].owner_id@ == k);
            } else {
                assert(s1[w].owner_id@ == o);
            }
            assert(has_owner(s1, o));
        }
        if o == k {
            assert(s1[i].owner_id@ == k);
            assert(has_owner(s1, o));
        }
    }
    assert forall|o: Seq<char>| #[trigger] index_map(s1).contains_key(o) implies index_map(
        s1,
    )[o] == index_map(s0).insert(k, ids_set(e.token_ids@))[o] by {
        if o == k {
            lemma_owner_idx_unique(s1, i, k);
            assert(index_map(s1)[o] == ids_set(e.token_ids@));
        } else {
            let w = choose|w: int| 0 <= w < s1.len() && s1[w].owner_id@ == o;
            assert(w != i);
            assert(w < s0.len());
            assert(s1[w] == s0[w]);
            lemma_owner_idx_unique(s1, w, o);
            lemma_owner_idx_unique(s0, w, o);
        }
    }
    assert(index_map(s1) =~= index_map(s0).insert(k, ids_set(e.token_ids@)));
}

/// Removing an entry removes exactly its owner from the index map.
proof fn lemma_index_map_remove_entry(s0: Seq<OwnerEntry>, s1: Seq<OwnerEntry>, i: int)
    requires
        distinct_owners(s0),
        0 <= i < s0.len(),
        s1 == s0.remove(i),
    ensures
        distinct_owners(s1),
        index_map(s1) == index_map(s0).remove(s0[i].owner_id@),
{
    let k = s0[i].owner_id@;
    assert forall|a: int| 0 <= a < s1.len() implies s1[a] == if a < i {
        s0[a]
    } else {
        s0[a + 1]
    } by {}
    assert forall|a: int, b: int| 0 <= a < b < s1.len() implies s1[a].owner_id@
        != s1[b].owner_id@ by {
        let a0 = if a < i {
            a
        } else {
            a + 1
        };
        let b0 = if b < i {
            b
        } else {
            b + 1
        };
        assert(s0[a0].owner_id@ != s0[b0].owner_id@);
    }
    assert(distinct_owners(s1));
    assert forall|o: Seq<char>| has_owner(s1, o) <==> (has_owner(s0, o) && o != k) by {
        if has_owner(s1, o) {
            let w = choose|w: int| 0 <= w < s1.len() && s1[w].owner_id@ == o;
            let w0 = if w < i {
                w
            } else {
                w + 1
            };
            assert(s0[w0].owner_id@ == o);
            if w0 < i {
                assert(s0[w0].owner_id@ != s0[i].owner_id@);
            } else {
                assert(s0[i].owner_id@ != s0[w0].owner_id@);
            }
        }
        if has_owner(s0, o) && o != k {
            let w = choose|w: int| 0 <= w < s0.len() && s0[w].owner_id@ == o;
            assert(w != i);
            if w < i {
                assert(s1[w].owner_id@ == o);
            } else {
                assert(s1[w - 1].owner_id@ == o);
            }
            assert(has_owner(s1, o));
        }
    }
    assert forall|o: Seq<char>| #[trigger] index_map(s1).contains_key(o) implies index_map(
        s1,
    )[o] == index_map(s0).remove(k)[o] by {
        let w = choose|w: int| 0 <= w < s1.len() && s1[w].owner_id@ == o;
        let w0 = if w < i {
            w
        } else {
            w + 1
        };
        assert(s1[w] == s0[w0]);
        lemma_owner_idx_unique(s1, w, o);
        lemma_owner_idx_unique(s0, w0, o);
    }
    assert(index_map(s1) =~= index_map(s0).remove(k));
}

/// Finds the position of `owner`'s entry.
fn find_owner(entries: &Vec<OwnerEntry>, owner: &String) -> (r: Option<usize>)
    ensures
        match r {
            Option::Some(i) => i < entries@.len() && entries@[i as int].owner_id@ == owner@,
            Option::None => !has_owner(entries@, owner@),
        },
{
    let n = entries.len();
    let mut i: usize = 0;
    while i < n
        invariant
            n == entries@.len(),
            i <= n,
            forall|j: int| 0 <= j < i ==> entries@[j].owner_id@ != owner@,
        decreases n - i,
    {
        if entries[i].owner_id == *owner {
            return Option::Some(i);
        }
        i += 1;
    }
    Option::None
}

/// Finds the position of `token_id` among `ids`.
fn find_id(ids: &Vec<TokenId>, token_id: &String) -> (r: Option<usize>)
    ensures
        match r {
            Option::Some(j) => j < ids@.len() && ids@[j as int]@ == token_id@,
            Option::None => forall|a: int| 0 <= a < ids@.len() ==> ids@[a]@ != token_id@,
        },
{
    let n = ids.len();
    let mut j: usize = 0;
    while j < n
        invariant
            n == ids@.len(),
            j <= n,
            forall|a: int| 0 <= a < j ==> ids@[a]@ != token_id@,
        decreases n - j,
    {
        if ids[j] == *token_id {
            return Option::Some(j);
        }
        j += 1;
    }
    Option::None
}

/// The ownership index: the reverse mapping from owner identity to the set
/// of token identifiers it owns.
pub struct OwnershipIndex {
    pub entries: Vec<OwnerEntry>,
}

impl OwnerEntry {
    /// Well-formedness of one entry: the identifiers are pairwise distinct,
    /// the set is never left empty, and the namespace is the one derived
    /// from the owner identity.
    pub open spec fn wf(&self) -> bool {
        &&& distinct_strs(self.token_ids@)
        &&& self.token_ids@.len() > 0
        &&& self.namespace@ == owner_namespace(self.owner_id@)
    }
}

impl View for OwnershipIndex {
    type V = Map<Seq<char>, Set<Seq<char>>>;

    /// The index as a mathematical map from owner identity to owned set.
    open spec fn view(&self) -> Map<Seq<char>, Set<Seq<char>>> {
        index_map(self.entries@)
    }
}

impl OwnershipIndex {
    /// Well-formedness: owners are pairwise distinct and every entry is
    /// well-formed.
    pub open spec fn wf(&self) -> bool {
        &&& distinct_owners(self.entries@)
        &&& forall|i: int| 0 <= i < self.entries@.len() ==> (#[trigger] self.entries@[i]).wf()
    }

    /// An empty index.
    pub fn new() -> (r: OwnershipIndex)
        ensures
            r.wf(),
            r@ == Map::<Seq<char>, Set<Seq<char>>>::empty(),
    {
        let r = OwnershipIndex { entries: Vec::new() };
        proof {
            assert(r@ =~= Map::<Seq<char>, Set<Seq<char>>>::empty());
        }
        r
    }

    /// Whether `owner` currently has an entry (hence owns some token).
    pub fn contains_owner(&self, owner: &String) -> (r: bool)
        requires
            self.wf(),
        ensures
            r == self@.contains_key(owner@),
    {
        match find_owner(&self.entries, owner) {
            Option::Some(i) => {
                proof {
                    lemma_owner_idx_unique(self.entries@, i as int, owner@);
                }
                true
            },
            Option::None => false,
        }
    }

    /// The token identifiers `owner` currently controls, as a vector of
    /// pairwise-distinct identifiers; empty when the owner has no entry.
    pub fn tokens_of(&self, owner: &String) -> (r: Vec<TokenId>)
        requires
            self.wf(),
        ensures
            ids_set(r@) == owned_set(self@, owner@),
            distinct_strs(r@),
    {
        match find_owner(&self.entries, owner) {
            Option::Some(i) => {
                proof {
                    lemma_owner_idx_unique(self.entries@, i as int, owner@);
                }
                let ids = &self.entries[i].token_ids;
                let m = ids.len();
                let mut r: Vec<TokenId> = Vec::new();
                let mut j: usize = 0;
                while j < m
                    invariant
                        m == ids@.len(),
                        j <= m,
                        r@.len() == j,
                        forall|a: int| 0 <= a < j ==> r@[a]@ == ids@[a]@,
                        distinct_strs(ids@),
                    decreases m - j,
                {
                    r.push(ids[j].clone());
                    j += 1;
                }
                proof {
                    assert forall|y: Seq<char>|
                        ids_set(r@).contains(y) <==> ids_set(ids@).contains(y) by {
                        if ids_set(r@).contains(y) {
                            let w = choose|w: int| 0 <= w < r@.len() && r@[w]@ == y;
                            assert(ids@[w]@ == y);
                        }
                        if ids_set(ids@).contains(y) {
                            let w = choose|w: int| 0 <= w < ids@.len() && ids@[w]@ == y;
                            assert(r@[w]@ == y);
                        }
                    }
                    assert(ids_set(r@) =~= ids_set(ids@));
                }
                r
            },
            Option::None => {
                let r: Vec<TokenId> = Vec::new();
                proof {
                    assert(ids_set(r@) =~= Set::<Seq<char>>::empty());
                }
                r
            },
        }
    }

    /// Inserts `token_id` into `owner`'s set, creating the entry (under a
    /// freshly derived namespace) when the owner has none; adding an
    /// identifier the owner already holds leaves the index unchanged.
    pub fn add(&mut self, owner: &String, token_id: &String)
        requires
            old(self).wf(),
        ensures
            final(self).wf(),
            final(self)@ == index_add(old(self)@, owner@, token_id@),
    {
        let ghost s0 = self.entries@;
        match find_owner(&self.entries, owner) {
            Option::Some(i) => {
                proof {
                    lemma_owner_idx_unique(s0, i as int, owner@);
                    assert(s0[i as int].wf());
                }
                let mut entry = OwnerEntry {
                    owner_id: String::new(),
                    namespace: Vec::new(),
                    token_ids: Vec::new(),
                };
                self.entries.set_and_swap(i, &mut entry);
                let ghost e0 = entry;
                match find_id(&entry.token_ids, token_id) {
                    Option::Some(_) => {
                        self.entries.set(i, entry);
                        proof {
                            assert(self.entries@ =~= s0.update(i as int, e0));
                            lemma_index_map_put(s0, self.entries@, i as int, e0);
                            assert(ids_set(e0.token_ids@).contains(token_id@));
                            assert(ids_set(e0.token_ids@).insert(token_id@) =~= ids_set(
                                e0.token_ids@,
                            ));
                            assert(final(self)@ =~= index_add(old(self)@, owner@, token_id@));
                        }
                    },
                    Option::None => {
                        entry.token_ids.push(token_id.clone());
                        proof {
                            assert(entry.token_ids@ == e0.token_ids@.push(
                                entry.token_ids@.last(),
                            ));
                            assert(entry.token_ids@.last()@ == token_id@);
                            lemma_ids_set_push(e0.token_ids@, entry.token_ids@.last());
                            assert forall|a: int, b: int|
                                0 <= a < b < entry.token_ids@.len() implies entry.token_ids@[a]@
                                != entry.token_ids@[b]@ by {
                                if b < e0.token_ids@.len() {
                                    assert(e0.token_ids@[a]@ != e0.token_ids@[b]@);
                                } else {
                                    assert(entry.token_ids@[b]@ == token_id@);
                                    assert(e0.token_ids@[a]@ != token_id@);
                                }
                            }
                        }
                        let ghost e1 = entry;
                        self.entries.set(i, entry);
                        proof {
                            assert(self.entries@ =~= s0.update(i as int, e1));
                            lemma_index_map_put(s0, self.entries@, i as int, e1);
                            assert(ids_set(e1.token_ids@) == ids_set(e0.token_ids@).insert(
                                token_id@,
                            ));
                            assert(final(self)@ =~= index_add(old(self)@, owner@, token_id@));
                        }
                    },
                }
            },
            Option::None => {
                let namespace = derive_owner_namespace(owner.as_str());
                let mut token_ids: Vec<TokenId> = Vec::new();
                token_ids.push(token_id.clone());
                let entry = OwnerEntry { owner_id: owner.clone(), namespace, token_ids };
                self.entries.push(entry);
                proof {
                    lemma_index_map_put(s0, self.entries@, s0.len() as int, entry);
                    assert(entry.token_ids@[0]@ == token_id@);
                    assert forall|y: Seq<char>| ids_set(entry.token_ids@).contains(y) implies y
                        == token_id@ by {
                        let w = choose|w: int|
                            0 <= w < entry.token_ids@.len() && entry.token_ids@[w]@ == y;
                        assert(w == 0);
                    }
                    assert(ids_set(entry.token_ids@) =~= Set::<Seq<char>>::empty().insert(
                        token_id@,
                    ));
                    assert(owned_set(old(self)@, owner@) =~= Set::<Seq<char>>::empty());
                    assert(final(self)@ =~= index_add(old(self)@, owner@, token_id@));
                }
            },
        }
    }

    /// Removes `token_id` from `owner`'s set and drops the owner's entry
    /// entirely when its set becomes empty; an owner or identifier that is
    /// not present leaves the index unchanged.
    pub fn remove(&mut self, owner: &String, token_id: &String)
        requires
            old(self).wf(),
        ensures
            final(self).wf(),
            final(self)@ == index_remove(old(self)@, owner@, token_id@),
    {
        let ghost s0 = self.entries@;
        match find_owner(&self.entries, owner) {
            Option::Some(i) => {
                proof {
                    lemma_owner_idx_unique(s0, i as int, owner@);
                    assert(s0[i as int].wf());
                }
                let mut entry = OwnerEntry {
                    owner_id: String::new(),
                    namespace: Vec::new(),
                    token_ids: Vec::new(),
                };
                self.entries.set_and_swap(i, &mut entry);
                let ghost e0 = entry;
                match find_id(&entry.token_ids, token_id) {
                    Option::Some(j) => {
                        let ghost ids0 = entry.token_ids@;
                        entry.token_ids.remove(j);
                        proof {
                            lemma_ids_set_remove(ids0, j as int);
                            assert(ids_set(entry.token_ids@) == ids_set(ids0).remove(token_id@));
                        }
                        if entry.token_ids.is_empty() {
                            self.entries.remove(i);
                            proof {
                                lemma_ids_set_empty(entry.token_ids@);
                                assert(ids_set(e0.token_ids@).remove(token_id@)
                                    == Set::<Seq<char>>::empty());
                                assert(self.entries@ =~= s0.remove(i as int));
                                lemma_index_map_remove_entry(s0, self.entries@, i as int);
                                assert(final(self)@ =~= index_remove(
                                    old(self)@,
                                    owner@,
                                    token_id@,
                                ));
                            }
                        } else {
                            let ghost e1 = entry;
                            self.entries.set(i, entry);
                            proof {
                                lemma_ids_set_empty(e1.token_ids@);
                                assert(self.entries@ =~= s0.update(i as int, e1));
                                lemma_index_map_put(s0, self.entries@, i as int, e1);
                                assert(final(self)@ =~= index_remove(
                                    old(self)@,
                                    owner@,
                                    token_id@,
                                ));
                            }
                        }
                    },
                    Option::None => {
                        self.entries.set(i, entry);
                        proof {
                            assert(self.entries@ =~= s0.update(i as int, e0));
                            assert(s0.update(i as int, e0) =~= s0);
                            assert(!ids_set(e0.token_ids@).contains(token_id@));
                            assert(ids_set(e0.token_ids@).remove(token_id@) =~= ids_set(
                                e0.token_ids@,
                            ));
                            lemma_ids_set_empty(e0.token_ids@);
                            assert(index_map(s0)[owner@] == ids_set(e0.token_ids@));
                            assert(index_map(s0).insert(owner@, ids_set(e0.token_ids@))
                                =~= index_map(s0));
                            assert(final(self)@ =~= index_remove(old(self)@, owner@, token_id@));
                        }
                    },
                }
            },
            Option::None => {
                proof {
                    assert(final(self)@ =~= index_remove(old(self)@, owner@, token_id@));
                }
            },
        }
    }
}

} // verus!

//! A map from string keys kept in key order, as `BTreeMap<String, V>` keeps
//! them: the order in which the manifest's tables are walked is the order of
//! their keys.
//!
//! vstd's specification of `BTreeMap` means something only for keys whose
//! `Ord` is known to obey its specification (`key_obeys_cmp_spec`), which
//! vstd establishes for integer keys and not for `String`: with `String`
//! keys nothing could be proved of what a lookup or an iteration returns —
//! not the order the tables are walked in, which the Settings File and the
//! library path depend on. So the entries are held in a `Vec`, with the type invariant
//! that keys ascend strictly in the order `String`'s `Ord` gives them
//! (code point by code point, which for UTF-8 is byte order).

use vstd::prelude::*;

use crate::text::{lemma_str_lt_irreflexive, lemma_str_lt_total, lemma_str_lt_transitive, str_eq, str_less, str_lt};

verus! {

/// Keys strictly ascending, hence distinct.
pub open spec fn keys_sorted<V>(s: Seq<(Seq<char>, V)>) -> bool {
    forall|i: int, j: int| 0 <= i < j < s.len() ==> str_lt(#[trigger] s[i].0, #[trigger] s[j].0)
}

/// Whether some entry has key `k`.
pub open spec fn has_key<V>(s: Seq<(Seq<char>, V)>, k: Seq<char>) -> bool {
    exists|i: int| 0 <= i < s.len() && #[trigger] s[i].0 == k
}

/// The value stored under `k`.
pub open spec fn lookup<V>(s: Seq<(Seq<char>, V)>, k: Seq<char>) -> Option<V> {
    if has_key(s, k) {
        Some(s[choose|i: int| 0 <= i < s.len() && #[trigger] s[i].0 == k].1)
    } else {
        None
    }
}

/// The keys, in order.
pub open spec fn key_seq<V>(s: Seq<(Seq<char>, V)>) -> Seq<Seq<char>> {
    s.map_values(|e: (Seq<char>, V)| e.0)
}

pub open spec fn entries_view<V>(s: Seq<(String, V)>) -> Seq<(Seq<char>, V)> {
    s.map_values(|e: (String, V)| (e.0@, e.1))
}

pub proof fn lemma_lookup_at<V>(s: Seq<(Seq<char>, V)>, i: int)
    requires
        keys_sorted(s),
        0 <= i < s.len(),
    ensures
        lookup(s, s[i].0) == Some(s[i].1),
{
    let k = s[i].0;
    assert(has_key(s, k));
    let j = choose|j: int| 0 <= j < s.len() && #[trigger] s[j].0 == k;
    lemma_str_lt_irreflexive(k);
    if j < i {
        assert(str_lt(s[j].0, s[i].0));
    }
    if i < j {
        assert(str_lt(s[i].0, s[j].0));
    }
}

/// A map with string keys whose entries are kept in ascending key order.
#[derive(Debug)]
pub struct StrMap<V> {
    entries: Vec<(String, V)>,
}

impl<V> View for StrMap<V> {
    type V = Seq<(Seq<char>, V)>;

    closed spec fn view(&self) -> Seq<(Seq<char>, V)> {
        entries_view(self.entries@)
    }
}

impl<V> StrMap<V> {
    #[verifier::type_invariant]
    closed spec fn inv(self) -> bool {
        keys_sorted(self@)
    }

    /// An empty map.
    pub fn new() -> (res: Self)
        ensures
            res@ == Seq::<(Seq<char>, V)>::empty(),
    {
        let res = StrMap { entries: Vec::new() };
        assert(res@ =~= Seq::<(Seq<char>, V)>::empty());
        res
    }

    /// A map holding entries that are already in ascending key order.
    pub fn from_sorted(entries: Vec<(String, V)>) -> (res: Self)
        requires
            keys_sorted(entries_view(entries@)),
        ensures
            res@ == entries_view(entries@),
    {
        StrMap { entries }
    }

    pub fn len(&self) -> (res: usize)
        ensures
            res == self@.len(),
    {
        self.entries.len()
    }

    pub fn is_empty(&self) -> (res: bool)
        ensures
            res == (self@.len() == 0),
    {
        self.entries.len() == 0
    }

    /// The entries in key order.
    pub fn as_slice(&self) -> (res: &[(String, V)])
        ensures
            entries_view(res@) == self@,
            keys_sorted(self@),
    {
        proof {
            use_type_invariant(self);
        }
        self.entries.as_slice()
    }

    /// The position of the first entry whose key is not below `k`.
    fn search(&self, k: &str) -> (res: usize)
        ensures
            res <= self@.len(),
            forall|i: int| 0 <= i < res ==> str_lt(#[trigger] self@[i].0, k@),
            res < self@.len() ==> !str_lt(self@[res as int].0, k@),
    {
        let mut i: usize = 0;
        while i < self.entries.len() && str_less(self.entries[i].0.as_str(), k)
            invariant
                i <= self@.len(),
                self@.len() == self.entries@.len(),
                forall|j: int| 0 <= j < i ==> str_lt(#[trigger] self@[j].0, k@),
            decreases self@.len() - i,
        {
            assert(self@[i as int].0 == self.entries@[i as int].0@);
            i = i + 1;
        }
        if i < self.entries.len() {
            assert(self@[i as int].0 == self.entries@[i as int].0@);
        }
        i
    }

    /// The value under `k`, if any.
    pub fn get(&self, k: &str) -> (res: Option<&V>)
        ensures
            match res {
                Some(v) => lookup(self@, k@) == Some(*v),
                None => lookup(self@, k@) is None,
            },
    {
        proof {
            use_type_invariant(self);
        }
        let p = self.search(k);
        if p < self.entries.len() && str_eq(self.entries[p].0.as_str(), k) {
            proof {
                lemma_lookup_at(self@, p as int);
            }
            Some(&self.entries[p].1)
        } else {
            proof {
                if has_key(self@, k@) {
                    let j = choose|j: int| 0 <= j < self@.len() && #[trigger] self@[j].0 == k@;
                    lemma_str_lt_irreflexive(k@);
                    if j > p {
                        lemma_str_lt_total(self@[p as int].0, k@);
                    }
                }
            }
            None
        }
    }

    /// Whether some entry has key `k`.
    pub fn contains_key(&self, k: &str) -> (res: bool)
        ensures
            res == has_key(self@, k@),
    {
        let r = self.get(k);
        r.is_some()
    }

    /// Insert or replace the value under `k`, keeping keys in order.
    pub fn insert(&mut self, k: String, v: V)
        ensures
            keys_sorted(final(self)@),
            forall|key: Seq<char>| #[trigger]
                lookup(final(self)@, key) == if key == k@ {
                    Some(v)
                } else {
                    lookup(old(self)@, key)
                },
            final(self)@.len() == old(self)@.len() + if has_key(old(self)@, k@) {
                0int
            } else {
                1int
            },
    {
        proof {
            use_type_invariant(&*self);
        }
        let ghost s = self@;
        let p = self.search(k.as_str());
        if p < self.entries.len() && str_eq(self.entries[p].0.as_str(), k.as_str()) {
            let ghost kv = k@;
            let mut entries = Vec::new();
            std::mem::swap(&mut entries, &mut self.entries);
            entries.set(p, (k, v));
            proof {
                assert(entries_view(entries@) =~= s.update(p as int, (kv, v)));
                let t = entries_view(entries@);
                assert(keys_sorted(t)) by {
                    assert forall|i: int, j: int| 0 <= i < j < t.len() implies str_lt(
                        #[trigger] t[i].0,
                        #[trigger] t[j].0,
                    ) by {
                        assert(s[i].0 == t[i].0 && s[j].0 == t[j].0);
                    }
                }
            }
            self.entries = entries;
            proof {
                assert(self@ =~= s.update(p as int, (kv, v)));
                assert(keys_sorted(self@)) by {
                    assert forall|i: int, j: int| 0 <= i < j < self@.len() implies str_lt(
                        #[trigger] self@[i].0,
                        #[trigger] self@[j].0,
                    ) by {
                        assert(s[i].0 == self@[i].0 && s[j].0 == self@[j].0);
                    }
                }
                assert(has_key(s, kv)) by {
                    assert(s[p as int].0 == kv);
                }
                assert forall|key: Seq<char>| #[trigger]
                    lookup(self@, key) == if key == kv {
                        Some(v)
                    } else {
                        lookup(s, key)
                    } by {
                    if key == kv {
                        lemma_lookup_at(self@, p as int);
                    } else {
                        if has_key(s, key) {
                            let j = choose|j: int| 0 <= j < s.len() && #[trigger] s[j].0 == key;
                            lemma_lookup_at(s, j);
                            lemma_lookup_at(self@, j);
                        } else {
                            assert(!has_key(self@, key));
                        }
                    }
                }
            }
        } else {
            let ghost kv = k@;
            let mut entries = Vec::new();
            std::mem::swap(&mut entries, &mut self.entries);
            entries.insert(p, (k, v));
            proof {
                let t = entries_view(entries@);
                assert(t =~= s.insert(p as int, (kv, v)));
                if p < s.len() {
                    lemma_str_lt_total(s[p as int].0, kv);
                    assert(str_lt(kv, s[p as int].0));
                }
                assert(keys_sorted(t)) by {
                    assert forall|i: int, j: int| 0 <= i < j < t.len() implies str_lt(
                        #[trigger] t[i].0,
                        #[trigger] t[j].0,
                    ) by {
                        if j < p {
                            assert(t[i] == s[i] && t[j] == s[j]);
                        } else if j == p {
                            assert(t[i] == s[i]);
                        } else if i == p {
                            assert(t[j] == s[j - 1]);
                            if j - 1 > p {
                                lemma_str_lt_transitive(kv, s[p as int].0, s[j - 1].0);
                            }
                        } else if i < p {
                            assert(t[i] == s[i] && t[j] == s[j - 1]);
                        } else {
                            assert(t[i] == s[i - 1] && t[j] == s[j - 1]);
                        }
                    }
                }
            }
            self.entries = entries;
            proof {
                assert(self@ =~= s.insert(p as int, (kv, v)));
                assert(!has_key(s, kv)) by {
                    if has_key(s, kv) {
                        let j = choose|j: int| 0 <= j < s.len() && #[trigger] s[j].0 == kv;
                        lemma_str_lt_irreflexive(kv);
                        if j > p {
                            lemma_str_lt_transitive(kv, s[p as int].0, s[j].0);
                        }
                    }
                }
                assert forall|key: Seq<char>| #[trigger]
                    lookup(self@, key) == if key == kv {
                        Some(v)
                    } else {
                        lookup(s, key)
                    } by {
                    if key == kv {
                        lemma_lookup_at(self@, p as int);
                    } else {
                        if has_key(s, key) {
                            let j = choose|j: int| 0 <= j < s.len() && #[trigger] s[j].0 == key;
                            lemma_lookup_at(s, j);
                            if j < p {
                                assert(self@[j] == s[j]);
                                lemma_lookup_at(self@, j);
                            } else {
                                assert(self@[j + 1] == s[j]);
                                lemma_lookup_at(self@, j + 1);
                            }
                        } else {
                            assert(!has_key(self@, key)) by {
                                if has_key(self@, key) {
                                    let j = choose|j: int|
                                        0 <= j < self@.len() && #[trigger] self@[j].0 == key;
                                    if j < p {
                                        assert(self@[j] == s[j]);
                                    } else if j > p {
                                        assert(self@[j] == s[j - 1]);
                                    }
                                }
                            }
                        }
                    }
                }
            }
        }
    }
}

} // verus!

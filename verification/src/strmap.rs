//! A map from strings to strings, kept as a vector of entries whose keys are
//! unique. Its view is a `Map` from key to value.

use vstd::prelude::*;

use crate::memory::{lemma_pos_of, lemma_pos_of_push, lemma_pos_of_remove, lemma_unique_push, lemma_unique_remove, pos_of, unique};
use crate::sort::{sort_positions_str, stably_sorted_str, views};
use crate::text::{str_equal, str_lt};

verus! {

/// A string-to-string map.
#[derive(Debug, Clone, PartialEq, Eq)]
pub struct StringMap {
    entries: Vec<(String, String)>,
}

/// The keys of a list of entries.
pub open spec fn entry_keys(e: Seq<(String, String)>) -> Seq<Seq<char>> {
    e.map_values(|p: (String, String)| p.0@)
}

/// The map a list of entries with unique keys describes.
pub open spec fn entries_map(e: Seq<(String, String)>) -> Map<Seq<char>, Seq<char>> {
    Map::new(
        |k: Seq<char>| pos_of(entry_keys(e), k) is Some,
        |k: Seq<char>| e[pos_of(entry_keys(e), k)->0].1@,
    )
}

/// `v` lists the entries of `m`, each key once, ascending by key.
pub open spec fn sorted_listing(m: Map<Seq<char>, Seq<char>>, v: Seq<(String, String)>) -> bool {
    &&& forall|i: int| 0 <= i < v.len() ==> m.contains_key(#[trigger] v[i].0@) && m[v[i].0@] == v[i].1@
    &&& forall|k: Seq<char>| m.contains_key(k) ==> exists|i: int| 0 <= i < v.len() && #[trigger] v[i].0@ == k
    &&& forall|i: int, j: int| 0 <= i < j < v.len() ==> str_lt(#[trigger] v[i].0@, #[trigger] v[j].0@)
}

/// What `serde_json::to_string_pretty` writes for a `BTreeMap` of strings
/// holding the entries of `m`.
pub uninterp spec fn spec_json_map_text_pretty(m: Map<Seq<char>, Seq<char>>) -> Seq<char>;

/// What `serde_json::to_string` writes for a `BTreeMap` of strings holding the
/// entries of `m`.
pub uninterp spec fn spec_json_map_text(m: Map<Seq<char>, Seq<char>>) -> Seq<char>;

/// Calls `serde_json::to_string_pretty` on the map's entries gathered into a
/// `BTreeMap` (one entry per key, the map's keys being unique). The text depends
/// on the entries alone; the contract names it and states nothing of the JSON
/// layout. Serialising a map of strings does not fail.
#[verifier::external_body]
pub(crate) fn json_text_pretty(map: &StringMap) -> (r: String)
    requires
        map.wf(),
    ensures
        r@ == spec_json_map_text_pretty(map@),
{
    let m: std::collections::BTreeMap<&str, &str> = map.entries.iter().map(|(k, v)| (k.as_str(), v.as_str())).collect();
    serde_json::to_string_pretty(&m).unwrap_or_default()
}

/// Calls `serde_json::to_string` on the map's entries gathered into a
/// `BTreeMap` (one entry per key, the map's keys being unique). The text depends
/// on the entries alone; the contract names it and states nothing of the JSON
/// layout. Serialising a map of strings does not fail.
#[verifier::external_body]
pub(crate) fn json_text_compact(map: &StringMap) -> (r: String)
    requires
        map.wf(),
    ensures
        r@ == spec_json_map_text(map@),
{
    let m: std::collections::BTreeMap<&str, &str> = map.entries.iter().map(|(k, v)| (k.as_str(), v.as_str())).collect();
    serde_json::to_string(&m).unwrap_or_default()
}

impl View for StringMap {
    type V = Map<Seq<char>, Seq<char>>;

    closed spec fn view(&self) -> Map<Seq<char>, Seq<char>> {
        entries_map(self.entries@)
    }
}

impl StringMap {
    /// The map's keys are unique.
    pub closed spec fn wf(&self) -> bool {
        unique(entry_keys(self.entries@))
    }

    /// An empty map.
    pub fn new() -> (r: Self)
        ensures
            r.wf(),
            r@ == Map::<Seq<char>, Seq<char>>::empty(),
    {
        let r = StringMap { entries: Vec::new() };
        proof {
            assert(r@ =~= Map::<Seq<char>, Seq<char>>::empty());
        }
        r
    }

    fn find(&self, key: &str) -> (r: Option<usize>)
        ensures
            match r {
                Some(i) => pos_of(entry_keys(self.entries@), key@) == Some(i as int) && i < self.entries@.len(),
                None => pos_of(entry_keys(self.entries@), key@) is None,
            },
    {
        proof {
            lemma_pos_of(entry_keys(self.entries@), key@);
        }
        let mut i: usize = 0;
        while i < self.entries.len()
            invariant
                i <= self.entries@.len(),
                forall|j: int| 0 <= j < i ==> entry_keys(self.entries@)[j] != key@,
                match pos_of(entry_keys(self.entries@), key@) {
                    Some(p) => 0 <= p < self.entries@.len() && entry_keys(self.entries@)[p] == key@
                        && forall|j: int| 0 <= j < p ==> entry_keys(self.entries@)[j] != key@,
                    None => forall|j: int|
                        0 <= j < self.entries@.len() ==> entry_keys(self.entries@)[j] != key@,
                },
            decreases self.entries.len() - i,
        {
            if str_equal(self.entries[i].0.as_str(), key) {
                proof {
                    assert(entry_keys(self.entries@)[i as int] == key@);
                }
                return Some(i);
            }
            i = i + 1;
        }
        None
    }

    /// The value stored under `key`.
    pub fn get(&self, key: &str) -> (r: Option<&String>)
        requires
            self.wf(),
        ensures
            match r {
                Some(v) => self@.contains_key(key@) && self@[key@] == v@,
                None => !self@.contains_key(key@),
            },
    {
        match self.find(key) {
            Some(i) => Some(&self.entries[i].1),
            None => None,
        }
    }

    /// Whether `key` has a value.
    pub fn contains_key(&self, key: &str) -> (b: bool)
        requires
            self.wf(),
        ensures
            b == self@.contains_key(key@),
    {
        self.find(key).is_some()
    }

    /// Store `value` under `key`, replacing any earlier value.
    pub fn insert(&mut self, key: &str, value: &str)
        requires
            old(self).wf(),
        ensures
            final(self).wf(),
            final(self)@ == old(self)@.insert(key@, value@),
    {
        let ghost old_e = self.entries@;
        let pair = (key.to_owned(), value.to_owned());
        match self.find(key) {
            Some(i) => {
                self.entries.set(i, pair);
                proof {
                    lemma_pos_of(entry_keys(old_e), key@);
                    assert(entry_keys(self.entries@) =~= entry_keys(old_e));
                    assert forall|k: Seq<char>| #[trigger] self@.contains_key(k) == old(self)@.insert(key@, value@).contains_key(k)
                        && (self@.contains_key(k) ==> self@[k] == old(self)@.insert(key@, value@)[k]) by {
                        lemma_pos_of(entry_keys(old_e), k);
                    }
                    assert(self@ =~= old(self)@.insert(key@, value@));
                }
            },
            None => {
                self.entries.push(pair);
                proof {
                    assert(entry_keys(self.entries@) =~= entry_keys(old_e).push(key@));
                    lemma_unique_push(entry_keys(old_e), key@);
                    assert forall|k: Seq<char>| #[trigger] self@.contains_key(k) == old(self)@.insert(key@, value@).contains_key(k)
                        && (self@.contains_key(k) ==> self@[k] == old(self)@.insert(key@, value@)[k]) by {
                        lemma_pos_of_push(entry_keys(old_e), key@, k);
                        lemma_pos_of(entry_keys(old_e), k);
                    }
                    assert(self@ =~= old(self)@.insert(key@, value@));
                }
            },
        }
    }

    /// Remove the value under `key`, if any.
    pub fn remove(&mut self, key: &str)
        requires
            old(self).wf(),
        ensures
            final(self).wf(),
            final(self)@ == old(self)@.remove(key@),
    {
        let ghost old_e = self.entries@;
        match self.find(key) {
            Some(i) => {
                self.entries.remove(i);
                proof {
                    lemma_pos_of(entry_keys(old_e), key@);
                    assert(entry_keys(self.entries@) =~= entry_keys(old_e).remove(i as int));
                    lemma_unique_remove(entry_keys(old_e), i as int);
                    assert forall|k: Seq<char>| #[trigger] self@.contains_key(k) == old(self)@.remove(key@).contains_key(k)
                        && (self@.contains_key(k) ==> self@[k] == old(self)@.remove(key@)[k]) by {
                        lemma_pos_of(entry_keys(old_e), k);
                        if k != key@ {
                            lemma_pos_of_remove(entry_keys(old_e), i as int, k);
                        } else {
                            lemma_pos_of(entry_keys(self.entries@), k);
                            if pos_of(entry_keys(self.entries@), k) is Some {
                                let p = pos_of(entry_keys(self.entries@), k)->0;
                                let q = if p < i { p } else { p + 1 };
                                assert(entry_keys(old_e)[q] == k);
                            }
                        }
                    }
                    assert(self@ =~= old(self)@.remove(key@));
                }
            },
            None => {
                proof {
                    assert(self@ =~= old(self)@.remove(key@));
                }
            },
        }
    }

    /// A copy of this map.
    pub fn duplicate(&self) -> (r: Self)
        ensures
            r@ == self@,
            r.wf() == self.wf(),
    {
        let mut entries: Vec<(String, String)> = Vec::new();
        let mut i: usize = 0;
        while i < self.entries.len()
            invariant
                i <= self.entries@.len(),
                entries@ == self.entries@.take(i as int),
            decreases self.entries.len() - i,
        {
            let e = &self.entries[i];
            entries.push((e.0.clone(), e.1.clone()));
            proof {
                assert(entries@ =~= self.entries@.take(i + 1));
            }
            i = i + 1;
        }
        proof {
            assert(entries@ =~= self.entries@);
        }
        StringMap { entries }
    }

    /// Remove every entry.
    pub fn clear(&mut self)
        ensures
            final(self).wf(),
            final(self)@ == Map::<Seq<char>, Seq<char>>::empty(),
    {
        self.entries = Vec::new();
        proof {
            assert(self@ =~= Map::<Seq<char>, Seq<char>>::empty());
        }
    }

    /// Every entry, ascending by key.
    pub fn sorted_entries(&self) -> (r: Vec<(String, String)>)
        requires
            self.wf(),
        ensures
            sorted_listing(self@, r@),
    {
        let mut keys: Vec<String> = Vec::new();
        let mut i: usize = 0;
        while i < self.entries.len()
            invariant
                i <= self.entries@.len(),
                views(keys@) == entry_keys(self.entries@).take(i as int),
                keys@.len() == i,
            decreases self.entries.len() - i,
        {
            keys.push(self.entries[i].0.clone());
            proof {
                assert(views(keys@) =~= entry_keys(self.entries@).take(i + 1));
            }
            i = i + 1;
        }
        proof {
            assert(views(keys@) =~= entry_keys(self.entries@));
        }
        let perm = sort_positions_str(&keys);
        let mut out: Vec<(String, String)> = Vec::new();
        let mut q: usize = 0;
        while q < perm.len()
            invariant
                stably_sorted_str(views(keys@), perm@),
                keys@.len() == self.entries@.len(),
                q <= perm@.len(),
                out@.len() == q,
                forall|t: int|
                    0 <= t < q ==> (#[trigger] out@[t]).0@ == self.entries@[perm@[t] as int].0@
                        && out@[t].1@ == self.entries@[perm@[t] as int].1@,
            decreases perm.len() - q,
        {
            let e = &self.entries[perm[q]];
            out.push((e.0.clone(), e.1.clone()));
            q = q + 1;
        }
        proof {
            let ek = entry_keys(self.entries@);
            assert forall|t: int| 0 <= t < out@.len() implies self@.contains_key(#[trigger] out@[t].0@)
                && self@[out@[t].0@] == out@[t].1@ by {
                let f = perm@[t] as int;
                assert(ek[f] == out@[t].0@);
                crate::memory::lemma_pos_of_unique(ek, out@[t].0@, f);
            }
            assert forall|k: Seq<char>| self@.contains_key(k) implies exists|t: int|
                0 <= t < out@.len() && #[trigger] out@[t].0@ == k by {
                lemma_pos_of(ek, k);
                let f = pos_of(ek, k)->0;
                assert(crate::sort::lists(perm@, f));
                let t = choose|t: int| 0 <= t < perm@.len() && perm@[t] == f;
                assert(out@[t].0@ == k);
            }
            assert forall|a: int, b: int| 0 <= a < b < out@.len() implies str_lt(
                #[trigger] out@[a].0@,
                #[trigger] out@[b].0@,
            ) by {
                let fa = perm@[a] as int;
                let fb = perm@[b] as int;
                assert(crate::sort::str_before(views(keys@), fa, fb));
                assert(views(keys@)[fa] == ek[fa]);
                assert(views(keys@)[fb] == ek[fb]);
                if fa != fb {
                    assert(ek[fa] != ek[fb]);
                }
            }
        }
        out
    }
}

} // verus!

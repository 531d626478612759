//! A read-through cache of entity files: each entry holds the file's content
//! and its modification stamp when read; a read reuses the entry only while the
//! file's stamp is unchanged.

use vstd::prelude::*;

use crate::memory::{lemma_pos_of, lemma_pos_of_push, lemma_pos_of_remove, lemma_unique_push, lemma_unique_remove, pos_of, unique};
use crate::text::str_equal;

verus! {

/// A file's modification time: whole seconds and nanoseconds since the epoch.
#[derive(Debug, Clone, Copy, PartialEq, Eq, Structural)]
pub struct FileStamp {
    pub secs: u64,
    pub nanos: u32,
}

/// Cached file contents keyed by path.
pub struct FileCache {
    entries: Vec<(String, FileStamp, String)>,
}

/// The paths of a list of cache entries.
pub open spec fn cache_paths(e: Seq<(String, FileStamp, String)>) -> Seq<Seq<char>> {
    e.map_values(|x: (String, FileStamp, String)| x.0@)
}

impl View for FileCache {
    type V = Map<Seq<char>, (FileStamp, Seq<char>)>;

    closed spec fn view(&self) -> Map<Seq<char>, (FileStamp, Seq<char>)> {
        Map::new(
            |p: Seq<char>| pos_of(cache_paths(self.entries@), p) is Some,
            |p: Seq<char>| {
                let e = self.entries@[pos_of(cache_paths(self.entries@), p)->0];
                (e.1, e.2@)
            },
        )
    }
}

impl FileCache {
    /// No path is cached twice.
    pub closed spec fn wf(&self) -> bool {
        unique(cache_paths(self.entries@))
    }

    /// An empty cache.
    pub fn new() -> (r: Self)
        ensures
            r.wf(),
            r@ == Map::<Seq<char>, (FileStamp, Seq<char>)>::empty(),
    {
        let r = FileCache { entries: Vec::new() };
        proof {
            assert(r@ =~= Map::<Seq<char>, (FileStamp, Seq<char>)>::empty());
        }
        r
    }

    fn find(&self, path: &str) -> (r: Option<usize>)
        ensures
            match r {
                Some(i) => pos_of(cache_paths(self.entries@), path@) == Some(i as int) && i < self.entries@.len(),
                None => pos_of(cache_paths(self.entries@), path@) is None,
            },
    {
        let ghost ks = cache_paths(self.entries@);
        proof {
            lemma_pos_of(ks, path@);
        }
        let mut i: usize = 0;
        while i < self.entries.len()
            invariant
                ks == cache_paths(self.entries@),
                i <= self.entries@.len(),
                forall|j: int| 0 <= j < i ==> ks[j] != path@,
                match pos_of(ks, path@) {
                    Some(p) => 0 <= p < ks.len() && ks[p] == path@ && forall|j: int| 0 <= j < p ==> ks[j] != path@,
                    None => forall|j: int| 0 <= j < ks.len() ==> ks[j] != path@,
                },
            decreases self.entries.len() - i,
        {
            if str_equal(self.entries[i].0.as_str(), path) {
                proof {
                    assert(ks[i as int] == path@);
                }
                return Some(i);
            }
            i = i + 1;
        }
        None
    }

    /// The cached content of `path`, when it was read at modification stamp
    /// `stamp`; `None` when not cached or the file has changed since.
    pub fn lookup(&self, path: &str, stamp: FileStamp) -> (r: Option<&String>)
        ensures
            match r {
                Some(c) => self@.contains_key(path@) && self@[path@] == (stamp, c@),
                None => !self@.contains_key(path@) || self@[path@].0 != stamp,
            },
    {
        match self.find(path) {
            Some(i) => {
                let e = &self.entries[i];
                if e.1 == stamp {
                    Some(&e.2)
                } else {
                    None
                }
            },
            None => None,
        }
    }

    /// Cache `content` as read from `path` at `stamp`.
    pub fn store(&mut self, path: &str, stamp: FileStamp, content: &str)
        requires
            old(self).wf(),
        ensures
            final(self).wf(),
            final(self)@ == old(self)@.insert(path@, (stamp, content@)),
    {
        let ghost old_e = self.entries@;
        let ghost ks = cache_paths(old_e);
        let e = (path.to_owned(), stamp, content.to_owned());
        match self.find(path) {
            Some(i) => {
                self.entries.set(i, e);
                proof {
                    lemma_pos_of(ks, path@);
                    assert(cache_paths(self.entries@) =~= ks);
                    assert forall|p: Seq<char>| #[trigger] self@.contains_key(p) == old(self)@.insert(path@, (stamp, content@)).contains_key(p)
                        && (self@.contains_key(p) ==> self@[p] == old(self)@.insert(path@, (stamp, content@))[p]) by {
                        lemma_pos_of(ks, p);
                    }
                    assert(self@ =~= old(self)@.insert(path@, (stamp, content@)));
                }
            },
            None => {
                self.entries.push(e);
                proof {
                    assert(cache_paths(self.entries@) =~= ks.push(path@));
                    lemma_unique_push(ks, path@);
                    assert forall|p: Seq<char>| #[trigger] self@.contains_key(p) == old(self)@.insert(path@, (stamp, content@)).contains_key(p)
                        && (self@.contains_key(p) ==> self@[p] == old(self)@.insert(path@, (stamp, content@))[p]) by {
                        lemma_pos_of_push(ks, path@, p);
                        lemma_pos_of(ks, p);
                    }
                    assert(self@ =~= old(self)@.insert(path@, (stamp, content@)));
                }
            },
        }
    }

    /// Drop the cached content of `path`; the next read goes to the file.
    pub fn invalidate(&mut self, path: &str)
        requires
            old(self).wf(),
        ensures
            final(self).wf(),
            final(self)@ == old(self)@.remove(path@),
    {
        let ghost old_e = self.entries@;
        let ghost ks = cache_paths(old_e);
        match self.find(path) {
            Some(i) => {
                self.entries.remove(i);
                proof {
                    lemma_pos_of(ks, path@);
                    assert(cache_paths(self.entries@) =~= ks.remove(i as int));
                    lemma_unique_remove(ks, i as int);
                    assert forall|p: Seq<char>| #[trigger] self@.contains_key(p) == old(self)@.remove(path@).contains_key(p)
                        && (self@.contains_key(p) ==> self@[p] == old(self)@.remove(path@)[p]) by {
                        lemma_pos_of(ks, p);
                        if p != path@ {
                            lemma_pos_of_remove(ks, i as int, p);
                        } else {
                            lemma_pos_of(cache_paths(self.entries@), p);
                            if pos_of(cache_paths(self.entries@), p) is Some {
                                let q0 = pos_of(cache_paths(self.entries@), p)->0;
                                let q = if q0 < i { q0 } else { q0 + 1 };
                                assert(ks[q] == p);
                            }
                        }
                    }
                    assert(self@ =~= old(self)@.remove(path@));
                }
            },
            None => {
                proof {
                    assert(self@ =~= old(self)@.remove(path@));
                }
            },
        }
    }
}

} // verus!

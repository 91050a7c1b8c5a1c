//! An association table keyed by strings, with unique keys.
//!
//! The session table, the CSRF-session store, the signing-key cache and
//! the pending-logout-token map are all string-keyed tables; this module
//! is their shared backing store. Contracts are stated pointwise over
//! `spec_get`, so callers can frame what an update does to every key.

use crate::util::str_eq;
use vstd::prelude::*;

verus! {

/// A table of entries keyed by strings. Keys are pairwise distinct.
#[derive(Debug)]
pub struct StrMap<V> {
    entries: Vec<(String, V)>,
}

impl<V> StrMap<V> {
    /// The entries in storage order, with keys as character sequences.
    pub closed spec fn entry_seq(&self) -> Seq<(Seq<char>, V)> {
        self.entries@.map_values(|e: (String, V)| (e.0@, e.1))
    }

    /// Keys are pairwise distinct.
    pub open spec fn wf(&self) -> bool {
        forall|i: int, j: int|
            0 <= i < j < self.entry_seq().len() ==> (#[trigger] self.entry_seq()[i]).0 != (
            #[trigger] self.entry_seq()[j]).0
    }

    pub open spec fn spec_len(&self) -> nat {
        self.entry_seq().len()
    }

    pub open spec fn spec_contains(&self, k: Seq<char>) -> bool {
        exists|i: int|
            0 <= i < self.entry_seq().len() && (#[trigger] self.entry_seq()[i]).0 == k
    }

    pub open spec fn spec_index_of(&self, k: Seq<char>) -> int {
        choose|i: int|
            0 <= i < self.entry_seq().len() && (#[trigger] self.entry_seq()[i]).0 == k
    }

    /// The value stored under `k`, if any.
    pub open spec fn spec_get(&self, k: Seq<char>) -> Option<V> {
        if self.spec_contains(k) {
            Some(self.entry_seq()[self.spec_index_of(k)].1)
        } else {
            None
        }
    }

    /// In a well-formed table, the entry at index `i` is what lookup of
    /// its key yields.
    pub proof fn lemma_entry_get(&self, i: int)
        requires
            self.wf(),
            0 <= i < self.entry_seq().len(),
        ensures
            self.spec_contains(self.entry_seq()[i].0),
            self.spec_get(self.entry_seq()[i].0) == Some(self.entry_seq()[i].1),
    {
        let k = self.entry_seq()[i].0;
        assert(self.spec_contains(k));
        let j = self.spec_index_of(k);
        if i != j {
            assert(self.entry_seq()[i].0 != self.entry_seq()[j].0);
        }
    }

    pub fn new() -> (r: Self)
        ensures
            r.wf(),
            r.spec_len() == 0,
            forall|q: Seq<char>| #[trigger] r.spec_get(q) is None,
    {
        let r = StrMap { entries: Vec::new() };
        proof {
            assert(r.entry_seq() =~= Seq::<(Seq<char>, V)>::empty());
            assert forall|q: Seq<char>| #[trigger] r.spec_get(q) is None by {
                assert(!r.spec_contains(q));
            }
        }
        r
    }

    pub fn len(&self) -> (r: usize)
        ensures
            r == self.spec_len(),
    {
        self.entries.len()
    }

    pub fn key_at(&self, i: usize) -> (r: &String)
        requires
            i < self.spec_len(),
        ensures
            r@ == self.entry_seq()[i as int].0,
    {
        &self.entries[i].0
    }

    pub fn value_at(&self, i: usize) -> (r: &V)
        requires
            i < self.spec_len(),
        ensures
            *r == self.entry_seq()[i as int].1,
    {
        &self.entries[i].1
    }

    fn find_index(&self, k: &str) -> (r: Option<usize>)
        requires
            self.wf(),
        ensures
            match r {
                Some(i) => i < self.spec_len() && self.entry_seq()[i as int].0 == k@
                    && self.spec_contains(k@),
                None => !self.spec_contains(k@),
            },
    {
        let n = self.entries.len();
        let mut i: usize = 0;
        while i < n
            invariant
                i <= n,
                n == self.spec_len(),
                self.wf(),
                forall|j: int| 0 <= j < i ==> (#[trigger] self.entry_seq()[j]).0 != k@,
            decreases n - i,
        {
            if str_eq(self.entries[i].0.as_str(), k) {
                return Some(i);
            }
            i = i + 1;
        }
        proof {
            if self.spec_contains(k@) {
                let j = self.spec_index_of(k@);
                assert(self.entry_seq()[j].0 != k@);
            }
        }
        None
    }

    pub fn get(&self, k: &str) -> (r: Option<&V>)
        requires
            self.wf(),
        ensures
            match r {
                Some(v) => self.spec_get(k@) == Some(*v),
                None => self.spec_get(k@) is None,
            },
    {
        match self.find_index(k) {
            Some(i) => {
                proof {
                    self.lemma_entry_get(i as int);
                }
                Some(&self.entries[i].1)
            },
            None => None,
        }
    }

    /// Removes the entry under `k`, if any, and returns its value.
    pub fn remove(&mut self, k: &str) -> (r: Option<V>)
        requires
            old(self).wf(),
        ensures
            final(self).wf(),
            r == old(self).spec_get(k@),
            final(self).spec_get(k@) is None,
            forall|q: Seq<char>|
                q != k@ ==> #[trigger] final(self).spec_get(q) == old(self).spec_get(q),
            old(self).spec_contains(k@) ==> final(self).spec_len() == old(self).spec_len() - 1,
            !old(self).spec_contains(k@) ==> final(self).spec_len() == old(self).spec_len(),
    {
        let found = self.find_index(k);
        match found {
            None => {
                proof {
                    assert(old(self).spec_get(k@) is None);
                }
                None
            },
            Some(i) => {
                proof {
                    self.lemma_entry_get(i as int);
                }
                let ghost pre = *self;
                let (_, v) = self.entries.remove(i);
                proof {
                    assert(self.entry_seq() =~= pre.entry_seq().remove(i as int));
                    lemma_remove_frame(pre, *self, i as int, k@);
                }
                Some(v)
            },
        }
    }

    /// Inserts `v` under `k`, replacing any existing entry.
    pub fn insert(&mut self, k: String, v: V)
        requires
            old(self).wf(),
        ensures
            final(self).wf(),
            final(self).spec_get(k@) == Some(v),
            forall|q: Seq<char>|
                q != k@ ==> #[trigger] final(self).spec_get(q) == old(self).spec_get(q),
            final(self).spec_len() <= old(self).spec_len() + 1,
    {
        let _ = self.remove(k.as_str());
        let ghost mid = *self;
        self.entries.push((k, v));
        proof {
            assert(self.entry_seq() =~= mid.entry_seq().push((k@, v)));
            lemma_push_frame(mid, *self, k@, v);
        }
    }

    /// Removes every entry whose key occurs in `keys`; all other
    /// entries are untouched.
    pub fn remove_keys(&mut self, keys: &Vec<String>)
        requires
            old(self).wf(),
        ensures
            final(self).wf(),
            forall|t: Seq<char>|
                #[trigger] final(self).spec_get(t) == (if exists|m: int|
                    0 <= m < keys@.len() && (#[trigger] keys@[m])@ == t {
                    None::<V>
                } else {
                    old(self).spec_get(t)
                }),
    {
        let ghost pre = *self;
        let n = keys.len();
        let mut j: usize = 0;
        while j < n
            invariant
                j <= n,
                n == keys@.len(),
                self.wf(),
                forall|t: Seq<char>|
                    #[trigger] self.spec_get(t) == (if exists|m: int|
                        0 <= m < j && (#[trigger] keys@[m])@ == t {
                        None::<V>
                    } else {
                        pre.spec_get(t)
                    }),
            decreases n - j,
        {
            let ghost mid = *self;
            let _ = self.remove(keys[j].as_str());
            proof {
                let kj = keys@[j as int]@;
                assert forall|t: Seq<char>| true implies #[trigger] self.spec_get(t) == (
                if exists|m: int| 0 <= m < j + 1 && (#[trigger] keys@[m])@ == t {
                    None::<V>
                } else {
                    pre.spec_get(t)
                }) by {
                    if t == kj {
                        assert(0 <= j < j + 1 && (keys@[j as int])@ == t);
                        assert(self.spec_get(t) is None);
                    } else {
                        assert(self.spec_get(t) == mid.spec_get(t));
                        if exists|m: int| 0 <= m < j && (#[trigger] keys@[m])@ == t {
                            let m = choose|m: int| 0 <= m < j && (#[trigger] keys@[m])@ == t;
                            assert(0 <= m < j + 1 && (keys@[m])@ == t);
                            assert(mid.spec_get(t) is None);
                        } else {
                            if exists|m: int| 0 <= m < j + 1 && (#[trigger] keys@[m])@ == t {
                                let m = choose|m: int|
                                    0 <= m < j + 1 && (#[trigger] keys@[m])@ == t;
                                assert(m == j);
                                assert(false);
                            }
                            assert(mid.spec_get(t) == pre.spec_get(t));
                        }
                    }
                }
            }
            j = j + 1;
        }
    }
}

/// After removing the entry at index `i`, whose key is `k`, every other
/// key maps as before and `k` is absent.
proof fn lemma_remove_frame<V>(pre: StrMap<V>, post: StrMap<V>, i: int, k: Seq<char>)
    requires
        pre.wf(),
        0 <= i < pre.entry_seq().len(),
        pre.entry_seq()[i].0 == k,
        post.entry_seq() == pre.entry_seq().remove(i),
    ensures
        post.wf(),
        !post.spec_contains(k),
        forall|q: Seq<char>| q != k ==> #[trigger] post.spec_get(q) == pre.spec_get(q),
{
    let pres = pre.entry_seq();
    let posts = post.entry_seq();
    assert forall|a: int, b: int| 0 <= a < b < posts.len() implies (#[trigger] posts[a]).0 != (
    #[trigger] posts[b]).0 by {
        let a2: int = if a < i {
            a
        } else {
            a + 1
        };
        let b2: int = if b < i {
            b
        } else {
            b + 1
        };
        assert(posts[a] == pres[a2]);
        assert(posts[b] == pres[b2]);
    }
    assert(post.wf());
    if post.spec_contains(k) {
        let j = post.spec_index_of(k);
        let j2: int = if j < i {
            j
        } else {
            j + 1
        };
        assert(pres[j2].0 == k);
        if j2 != i {
            assert(pres[j2].0 != pres[i].0);
        }
        assert(false);
    }
    assert forall|q: Seq<char>| q != k implies #[trigger] post.spec_get(q) == pre.spec_get(
        q,
    ) by {
        if pre.spec_contains(q) {
            let j = pre.spec_index_of(q);
            assert(pres[j].0 == q);
            assert(j != i);
            let j2: int = if j < i {
                j
            } else {
                j - 1
            };
            assert(posts[j2] == pres[j]);
            post.lemma_entry_get(j2);
            pre.lemma_entry_get(j);
        } else {
            if post.spec_contains(q) {
                let j = post.spec_index_of(q);
                let j2: int = if j < i {
                    j
                } else {
                    j + 1
                };
                assert(pres[j2].0 == q);
                assert(pre.spec_contains(q));
                assert(false);
            }
        }
    }
}

/// After appending an entry with a key that is absent, that key maps to
/// the new value and every other key maps as before.
proof fn lemma_push_frame<V>(pre: StrMap<V>, post: StrMap<V>, k: Seq<char>, v: V)
    requires
        pre.wf(),
        !pre.spec_contains(k),
        post.entry_seq() == pre.entry_seq().push((k, v)),
    ensures
        post.wf(),
        post.spec_get(k) == Some(v),
        forall|q: Seq<char>| q != k ==> #[trigger] post.spec_get(q) == pre.spec_get(q),
        post.spec_len() == pre.spec_len() + 1,
{
    let pres = pre.entry_seq();
    let posts = post.entry_seq();
    let n = pres.len() as int;
    assert forall|a: int, b: int| 0 <= a < b < posts.len() implies (#[trigger] posts[a]).0 != (
    #[trigger] posts[b]).0 by {
        if b < n {
            assert(posts[a] == pres[a]);
            assert(posts[b] == pres[b]);
        } else {
            assert(posts[b].0 == k);
            assert(posts[a] == pres[a]);
            if pres[a].0 == k {
                assert(pre.spec_contains(k));
            }
        }
    }
    assert(post.wf());
    assert(posts[n].0 == k);
    post.lemma_entry_get(n);
    assert forall|q: Seq<char>| q != k implies #[trigger] post.spec_get(q) == pre.spec_get(
        q,
    ) by {
        if pre.spec_contains(q) {
            let j = pre.spec_index_of(q);
            assert(pres[j].0 == q);
            assert(posts[j] == pres[j]);
            post.lemma_entry_get(j);
            pre.lemma_entry_get(j);
        } else {
            if post.spec_contains(q) {
                let j = post.spec_index_of(q);
                assert(posts[j].0 == q);
                if j < n {
                    assert(pres[j].0 == q);
                    assert(pre.spec_contains(q));
                }
                assert(false);
            }
        }
    }
}

} // verus!

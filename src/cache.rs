//! The resource cache: each external tileset or template, keyed by its
//! canonical path, is loaded at most once and shared through a handle by
//! every map that references it.

use crate::error::Error;
use vstd::prelude::*;

verus! {

/// Whether no key occurs twice.
pub open spec fn unique_keys(keys: Seq<Seq<char>>) -> bool {
    forall|i: int, j: int| 0 <= i < j < keys.len() ==> keys[i] != keys[j]
}

/// The handle of `p` among `keys`: the index where it stands, if it does.
pub open spec fn lookup(keys: Seq<Seq<char>>, p: Seq<char>) -> Option<int> {
    if keys.contains(p) {
        Some(choose|i: int| 0 <= i < keys.len() && keys[i] == p)
    } else {
        None
    }
}

/// The keys after `p` is inserted: unchanged where `p` is present, else `p`
/// appended.
pub open spec fn inserted_keys(keys: Seq<Seq<char>>, p: Seq<char>) -> Seq<Seq<char>> {
    if keys.contains(p) {
        keys
    } else {
        keys.push(p)
    }
}

/// Resources keyed by canonical path; a handle is the index of an entry, which
/// never moves or changes once inserted.
pub struct ResourceCache<T> {
    paths: Vec<String>,
    items: Vec<T>,
}

impl<T> ResourceCache<T> {
    /// The canonical paths of the entries, in order of insertion.
    pub closed spec fn keys(&self) -> Seq<Seq<char>> {
        self.paths@.map_values(|s: String| s@)
    }

    /// The resources of the entries, in order of insertion.
    pub closed spec fn resources(&self) -> Seq<T> {
        self.items@
    }

    /// One resource per path, and no path twice.
    pub open spec fn wf(&self) -> bool {
        &&& self.keys().len() == self.resources().len()
        &&& unique_keys(self.keys())
    }

    /// An empty cache.
    pub fn new() -> (r: Self)
        ensures
            r.wf(),
            r.keys() == Seq::<Seq<char>>::empty(),
            r.resources() == Seq::<T>::empty(),
    {
        let r = ResourceCache { paths: Vec::new(), items: Vec::new() };
        assert(r.keys() =~= Seq::<Seq<char>>::empty());
        r
    }

    /// The number of entries.
    pub fn len(&self) -> (r: usize)
        requires
            self.wf(),
        ensures
            r == self.keys().len(),
    {
        self.paths.len()
    }

    /// The handle of `path`, or `None` where nothing is cached under it.
    pub fn get(&self, path: &str) -> (r: Option<usize>)
        requires
            self.wf(),
        ensures
            r matches Some(h) ==> h < self.keys().len() && self.keys()[h as int] == path@,
            r is None <==> !self.keys().contains(path@),
            r matches Some(h) ==> lookup(self.keys(), path@) == Some(h as int),
    {
        let key = String::from_str(path);
        let mut i: usize = 0;
        while i < self.paths.len()
            invariant
                self.wf(),
                key@ == path@,
                i <= self.paths@.len(),
                forall|j: int| 0 <= j < i ==> self.keys()[j] != path@,
            decreases self.paths@.len() - i,
        {
            if self.paths[i] == key {
                proof {
                    assert(self.keys()[i as int] == path@);
                    let c = choose|c: int| 0 <= c < self.keys().len() && self.keys()[c] == path@;
                    assert(c == i);
                }
                return Some(i);
            }
            i += 1;
        }
        assert(!self.keys().contains(path@));
        None
    }

    /// The resource behind a handle.
    pub fn resource(&self, handle: usize) -> (r: &T)
        requires
            self.wf(),
            handle < self.keys().len(),
        ensures
            *r == self.resources()[handle as int],
    {
        &self.items[handle]
    }

    /// Inserts `value` under `path`, where nothing is cached under it yet, and
    /// returns the handle of `path`. Where `path` is already cached the first
    /// entry wins: `value` is dropped and the cache is unchanged.
    pub fn insert(&mut self, path: &str, value: T) -> (r: usize)
        requires
            old(self).wf(),
        ensures
            final(self).wf(),
            final(self).keys() == inserted_keys(old(self).keys(), path@),
            old(self).keys().contains(path@) ==> final(self).resources() == old(self).resources(),
            !old(self).keys().contains(path@) ==> final(self).resources() == old(
                self,
            ).resources().push(value),
            lookup(final(self).keys(), path@) == Some(r as int),
            r < final(self).keys().len(),
    {
        match self.get(path) {
            Some(h) => h,
            None => {
                let ghost old_keys = self.keys();
                self.paths.push(String::from_str(path));
                self.items.push(value);
                let h = self.paths.len() - 1;
                proof {
                    assert(self.keys() =~= old_keys.push(path@));
                    assert(self.keys()[h as int] == path@);
                    assert(self.keys().contains(path@));
                    let c = choose|c: int| 0 <= c < self.keys().len() && self.keys()[c] == path@;
                    if c != h {
                        assert(old_keys[c] == path@);
                    }
                }
                h
            },
        }
    }

    /// The handle of `path`, loading the resource with `load` only where
    /// nothing is cached under it yet. A failed load leaves the cache as it was.
    pub fn get_or_load<F: FnOnce() -> Result<T, Error>>(&mut self, path: &str, load: F) -> (r:
        Result<usize, Error>)
        requires
            old(self).wf(),
            load.requires(()),
        ensures
            final(self).wf(),
            old(self).keys().contains(path@) ==> final(self).keys() == old(self).keys()
                && final(self).resources() == old(self).resources() && r == Ok::<usize, Error>(
                lookup(old(self).keys(), path@)->0 as usize),
            !old(self).keys().contains(path@) ==> match r {
                Ok(h) => exists|v: T|
                    load.ensures((), Ok::<T, Error>(v)) && final(self).keys() == old(
                        self,
                    ).keys().push(path@) && final(self).resources() == old(self).resources().push(v)
                        && h == old(self).keys().len(),
                Err(e) => load.ensures((), Err::<T, Error>(e)) && final(self).keys() == old(
                    self,
                ).keys() && final(self).resources() == old(self).resources(),
            },
    {
        match self.get(path) {
            Some(h) => Ok(h),
            None => match load() {
                Ok(v) => {
                    let ghost gv = v;
                    let h = self.insert(path, v);
                    proof {
                        let c = choose|c: int|
                            0 <= c < self.keys().len() && self.keys()[c] == path@;
                        assert(self.keys()[self.keys().len() - 1] == path@);
                        assert(c == self.keys().len() - 1);
                    }
                    Ok(h)
                },
                Err(e) => Err(e),
            },
        }
    }
}

/// Inserting a path that was just inserted changes nothing and finds the same
/// handle: a resource referenced by a second map is shared, not loaded again.
pub proof fn lemma_insert_idempotent(keys: Seq<Seq<char>>, p: Seq<char>)
    requires
        unique_keys(keys),
    ensures
        inserted_keys(keys, p).contains(p),
        unique_keys(inserted_keys(keys, p)),
        inserted_keys(inserted_keys(keys, p), p) == inserted_keys(keys, p),
        lookup(inserted_keys(inserted_keys(keys, p), p), p) == lookup(inserted_keys(keys, p), p),
{
    let k1 = inserted_keys(keys, p);
    if !keys.contains(p) {
        assert(k1[keys.len() as int] == p);
        assert forall|i: int, j: int| 0 <= i < j < k1.len() implies k1[i] != k1[j] by {
            if j == keys.len() {
                assert(keys[i] == k1[i]);
            }
        }
    }
    assert(k1.contains(p));
}

} // verus!

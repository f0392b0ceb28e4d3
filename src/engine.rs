use vstd::prelude::*;
use crate::span::LineColumn;
use crate::locations::{KindView, LocationsView, UnsafeLocations, UnsafeLocationKind, kinds_view, matching};
use crate::visitor::{SyntaxNode, tree_locations, locations_of};
use crate::error::Error;

verus! {

/// The index kept for one path.
pub struct CacheEntry {
    pub path: String,
    pub locations: UnsafeLocations,
}

/// A cache of per-file indexes, keyed by path, with at most one entry per path.
pub struct FindUnsafeRs {
    files: Vec<CacheEntry>,
}

/// What a query at `location` in the file `path` answers from the cache `m`.
pub open spec fn answer(m: Map<Seq<char>, LocationsView>, path: Seq<char>, location: LineColumn) -> Seq<KindView> {
    matching(m[path], location)
}

impl FindUnsafeRs {
    /// No two entries share a path.
    pub closed spec fn wf(&self) -> bool {
        forall|i: int, j: int|
            0 <= i < self.files@.len() && 0 <= j < self.files@.len() && i != j
                ==> self.files@[i].path@ != self.files@[j].path@
    }

    spec fn has_path(&self, p: Seq<char>) -> bool {
        exists|i: int| 0 <= i < self.files@.len() && self.files@[i].path@ == p
    }

    spec fn index_of(&self, p: Seq<char>) -> int {
        choose|i: int| 0 <= i < self.files@.len() && self.files@[i].path@ == p
    }
}

impl View for FindUnsafeRs {
    type V = Map<Seq<char>, LocationsView>;

    closed spec fn view(&self) -> Map<Seq<char>, LocationsView> {
        Map::new(|p: Seq<char>| self.has_path(p), |p: Seq<char>| self.files@[self.index_of(p)].locations@)
    }
}

impl FindUnsafeRs {
    proof fn lemma_entry(&self, i: int)
        requires
            self.wf(),
            0 <= i < self.files@.len(),
        ensures
            self@.contains_key(self.files@[i].path@),
            self@[self.files@[i].path@] == self.files@[i].locations@,
    {
        let p = self.files@[i].path@;
        assert(self.has_path(p));
        let j = self.index_of(p);
        assert(0 <= j < self.files@.len() && self.files@[j].path@ == p);
        assert(j == i);
    }

    proof fn lemma_view_finite(&self)
        ensures
            self@.dom().finite(),
    {
        let paths = self.files@.map_values(|e: CacheEntry| e.path@);
        assert forall|q: Seq<char>| #[trigger] self@.dom().contains(q) <==> paths.to_set().contains(q) by {
            if self.has_path(q) {
                let i = choose|i: int| 0 <= i < self.files@.len() && self.files@[i].path@ == q;
                assert(paths[i] == q);
            }
            if paths.contains(q) {
                let i = choose|i: int| 0 <= i < paths.len() && paths[i] == q;
                assert(self.files@[i].path@ == q);
            }
        }
        assert(self@.dom() =~= paths.to_set());
        vstd::seq_lib::seq_to_set_is_finite(paths);
    }

    /// An empty cache.
    pub fn new() -> (r: FindUnsafeRs)
        ensures
            r.wf(),
            r@ == Map::<Seq<char>, LocationsView>::empty(),
            r@.dom().finite(),
    {
        let r = FindUnsafeRs { files: Vec::new() };
        assert(r@ =~= Map::<Seq<char>, LocationsView>::empty());
        proof {
            r.lemma_view_finite();
        }
        r
    }

    fn find(&self, path: &String) -> (r: Option<usize>)
        requires
            self.wf(),
        ensures
            match r {
                Some(i) => i < self.files@.len() && self.files@[i as int].path@ == path@,
                None => !self@.contains_key(path@),
            },
    {
        let mut i: usize = 0;
        while i < self.files.len()
            invariant
                i <= self.files@.len(),
                forall|j: int| 0 <= j < i ==> self.files@[j].path@ != path@,
            decreases self.files@.len() - i,
        {
            if self.files[i].path == *path {
                return Some(i);
            }
            i += 1;
        }
        None
    }

    /// Whether an index for `path` is held.
    pub fn already_analyzed(&self, path: &str) -> (r: bool)
        requires
            self.wf(),
        ensures
            r == self@.contains_key(path@),
    {
        let key = path.to_owned();
        match self.find(&key) {
            Some(i) => {
                proof {
                    self.lemma_entry(i as int);
                }
                true
            },
            None => false,
        }
    }

    /// Puts `locations` in the cache for `path`, replacing any earlier entry.
    pub fn store(&mut self, path: &str, locations: UnsafeLocations)
        requires
            old(self).wf(),
        ensures
            final(self).wf(),
            final(self)@ == old(self)@.insert(path@, locations@),
            final(self)@.dom().finite(),
    {
        let key = path.to_owned();
        let ghost old_self = *self;
        let ghost loc = locations@;
        match self.find(&key) {
            Some(i) => {
                self.files.set(i, CacheEntry { path: key, locations });
                proof {
                    assert(self.wf());
                    assert forall|q: Seq<char>| #[trigger] self@.contains_key(q)
                        == old_self@.insert(path@, loc).contains_key(q) by {
                        if old_self.has_path(q) {
                            let j = old_self.index_of(q);
                            assert(self.files@[j].path@ == q);
                        }
                        if self.has_path(q) {
                            let j = self.index_of(q);
                            if j != i {
                                assert(old_self.files@[j].path@ == q);
                            }
                        }
                    }
                    assert forall|q: Seq<char>| #[trigger] self@.contains_key(q)
                        implies self@[q] == old_self@.insert(path@, loc)[q] by {
                        let j = self.index_of(q);
                        self.lemma_entry(j);
                        if j != i {
                            old_self.lemma_entry(j);
                        }
                    }
                    assert(self@ =~= old_self@.insert(path@, loc));
                }
            },
            None => {
                self.files.push(CacheEntry { path: key, locations });
                proof {
                    let n = old_self.files@.len() as int;
                    assert forall|a: int, b: int|
                        0 <= a < self.files@.len() && 0 <= b < self.files@.len() && a != b
                            implies self.files@[a].path@ != self.files@[b].path@ by {
                        if a == n {
                            assert(old_self.files@[b] == self.files@[b]);
                            assert(old_self.files@[b].path@ != path@);
                        } else if b == n {
                            assert(old_self.files@[a] == self.files@[a]);
                            assert(old_self.files@[a].path@ != path@);
                        } else {
                            assert(old_self.files@[a] == self.files@[a]);
                            assert(old_self.files@[b] == self.files@[b]);
                        }
                    }
                    assert(self.wf());
                    assert forall|q: Seq<char>| #[trigger] self@.contains_key(q)
                        == old_self@.insert(path@, loc).contains_key(q) by {
                        if old_self.has_path(q) {
                            let j = old_self.index_of(q);
                            assert(self.files@[j] == old_self.files@[j]);
                        }
                        if q == path@ {
                            assert(self.files@[n].path@ == q);
                        }
                        if self.has_path(q) {
                            let j = self.index_of(q);
                            if j != n {
                                assert(self.files@[j] == old_self.files@[j]);
                            }
                        }
                    }
                    assert forall|q: Seq<char>| #[trigger] self@.contains_key(q)
                        implies self@[q] == old_self@.insert(path@, loc)[q] by {
                        let j = self.index_of(q);
                        self.lemma_entry(j);
                        if j != n {
                            assert(self.files@[j] == old_self.files@[j]);
                            old_self.lemma_entry(j);
                        }
                    }
                    assert(self@ =~= old_self@.insert(path@, loc));
                }
            },
        }
        proof {
            self.lemma_view_finite();
        }
    }
}

impl FindUnsafeRs {
    /// Records the index of a file from the outcome of reading and parsing it:
    /// a syntax tree replaces any earlier entry for `path`; an error is handed
    /// back and the cache is left as it was.
    pub fn analyze_file(&mut self, path: &str, parsed: Result<SyntaxNode, Error>) -> (r: Result<(), Error>)
        requires
            old(self).wf(),
        ensures
            final(self).wf(),
            final(self)@.dom().finite(),
            match parsed {
                Ok(tree) => r is Ok && final(self)@ == old(self)@.insert(path@, tree_locations(tree)),
                Err(e) => r == Err::<(), Error>(e) && final(self)@ == old(self)@,
            },
    {
        proof {
            self.lemma_view_finite();
        }
        match parsed {
            Ok(tree) => {
                let locations = locations_of(&tree);
                self.store(path, locations);
                Ok(())
            },
            Err(e) => Err(e),
        }
    }

    /// The constructs at `location` in the file `path`, from the cache alone:
    /// `None` when `path` has not been analyzed.
    pub fn locations_at(&self, path: &str, location: LineColumn) -> (r: Option<Vec<UnsafeLocationKind>>)
        requires
            self.wf(),
        ensures
            match r {
                Some(kinds) => self@.contains_key(path@) && kinds_view(kinds@) == answer(
                    self@,
                    path@,
                    location,
                ),
                None => !self@.contains_key(path@),
            },
    {
        let key = path.to_owned();
        match self.find(&key) {
            Some(i) => {
                proof {
                    self.lemma_entry(i as int);
                }
                Some(self.files[i].locations.get_matching(location))
            },
            None => None,
        }
    }

    /// The constructs at `location` in the file `path`. A file not analyzed
    /// yet is analyzed first, from what `load` returns for it; `load` is not
    /// called for a file already in the cache.
    pub fn check_unsafe_location<F: FnOnce() -> Result<SyntaxNode, Error>>(
        &mut self,
        path: &str,
        location: LineColumn,
        load: F,
    ) -> (r: Result<Vec<UnsafeLocationKind>, Error>)
        requires
            old(self).wf(),
            load.requires(()),
        ensures
            final(self).wf(),
            final(self)@.dom().finite(),
            old(self)@.contains_key(path@) ==> final(self)@ == old(self)@ && r is Ok && kinds_view(
                r->Ok_0@,
            ) == answer(old(self)@, path@, location),
            !old(self)@.contains_key(path@) ==> exists|parsed: Result<SyntaxNode, Error>|
                #[trigger] load.ensures((), parsed) && match parsed {
                    Ok(tree) => final(self)@ == old(self)@.insert(path@, tree_locations(tree))
                        && r is Ok && kinds_view(r->Ok_0@) == matching(tree_locations(tree), location),
                    Err(e) => final(self)@ == old(self)@ && r == Err::<Vec<UnsafeLocationKind>, Error>(e),
                },
    {
        proof {
            self.lemma_view_finite();
        }
        if !self.already_analyzed(path) {
            let parsed = load();
            let ghost loaded = parsed;
            match self.analyze_file(path, parsed) {
                Ok(()) => {},
                Err(e) => {
                    return Err(e);
                },
            }
            assert(self@.contains_key(path@) && self@[path@] == tree_locations(loaded->Ok_0));
        }
        match self.locations_at(path, location) {
            Some(kinds) => Ok(kinds),
            None => {
                assert(false);
                Err(Error::RwLockError)
            },
        }
    }

    /// Whether `location` in the file `path` lies inside any unsafe construct,
    /// analyzing the file first from what `load` returns when it is not in the
    /// cache yet.
    pub fn is_any_unsafe_location<F: FnOnce() -> Result<SyntaxNode, Error>>(
        &mut self,
        path: &str,
        location: LineColumn,
        load: F,
    ) -> (r: Result<bool, Error>)
        requires
            old(self).wf(),
            load.requires(()),
        ensures
            final(self).wf(),
            final(self)@.dom().finite(),
            old(self)@.contains_key(path@) ==> final(self)@ == old(self)@ && r == Ok::<bool, Error>(
                answer(old(self)@, path@, location).len() > 0,
            ),
            !old(self)@.contains_key(path@) ==> exists|parsed: Result<SyntaxNode, Error>|
                #[trigger] load.ensures((), parsed) && match parsed {
                    Ok(tree) => final(self)@ == old(self)@.insert(path@, tree_locations(tree))
                        && r == Ok::<bool, Error>(matching(tree_locations(tree), location).len() > 0),
                    Err(e) => final(self)@ == old(self)@ && r == Err::<bool, Error>(e),
                },
    {
        let kinds = self.check_unsafe_location(path, location, load)?;
        Ok(kinds.len() != 0)
    }
}

} // verus!

//! The in-memory project snapshot the engine resolves against: definition
//! and page files keyed by path, the per-branch history set used for cycle
//! detection, and the measure that bounds the engine's recursion.

use vstd::prelude::*;
use crate::text::{copy_chars, to_chars};

verus! {

/// One file of the project source tree: a path relative to the source
/// root, and its text content.
pub struct FileEntry {
    pub path: Vec<char>,
    pub content: Vec<char>,
}

/// A read-only snapshot of the project source tree.
pub struct FileStore {
    pub files: Vec<FileEntry>,
}

/// Content of the first entry with the given path, if any.
pub open spec fn lookup_entries(files: Seq<FileEntry>, path: Seq<char>) -> Option<Seq<char>>
    decreases files.len(),
{
    if files.len() == 0 {
        None
    } else if files[0].path@ == path {
        Some(files[0].content@)
    } else {
        lookup_entries(files.drop_first(), path)
    }
}

/// Whether two character vectors hold the same characters.
pub fn chars_eq(a: &Vec<char>, b: &Vec<char>) -> (r: bool)
    ensures
        r == (a@ == b@),
{
    if a.len() != b.len() {
        return false;
    }
    let mut i: usize = 0;
    while i < a.len()
        invariant
            i <= a@.len(),
            a@.len() == b@.len(),
            forall|j: int| 0 <= j < i ==> a@[j] == b@[j],
        decreases a@.len() - i,
    {
        if a[i] != b[i] {
            return false;
        }
        i += 1;
    }
    proof {
        assert(a@ =~= b@);
    }
    true
}

impl FileStore {
    /// A store with no files.
    pub fn new() -> (r: FileStore)
        ensures
            r.files@ =~= Seq::<FileEntry>::empty(),
    {
        FileStore { files: Vec::new() }
    }

    /// The content stored under `path`, if present.
    pub open spec fn lookup(self, path: Seq<char>) -> Option<Seq<char>> {
        lookup_entries(self.files@, path)
    }

    /// Whether a file with this path is present.
    pub open spec fn has(self, path: Seq<char>) -> bool {
        self.lookup(path) is Some
    }

    /// Adds one file; earlier entries keep their positions.
    pub fn add_file(&mut self, path: &str, content: &str)
        ensures
            final(self).files@.len() == old(self).files@.len() + 1,
            final(self).files@.subrange(0, old(self).files@.len() as int) == old(self).files@,
            final(self).files@[old(self).files@.len() as int].path@ == path@,
            final(self).files@[old(self).files@.len() as int].content@ == content@,
    {
        let entry = FileEntry { path: to_chars(path), content: to_chars(content) };
        self.files.push(entry);
        proof {
            assert(self.files@.subrange(0, old(self).files@.len() as int) =~= old(self).files@);
        }
    }

    /// Reads the file stored under `path`, if any, as a fresh vector.
    pub fn read(&self, path: &Vec<char>) -> (r: Option<Vec<char>>)
        ensures
            match r {
                Some(c) => self.lookup(path@) == Some(c@),
                None => self.lookup(path@) is None,
            },
    {
        let mut i: usize = 0;
        proof {
            assert(self.files@.skip(0) =~= self.files@);
        }
        while i < self.files.len()
            invariant
                i <= self.files@.len(),
                lookup_entries(self.files@, path@) == lookup_entries(
                    self.files@.skip(i as int),
                    path@,
                ),
            decreases self.files@.len() - i,
        {
            let hit = chars_eq(&self.files[i].path, path);
            if hit {
                proof {
                    assert(self.files@.skip(i as int)[0] == self.files@[i as int]);
                }
                return Some(copy_chars(&self.files[i].content));
            }
            proof {
                assert(self.files@.skip(i as int)[0] == self.files@[i as int]);
                assert(self.files@.skip(i as int).drop_first() =~= self.files@.skip(i + 1));
            }
            i += 1;
        }
        proof {
            assert(self.files@.skip(i as int).len() == 0);
        }
        None
    }
}

/// The set of definition paths already entered along the current
/// recursive branch, passed by value into each recursive call.
pub struct Hist {
    pub paths: Vec<Vec<char>>,
}

/// The paths a history holds, as character sequences.
pub open spec fn hist_view(h: Hist) -> Seq<Seq<char>> {
    h.paths@.map_values(|p: Vec<char>| p@)
}

impl Hist {
    /// An empty history: the state at the root of every page resolution.
    pub fn empty() -> (r: Hist)
        ensures
            hist_view(r) =~= Seq::<Seq<char>>::empty(),
    {
        Hist { paths: Vec::new() }
    }

    /// Whether `path` was already entered on this branch.
    pub fn contains_path(&self, path: &Vec<char>) -> (b: bool)
        ensures
            b == hist_view(*self).contains(path@),
    {
        let mut i: usize = 0;
        while i < self.paths.len()
            invariant
                i <= self.paths@.len(),
                forall|j: int| 0 <= j < i ==> hist_view(*self)[j] != path@,
            decreases self.paths@.len() - i,
        {
            let hit = chars_eq(&self.paths[i], path);
            if hit {
                proof {
                    assert(hist_view(*self)[i as int] == path@);
                }
                return true;
            }
            i += 1;
        }
        proof {
            if hist_view(*self).contains(path@) {
                let j = choose|j: int| 0 <= j < hist_view(*self).len() && hist_view(*self)[j]
                    == path@;
                assert(hist_view(*self)[j] == path@);
            }
        }
        false
    }

    /// Extends this branch's history with one more definition path.
    pub fn push_path(&mut self, path: Vec<char>)
        ensures
            hist_view(*final(self)) =~= hist_view(*old(self)).push(path@),
    {
        self.paths.push(path);
        proof {
            assert(hist_view(*self) =~= hist_view(*old(self)).push(self.paths@.last()@));
        }
    }

    /// A value copy of this history, for handing to a sibling branch.
    pub fn duplicate(&self) -> (r: Hist)
        ensures
            hist_view(r) =~= hist_view(*self),
    {
        let mut out: Vec<Vec<char>> = Vec::new();
        let mut i: usize = 0;
        while i < self.paths.len()
            invariant
                i <= self.paths@.len(),
                out@.len() == i,
                forall|j: int| 0 <= j < i ==> out@[j]@ == self.paths@[j]@,
            decreases self.paths@.len() - i,
        {
            out.push(copy_chars(&self.paths[i]));
            i += 1;
        }
        let r = Hist { paths: out };
        proof {
            assert(hist_view(r) =~= hist_view(*self));
        }
        r
    }
}

/// How many distinct store entries are not yet on the history branch: the
/// engine's recursion measure.
pub open spec fn free_count(files: Seq<FileEntry>, hist: Seq<Seq<char>>) -> nat
    decreases files.len(),
{
    if files.len() == 0 {
        0
    } else {
        free_count(files.drop_first(), hist) + if hist.contains(files[0].path@) {
            0nat
        } else {
            1nat
        }
    }
}

/// The recursion measure of a store against a history.
pub open spec fn store_free(store: FileStore, hist: Seq<Seq<char>>) -> nat {
    free_count(store.files@, hist)
}

/// Growing the history never grows the measure.
pub proof fn lemma_free_count_push_le(files: Seq<FileEntry>, hist: Seq<Seq<char>>, p: Seq<char>)
    ensures
        free_count(files, hist.push(p)) <= free_count(files, hist),
    decreases files.len(),
{
    if files.len() > 0 {
        lemma_free_count_push_le(files.drop_first(), hist, p);
        if hist.contains(files[0].path@) {
            let j = choose|j: int| 0 <= j < hist.len() && hist[j] == files[0].path@;
            assert(hist.push(p)[j] == files[0].path@);
            assert(hist.push(p).contains(files[0].path@));
        }
    }
}

/// Entering a stored path that is new to the branch strictly shrinks the
/// measure: the engine's termination argument.
pub proof fn lemma_free_count_push_lt(files: Seq<FileEntry>, hist: Seq<Seq<char>>, p: Seq<char>)
    requires
        lookup_entries(files, p) is Some,
        !hist.contains(p),
    ensures
        free_count(files, hist.push(p)) < free_count(files, hist),
    decreases files.len(),
{
    if files.len() > 0 {
        if files[0].path@ == p {
            assert(hist.push(p)[hist.len() as int] == p);
            assert(hist.push(p).contains(p));
            lemma_free_count_push_le(files.drop_first(), hist, p);
        } else {
            lemma_free_count_push_lt(files.drop_first(), hist, p);
            if hist.contains(files[0].path@) {
                let j = choose|j: int| 0 <= j < hist.len() && hist[j] == files[0].path@;
                assert(hist.push(p)[j] == files[0].path@);
                assert(hist.push(p).contains(files[0].path@));
            } else {
                assert forall|j: int| 0 <= j < hist.push(p).len() implies hist.push(p)[j]
                    != files[0].path@ by {
                    if j < hist.len() {
                        assert(hist.push(p)[j] == hist[j]);
                    }
                }
                assert(!hist.push(p).contains(files[0].path@));
            }
        }
    }
}

} // verus!

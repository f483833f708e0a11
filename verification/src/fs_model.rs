//! A value-level picture of the directory tree the program works in. Paths
//! are lists of name components from the filesystem root downward, so the
//! root itself is the empty path. The surrounding program fills a snapshot
//! from the real filesystem; everything in this crate computes over it.

use vstd::prelude::*;

verus! {

/// The entries of one directory tree: every directory and every regular file,
/// each as its full component path.
pub struct FsSnapshot {
    /// Every directory in the snapshot.
    pub dirs: Vec<Vec<String>>,
    /// Every regular file in the snapshot.
    pub files: Vec<Vec<String>>,
}

impl FsSnapshot {
    /// The snapshot holds `p` as a directory.
    pub open spec fn has_dir(self, p: Seq<Seq<char>>) -> bool {
        exists|i: int| 0 <= i < self.dirs.deep_view().len() && self.dirs.deep_view()[i] == p
    }

    /// The snapshot holds `p` as a regular file.
    pub open spec fn has_file(self, p: Seq<Seq<char>>) -> bool {
        exists|i: int| 0 <= i < self.files.deep_view().len() && self.files.deep_view()[i] == p
    }

    /// Whether `p` names a directory of the snapshot.
    pub fn contains_dir(&self, p: &Vec<String>) -> (r: bool)
        ensures
            r == self.has_dir(p.deep_view()),
    {
        let mut i: usize = 0;
        while i < self.dirs.len()
            invariant
                i <= self.dirs@.len(),
                forall|k: int| 0 <= k < i ==> self.dirs.deep_view()[k] != p.deep_view(),
            decreases self.dirs@.len() - i,
        {
            if path_eq(&self.dirs[i], p) {
                assert(self.dirs.deep_view()[i as int] == p.deep_view());
                return true;
            }
            i += 1;
        }
        false
    }

    /// Whether `p` names a regular file of the snapshot.
    pub fn contains_file(&self, p: &Vec<String>) -> (r: bool)
        ensures
            r == self.has_file(p.deep_view()),
    {
        let mut i: usize = 0;
        while i < self.files.len()
            invariant
                i <= self.files@.len(),
                forall|k: int| 0 <= k < i ==> self.files.deep_view()[k] != p.deep_view(),
            decreases self.files@.len() - i,
        {
            if path_eq(&self.files[i], p) {
                assert(self.files.deep_view()[i as int] == p.deep_view());
                return true;
            }
            i += 1;
        }
        false
    }
}

/// Whether two paths have the same components.
pub fn path_eq(a: &Vec<String>, b: &Vec<String>) -> (r: bool)
    ensures
        r == (a.deep_view() == b.deep_view()),
{
    if a.len() != b.len() {
        assert(a.deep_view().len() != b.deep_view().len());
        return false;
    }
    let mut i: usize = 0;
    while i < a.len()
        invariant
            a@.len() == b@.len(),
            i <= a@.len(),
            forall|k: int| 0 <= k < i ==> a.deep_view()[k] == b.deep_view()[k],
        decreases a@.len() - i,
    {
        if !a[i].eq(&b[i]) {
            assert(a.deep_view()[i as int] != b.deep_view()[i as int]);
            return false;
        }
        i += 1;
    }
    assert(a.deep_view() =~= b.deep_view());
    true
}

/// A copy of `p` with the same components.
pub fn clone_path(p: &Vec<String>) -> (r: Vec<String>)
    ensures
        r@ == p@,
{
    let mut r: Vec<String> = Vec::new();
    let mut i: usize = 0;
    while i < p.len()
        invariant
            i <= p@.len(),
            r@ =~= p@.subrange(0, i as int),
        decreases p@.len() - i,
    {
        r.push(p[i].clone());
        i += 1;
    }
    assert(p@.subrange(0, p@.len() as int) =~= p@);
    r
}

/// `p` is a (not necessarily strict) leading part of `q`.
pub open spec fn is_path_prefix(p: Seq<Seq<char>>, q: Seq<Seq<char>>) -> bool {
    p.len() <= q.len() && p =~= q.subrange(0, p.len() as int)
}

/// Whether the components of `p` open the path `q`.
pub fn path_starts_with(q: &Vec<String>, p: &Vec<String>) -> (r: bool)
    ensures
        r == is_path_prefix(p.deep_view(), q.deep_view()),
{
    if p.len() > q.len() {
        return false;
    }
    let mut i: usize = 0;
    while i < p.len()
        invariant
            p@.len() <= q@.len(),
            i <= p@.len(),
            forall|k: int| 0 <= k < i ==> p.deep_view()[k] == q.deep_view()[k],
        decreases p@.len() - i,
    {
        if !p[i].eq(&q[i]) {
            assert(p.deep_view()[i as int] != q.deep_view().subrange(
                0,
                p.deep_view().len() as int,
            )[i as int]);
            return false;
        }
        i += 1;
    }
    assert(p.deep_view() =~= q.deep_view().subrange(0, p.deep_view().len() as int));
    true
}

} // verus!

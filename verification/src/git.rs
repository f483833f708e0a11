//! Locating the repository root and deriving the repository name.
//!
//! The root is the deepest ancestor of the start directory that directly
//! contains the version-control marker directory `.git`. The repository name
//! is the last path segment of the configured remote URL, with a trailing
//! `.git` suffix removed; running the version-control tool to read that URL
//! is the surrounding program's job.

use vstd::prelude::*;
use vstd::string::StrSliceExecFns;
use vstd::string::StringExecFns;

use crate::fs_model::FsSnapshot;
use crate::fs_model::clone_path;
use crate::fs_model::is_path_prefix;
use crate::strutil::is_space_char;
use crate::strutil::last_segment;
use crate::strutil::last_segment_of;
use crate::strutil::lemma_last_segment_concat;
use crate::strutil::lemma_trim_end_noop;
use crate::strutil::lemma_trim_start_concat;
use crate::strutil::lemma_trim_start_last;
use crate::strutil::matches_at;
use crate::strutil::trim;
use crate::strutil::trim_spec;

verus! {

/// Failure of the repository-root search.
#[derive(Debug, Clone, Copy, PartialEq, Eq, Structural)]
pub enum FindGitRepoRootError {
    /// The current working directory could not be read.
    FailedToGetCWD,
    /// No ancestor of the start directory contains the marker directory.
    FailedToFindGitRepoRoot,
}

/// Failure of the repository-name lookup.
#[derive(Debug, Clone, Copy, PartialEq, Eq, Structural)]
pub enum GetOriginRemoteRepoNameError {
    /// The current working directory could not be read.
    FailedToGetCWD,
    /// The repository root, or its configured remote, was not found.
    FailedToFindGitRepoRoot(FindGitRepoRootError),
}

/// Directory `p` directly contains the version-control marker directory.
pub open spec fn has_marker(fs: FsSnapshot, p: Seq<Seq<char>>) -> bool {
    fs.has_dir(p.push(".git"@))
}

/// The repository root seen from directory `d`: the deepest ancestor of `d`
/// (including `d` itself) that carries the marker, if any ancestor does.
pub open spec fn spec_repo_root(fs: FsSnapshot, d: Seq<Seq<char>>) -> Option<Seq<Seq<char>>>
    decreases d.len(),
{
    if has_marker(fs, d) {
        Some(d)
    } else if d.len() == 0 {
        None
    } else {
        spec_repo_root(fs, d.drop_last())
    }
}

/// Finds the repository root by searching upward from `cwd` for the marker
/// directory.
pub fn find_git_repo_root(fs: &FsSnapshot, cwd: &Vec<String>) -> (r: Result<
    Vec<String>,
    FindGitRepoRootError,
>)
    ensures
        match r {
            Ok(p) => spec_repo_root(*fs, cwd.deep_view()) == Some(p.deep_view()),
            Err(e) => {
                &&& spec_repo_root(*fs, cwd.deep_view()) is None
                &&& e == FindGitRepoRootError::FailedToFindGitRepoRoot
            },
        },
{
    let mut p = clone_path(cwd);
    proof {
        assert(p.deep_view() =~= cwd.deep_view());
    }
    loop
        invariant
            spec_repo_root(*fs, cwd.deep_view()) == spec_repo_root(*fs, p.deep_view()),
        decreases p@.len(),
    {
        let mut probe = clone_path(&p);
        probe.push(String::from_str(".git"));
        proof {
            assert(probe.deep_view() =~= p.deep_view().push(".git"@));
        }
        if fs.contains_dir(&probe) {
            return Ok(p);
        }
        if p.len() == 0 {
            return Err(FindGitRepoRootError::FailedToFindGitRepoRoot);
        }
        let ghost old_p = p.deep_view();
        p.pop();
        proof {
            assert(p.deep_view() =~= old_p.drop_last());
        }
    }
}

/// A start directory below a marked ancestor, with no marker on the way down
/// between them, locates exactly that ancestor, at any depth.
pub proof fn lemma_repo_root_found(fs: FsSnapshot, d: Seq<Seq<char>>, a: Seq<Seq<char>>)
    requires
        is_path_prefix(a, d),
        has_marker(fs, a),
        forall|m: int| a.len() < m <= d.len() ==> !has_marker(fs, #[trigger] d.subrange(0, m)),
    ensures
        spec_repo_root(fs, d) == Some(a),
    decreases d.len(),
{
    if d.len() == a.len() {
        assert(a =~= d);
    } else {
        assert(d.subrange(0, d.len() as int) =~= d);
        assert(!has_marker(fs, d));
        assert(d.drop_last() =~= d.subrange(0, d.len() - 1));
        assert(is_path_prefix(a, d.drop_last())) by {
            assert(d.drop_last().subrange(0, a.len() as int) =~= d.subrange(0, a.len() as int));
        }
        assert forall|m: int| a.len() < m <= d.drop_last().len() implies !has_marker(
            fs,
            #[trigger] d.drop_last().subrange(0, m),
        ) by {
            assert(d.drop_last().subrange(0, m) =~= d.subrange(0, m));
        }
        lemma_repo_root_found(fs, d.drop_last(), a);
    }
}

/// With no marker anywhere from the start directory up to the filesystem
/// root, the search fails.
pub proof fn lemma_repo_root_not_found(fs: FsSnapshot, d: Seq<Seq<char>>)
    requires
        forall|m: int| 0 <= m <= d.len() ==> !has_marker(fs, #[trigger] d.subrange(0, m)),
    ensures
        spec_repo_root(fs, d) is None,
    decreases d.len(),
{
    assert(d.subrange(0, d.len() as int) =~= d);
    if d.len() > 0 {
        assert forall|m: int| 0 <= m <= d.drop_last().len() implies !has_marker(
            fs,
            #[trigger] d.drop_last().subrange(0, m),
        ) by {
            assert(d.drop_last().subrange(0, m) =~= d.subrange(0, m));
        }
        lemma_repo_root_not_found(fs, d.drop_last());
    }
}

/// Conversely, whatever the search locates is an ancestor of the start
/// directory carrying the marker, with no marked ancestor nearer the start.
pub proof fn lemma_repo_root_sound(fs: FsSnapshot, d: Seq<Seq<char>>, a: Seq<Seq<char>>)
    requires
        spec_repo_root(fs, d) == Some(a),
    ensures
        is_path_prefix(a, d),
        has_marker(fs, a),
        forall|m: int| a.len() < m <= d.len() ==> !has_marker(fs, #[trigger] d.subrange(0, m)),
    decreases d.len(),
{
    if has_marker(fs, d) {
        assert(a == d);
        assert(a =~= d.subrange(0, a.len() as int));
    } else {
        lemma_repo_root_sound(fs, d.drop_last(), a);
        assert(d.drop_last() =~= d.subrange(0, d.len() - 1));
        assert(is_path_prefix(a, d)) by {
            assert(d.subrange(0, a.len() as int) =~= d.drop_last().subrange(0, a.len() as int));
        }
        assert forall|m: int| a.len() < m <= d.len() implies !has_marker(
            fs,
            #[trigger] d.subrange(0, m),
        ) by {
            if m == d.len() {
                assert(d.subrange(0, m) =~= d);
            } else {
                assert(d.subrange(0, m) =~= d.drop_last().subrange(0, m));
            }
        }
    }
}

/// Conversely, a failed search means no ancestor of the start directory,
/// the filesystem root included, carries the marker.
pub proof fn lemma_repo_root_none_sound(fs: FsSnapshot, d: Seq<Seq<char>>)
    requires
        spec_repo_root(fs, d) is None,
    ensures
        forall|m: int| 0 <= m <= d.len() ==> !has_marker(fs, #[trigger] d.subrange(0, m)),
    decreases d.len(),
{
    assert(!has_marker(fs, d));
    if d.len() > 0 {
        lemma_repo_root_none_sound(fs, d.drop_last());
        assert(d.drop_last() =~= d.subrange(0, d.len() - 1));
        assert forall|m: int| 0 <= m <= d.len() implies !has_marker(
            fs,
            #[trigger] d.subrange(0, m),
        ) by {
            if m == d.len() {
                assert(d.subrange(0, m) =~= d);
            } else {
                assert(d.subrange(0, m) =~= d.drop_last().subrange(0, m));
            }
        }
    } else {
        assert(d.subrange(0, 0) =~= d);
    }
}

/// `s` without a trailing `.git`, when it carries one.
pub open spec fn strip_git_suffix(s: Seq<char>) -> Seq<char> {
    if s.len() >= 4 && s.subrange(s.len() - 4, s.len() as int) == ".git"@ {
        s.subrange(0, s.len() - 4)
    } else {
        s
    }
}

/// The repository name held in a remote URL: the last `/`-separated segment
/// of the trimmed URL, without a trailing `.git`.
pub open spec fn spec_repo_name(url: Seq<char>) -> Seq<char> {
    strip_git_suffix(last_segment(trim_spec(url)))
}

/// Derives the short repository name from the text of the configured remote
/// URL, as the version-control tool printed it.
pub fn repo_name_from_url(url: &str) -> (r: String)
    ensures
        r@ == spec_repo_name(url@),
{
    proof {
        reveal_strlit(".git");
    }
    let t = trim(url);
    let seg = last_segment_of(t);
    let n = seg.unicode_len();
    if n >= 4 && matches_at(seg, n - 4, ".git") {
        String::from_str(seg.substring_char(0, n - 4))
    } else {
        String::from_str(seg)
    }
}

/// Resolving a URL of the shape `.../<name>.git` yields `<name>`, whatever
/// stands before the final separator.
pub proof fn lemma_repo_name_git_suffix(prefix: Seq<char>, name: Seq<char>)
    requires
        forall|j: int| 0 <= j < name.len() ==> name[j] != '/' && !is_space_char(name[j]),
    ensures
        spec_repo_name(prefix + seq!['/'] + name + ".git"@) == name,
{
    reveal_strlit(".git");
    let git = ".git"@;
    let tail = name + git;
    let u = prefix + seq!['/'] + name + git;
    assert forall|j: int| 0 <= j < tail.len() implies #[trigger] tail[j] != '/' && !is_space_char(
        tail[j],
    ) by {
        if j < name.len() {
            assert(tail[j] == name[j]);
        } else {
            assert(tail[j] == git[j - name.len()]);
        }
    }
    assert(u =~= prefix + seq!['/'] + tail);
    lemma_repo_name_tail(prefix, tail);
    assert(tail.subrange(tail.len() - 4, tail.len() as int) =~= git);
    assert(tail.subrange(0, name.len() as int) =~= name);
}

/// Resolving a URL of the shape `.../<name>`, where `<name>` carries no
/// `.git` suffix, also yields `<name>`.
pub proof fn lemma_repo_name_plain(prefix: Seq<char>, name: Seq<char>)
    requires
        forall|j: int| 0 <= j < name.len() ==> name[j] != '/' && !is_space_char(name[j]),
        !(name.len() >= 4 && name.subrange(name.len() - 4, name.len() as int) == ".git"@),
    ensures
        spec_repo_name(prefix + seq!['/'] + name) == name,
{
    lemma_repo_name_tail(prefix, name);
}

/// Both name lemmas share this step: the trimmed URL still ends in
/// `/<tail>`, so its last segment is `tail`.
proof fn lemma_repo_name_tail(prefix: Seq<char>, tail: Seq<char>)
    requires
        forall|j: int| 0 <= j < tail.len() ==> tail[j] != '/' && !is_space_char(tail[j]),
    ensures
        last_segment(trim_spec(prefix + seq!['/'] + tail)) == tail,
{
    let x = prefix + seq!['/'];
    let u = prefix + seq!['/'] + tail;
    assert(x[x.len() - 1] == '/');
    assert(!is_space_char('/'));
    assert(u =~= x + tail);
    lemma_trim_start_concat(x, tail);
    let w = crate::strutil::trim_start_spec(x);
    assert(x.last() == '/');
    lemma_trim_start_last(x);
    assert(w.len() > 0 && w.last() == '/');
    let ts = w + tail;
    if tail.len() == 0 {
        assert(ts.last() == '/');
        assert(ts =~= w);
    } else {
        assert(ts.last() == tail.last());
    }
    lemma_trim_end_noop(ts);
    assert(trim_spec(u) == ts);
    assert(ts =~= w.drop_last() + seq!['/'] + tail);
    lemma_last_segment_concat(w.drop_last(), tail);
}

} // verus!

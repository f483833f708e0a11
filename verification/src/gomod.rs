//! Extraction of same-organization dependencies from a `go.mod` manifest.
//!
//! The manifest is read line by line. A line containing `require (` opens a
//! dependency block; the block runs to the first following line that starts
//! with `)`, and a block that never closes contributes nothing. Inside a
//! block, a declaration line is a tab, the module path up to the first
//! space, and a non-empty version token. A module path counts as internal
//! when it carries the organization's hosting pattern: `bitbucket`, one
//! further character, `org`, a `/` or `:` separator, then `bxbdigital/`.
//! Matches are collected first to last, duplicates kept.

use vstd::prelude::*;
use vstd::string::StrSliceExecFns;
use vstd::string::StringExecFns;

use crate::strutil::contains_seq;
use crate::strutil::contains_str;
use crate::strutil::find_char;
use crate::strutil::matches_at;
use crate::strutil::split_lines;
use crate::strutil::split_lines_spec;

verus! {

/// Splits a declaration's tail into the module path before the first space
/// and the rest after it. The path must have at least one character.
pub open spec fn module_of(rest: Seq<char>) -> Option<(Seq<char>, Seq<char>)>
    decreases rest.len(),
{
    if rest.len() < 2 {
        None
    } else if rest[1] == ' ' {
        Some((rest.subrange(0, 1), rest.subrange(2, rest.len() as int)))
    } else {
        match module_of(rest.drop_first()) {
            Some(p) => Some((seq![rest[0]] + p.0, p.1)),
            None => None,
        }
    }
}

/// The module path declared on `l`, when `l` is a declaration line: a tab,
/// the path up to the first space, and a non-empty rest.
pub open spec fn dep_module(l: Seq<char>) -> Option<Seq<char>>
    decreases l.len(),
{
    if l.len() == 0 {
        None
    } else if l[0] == '\t' {
        match module_of(l.drop_first()) {
            Some(p) => if p.1.len() >= 1 {
                Some(p.0)
            } else {
                None
            },
            None => None,
        }
    } else {
        dep_module(l.drop_first())
    }
}

proof fn lemma_module_of_some(rest: Seq<char>, k: int)
    requires
        1 <= k < rest.len(),
        rest[k] == ' ',
        forall|j: int| 1 <= j < k ==> rest[j] != ' ',
    ensures
        module_of(rest) == Some(
            (rest.subrange(0, k), rest.subrange(k + 1, rest.len() as int)),
        ),
    decreases k,
{
    if k == 1 {
        assert(rest.subrange(0, 1) =~= rest.subrange(0, 1));
    } else {
        let d = rest.drop_first();
        assert(rest[1] != ' ');
        assert forall|j: int| 1 <= j < k - 1 implies d[j] != ' ' by {
            assert(d[j] == rest[j + 1]);
        }
        assert(d[k - 1] == rest[k]);
        lemma_module_of_some(d, k - 1);
        assert(seq![rest[0]] + d.subrange(0, k - 1) =~= rest.subrange(0, k));
        assert(d.subrange(k, d.len() as int) =~= rest.subrange(k + 1, rest.len() as int));
    }
}

proof fn lemma_module_of_none(rest: Seq<char>)
    requires
        forall|j: int| 1 <= j < rest.len() ==> rest[j] != ' ',
    ensures
        module_of(rest) is None,
    decreases rest.len(),
{
    if rest.len() >= 2 {
        let d = rest.drop_first();
        assert forall|j: int| 1 <= j < d.len() implies d[j] != ' ' by {
            assert(d[j] == rest[j + 1]);
        }
        lemma_module_of_none(d);
    }
}

proof fn lemma_dep_module_at_tab(l: Seq<char>, t: int)
    requires
        0 <= t < l.len(),
        l[t] == '\t',
        forall|j: int| 0 <= j < t ==> l[j] != '\t',
    ensures
        dep_module(l) == match module_of(l.subrange(t + 1, l.len() as int)) {
            Some(p) => if p.1.len() >= 1 {
                Some(p.0)
            } else {
                None::<Seq<char>>
            },
            None => None::<Seq<char>>,
        },
    decreases t,
{
    if t == 0 {
        assert(l.drop_first() =~= l.subrange(1, l.len() as int));
    } else {
        let d = l.drop_first();
        assert(l[0] != '\t');
        assert forall|j: int| 0 <= j < t - 1 implies d[j] != '\t' by {
            assert(d[j] == l[j + 1]);
        }
        assert(d[t - 1] == l[t]);
        lemma_dep_module_at_tab(d, t - 1);
        assert(d.subrange(t, d.len() as int) =~= l.subrange(t + 1, l.len() as int));
    }
}

proof fn lemma_dep_module_no_tab(l: Seq<char>)
    requires
        forall|j: int| 0 <= j < l.len() ==> l[j] != '\t',
    ensures
        dep_module(l) is None,
    decreases l.len(),
{
    if l.len() > 0 {
        lemma_dep_module_no_tab(l.drop_first());
    }
}

/// Parses one line as a dependency declaration and yields its module path.
pub fn line_dep_module(l: &str) -> (r: Option<String>)
    ensures
        match r {
            Some(m) => dep_module(l@) == Some(m@),
            None => dep_module(l@) is None,
        },
{
    let n = l.unicode_len();
    let t = match find_char(l, 0, '\t') {
        Some(t) => t,
        None => {
            proof {
                lemma_dep_module_no_tab(l@);
            }
            return None;
        },
    };
    proof {
        lemma_dep_module_at_tab(l@, t as int);
    }
    let ghost rest = l@.subrange(t + 1, n as int);
    if n - t < 3 {
        proof {
            assert(rest.len() < 2);
        }
        return None;
    }
    match find_char(l, t + 2, ' ') {
        Some(s) => {
            proof {
                let k = s - t - 1;
                assert(rest[k] == l@[s as int]);
                assert forall|j: int| 1 <= j < k implies rest[j] != ' ' by {
                    assert(rest[j] == l@[t + 1 + j]);
                }
                lemma_module_of_some(rest, k);
                assert(rest.subrange(0, k) =~= l@.subrange(t + 1, s as int));
                assert(rest.subrange(k + 1, rest.len() as int) =~= l@.subrange(
                    s + 1,
                    n as int,
                ));
            }
            if s + 1 < n {
                let m = l.substring_char(t + 1, s);
                Some(String::from_str(m))
            } else {
                None
            }
        },
        None => {
            proof {
                assert forall|j: int| 1 <= j < rest.len() implies rest[j] != ' ' by {
                    assert(rest[j] == l@[t + 1 + j]);
                }
                lemma_module_of_none(rest);
            }
            None
        },
    }
}

/// The organization's hosting pattern occurs in `s` at index `i`:
/// `bitbucket`, any one character, `org`, a `/` or `:`, then `bxbdigital/`.
pub open spec fn internal_at(s: Seq<char>, i: int) -> bool {
    &&& 0 <= i
    &&& i + 25 <= s.len()
    &&& s.subrange(i, i + 9) == "bitbucket"@
    &&& s.subrange(i + 10, i + 13) == "org"@
    &&& (s[i + 13] == '/' || s[i + 13] == ':')
    &&& s.subrange(i + 14, i + 25) == "bxbdigital/"@
}

/// A module path that carries the organization's hosting pattern anywhere.
pub open spec fn is_internal_module(s: Seq<char>) -> bool {
    exists|i: int| internal_at(s, i)
}

/// Whether a module path points into the organization's own hosting.
pub fn is_internal_module_name(s: &str) -> (r: bool)
    ensures
        r == is_internal_module(s@),
{
    proof {
        reveal_strlit("bitbucket");
        reveal_strlit("org");
        reveal_strlit("bxbdigital/");
    }
    let n = s.unicode_len();
    if n < 25 {
        assert(forall|i: int| !internal_at(s@, i));
        return false;
    }
    let mut i: usize = 0;
    while i <= n - 25
        invariant
            n == s@.len(),
            25 <= n,
            i <= n - 25 + 1,
            "bitbucket"@.len() == 9,
            "org"@.len() == 3,
            "bxbdigital/"@.len() == 11,
            forall|k: int| 0 <= k < i ==> !internal_at(s@, k),
        decreases n - i,
    {
        let hit = matches_at(s, i, "bitbucket") && matches_at(s, i + 10, "org") && {
            let c = s.get_char(i + 13);
            c == '/' || c == ':'
        } && matches_at(s, i + 14, "bxbdigital/");
        if hit {
            assert(internal_at(s@, i as int));
            return true;
        }
        assert(!internal_at(s@, i as int));
        i += 1;
    }
    assert forall|k: int| !internal_at(s@, k) by {
        if internal_at(s@, k) {
            assert(0 <= k && k + 25 <= s@.len());
            assert(k < i);
        }
    }
    false
}

/// A line that opens a dependency block.
pub open spec fn opens_block(l: Seq<char>) -> bool {
    contains_seq(l, "require ("@)
}

/// A line that closes a dependency block.
pub open spec fn closes_block(l: Seq<char>) -> bool {
    l.len() > 0 && l[0] == ')'
}

/// What one line inside a block contributes: its module path, when the line
/// declares one and the path is internal.
pub open spec fn line_contrib(l: Seq<char>) -> Seq<Seq<char>> {
    match dep_module(l) {
        Some(m) => if is_internal_module(m) {
            seq![m]
        } else {
            Seq::<Seq<char>>::empty()
        },
        None => Seq::<Seq<char>>::empty(),
    }
}

/// The internal module paths declared by the lines of one block body.
pub open spec fn block_deps(body: Seq<Seq<char>>) -> Seq<Seq<char>>
    decreases body.len(),
{
    if body.len() == 0 {
        Seq::<Seq<char>>::empty()
    } else {
        line_contrib(body[0]) + block_deps(body.drop_first())
    }
}

/// The index of the first closing line at or after `i`, or the number of
/// lines when none follows.
pub open spec fn first_close(lines: Seq<Seq<char>>, i: int) -> int
    decreases lines.len() - i,
{
    if i >= lines.len() {
        lines.len() as int
    } else if closes_block(lines[i]) {
        i
    } else {
        first_close(lines, i + 1)
    }
}

proof fn lemma_first_close_is(lines: Seq<Seq<char>>, i: int, c: int)
    requires
        0 <= i <= c <= lines.len(),
        forall|j: int| i <= j < c ==> !closes_block(#[trigger] lines[j]),
        c < lines.len() ==> closes_block(lines[c]),
    ensures
        first_close(lines, i) == c,
    decreases c - i,
{
    if i < c {
        lemma_first_close_is(lines, i + 1, c);
    }
}

/// The internal dependencies of a manifest given as its lines: for each
/// block that opens and later closes, the contributions of the lines
/// strictly between its opening and closing lines, in order; a block that
/// never closes ends the collection.
pub open spec fn deps_from(lines: Seq<Seq<char>>) -> Seq<Seq<char>>
    decreases lines.len(),
{
    if lines.len() == 0 {
        Seq::<Seq<char>>::empty()
    } else if opens_block(lines[0]) {
        let c = first_close(lines, 1);
        if 1 <= c < lines.len() {
            block_deps(lines.subrange(1, c)) + deps_from(
                lines.subrange(c + 1, lines.len() as int),
            )
        } else {
            Seq::<Seq<char>>::empty()
        }
    } else {
        deps_from(lines.drop_first())
    }
}

/// The internal dependencies declared in the text of a `go.mod` manifest.
pub open spec fn spec_go_internal_deps(text: Seq<char>) -> Seq<Seq<char>> {
    deps_from(split_lines_spec(text))
}

proof fn lemma_block_deps_push(body: Seq<Seq<char>>, l: Seq<char>)
    ensures
        block_deps(body.push(l)) == block_deps(body) + line_contrib(l),
    decreases body.len(),
{
    if body.len() == 0 {
        assert(body.push(l).drop_first() =~= body);
        assert(line_contrib(l) + Seq::<Seq<char>>::empty() =~= line_contrib(l));
        assert(Seq::<Seq<char>>::empty() + line_contrib(l) =~= line_contrib(l));
    } else {
        assert(body.push(l)[0] == body[0]);
        assert(body.push(l).drop_first() =~= body.drop_first().push(l));
        lemma_block_deps_push(body.drop_first(), l);
        assert(line_contrib(body[0]) + (block_deps(body.drop_first()) + line_contrib(l)) =~= (
        line_contrib(body[0]) + block_deps(body.drop_first())) + line_contrib(l));
    }
}

fn line_opens_block(l: &String) -> (r: bool)
    ensures
        r == opens_block(l@),
{
    contains_str(l.as_str(), "require (")
}

fn line_closes_block(l: &String) -> (r: bool)
    ensures
        r == closes_block(l@),
{
    let s = l.as_str();
    s.unicode_len() > 0 && s.get_char(0) == ')'
}

fn find_close(lines: &Vec<String>, from: usize) -> (r: Option<usize>)
    requires
        from <= lines@.len(),
    ensures
        match r {
            Some(j) => {
                &&& from <= j < lines@.len()
                &&& closes_block(lines.deep_view()[j as int])
                &&& forall|k: int|
                    from <= k < j ==> !closes_block(#[trigger] lines.deep_view()[k])
            },
            None => forall|k: int|
                from <= k < lines@.len() ==> !closes_block(#[trigger] lines.deep_view()[k]),
        },
{
    let mut j: usize = from;
    while j < lines.len()
        invariant
            from <= j <= lines@.len(),
            forall|k: int| from <= k < j ==> !closes_block(#[trigger] lines.deep_view()[k]),
        decreases lines@.len() - j,
    {
        if line_closes_block(&lines[j]) {
            return Some(j);
        }
        j += 1;
    }
    None
}

/// Collects the internal dependencies declared in a `go.mod` manifest text,
/// first to last, duplicates kept.
pub fn go_internal_dependencies(text: &str) -> (r: Vec<String>)
    ensures
        r.deep_view() == spec_go_internal_deps(text@),
{
    let lines = split_lines(text);
    let ghost ls = lines.deep_view();
    let mut out: Vec<String> = Vec::new();
    let mut i: usize = 0;
    proof {
        assert(ls.subrange(0, ls.len() as int) =~= ls);
        assert(out.deep_view() + deps_from(ls) =~= deps_from(ls));
    }
    while i < lines.len()
        invariant
            ls == lines.deep_view(),
            ls == split_lines_spec(text@),
            i <= ls.len(),
            deps_from(ls) =~= out.deep_view() + deps_from(ls.subrange(i as int, ls.len() as int)),
        decreases ls.len() - i,
    {
        let ghost suffix = ls.subrange(i as int, ls.len() as int);
        if line_opens_block(&lines[i]) {
            proof {
                assert(suffix[0] == ls[i as int]);
            }
            match find_close(&lines, i + 1) {
                None => {
                    proof {
                        assert forall|j: int| 1 <= j < suffix.len() implies !closes_block(
                            #[trigger] suffix[j],
                        ) by {
                            assert(suffix[j] == ls[i + j]);
                        }
                        lemma_first_close_is(suffix, 1, suffix.len() as int);
                        assert(deps_from(suffix) =~= Seq::<Seq<char>>::empty());
                        assert(out.deep_view() + deps_from(suffix) =~= out.deep_view());
                    }
                    return out;
                },
                Some(j) => {
                    proof {
                        assert(suffix[j - i] == ls[j as int]);
                        assert forall|k: int| 1 <= k < j - i implies !closes_block(
                            #[trigger] suffix[k],
                        ) by {
                            assert(suffix[k] == ls[i + k]);
                        }
                        lemma_first_close_is(suffix, 1, j - i);
                        assert(suffix.subrange(1, j - i) =~= ls.subrange(i + 1, j as int));
                        assert(suffix.subrange(j - i + 1, suffix.len() as int) =~= ls.subrange(
                            j + 1,
                            ls.len() as int,
                        ));
                        assert(deps_from(suffix) == block_deps(ls.subrange(i + 1, j as int))
                            + deps_from(ls.subrange(j + 1, ls.len() as int)));
                    }
                    let ghost base = out.deep_view();
                    let mut k: usize = i + 1;
                    proof {
                        assert(ls.subrange(i + 1, i + 1) =~= Seq::<Seq<char>>::empty());
                        assert(base + block_deps(ls.subrange(i + 1, i + 1)) =~= base);
                    }
                    while k < j
                        invariant
                            ls == lines.deep_view(),
                            i + 1 <= k <= j <= ls.len(),
                            out.deep_view() =~= base + block_deps(ls.subrange(i + 1, k as int)),
                        decreases j - k,
                    {
                        let ghost body = ls.subrange(i + 1, k as int);
                        proof {
                            assert(ls.subrange(i + 1, k + 1) =~= body.push(ls[k as int]));
                            lemma_block_deps_push(body, ls[k as int]);
                        }
                        match line_dep_module(lines[k].as_str()) {
                            Some(m) => {
                                if is_internal_module_name(m.as_str()) {
                                    let ghost mv = m@;
                                    proof {
                                        assert(line_contrib(ls[k as int]) =~= seq![mv]);
                                    }
                                    let ghost old_out = out.deep_view();
                                    out.push(m);
                                    proof {
                                        assert(out.deep_view() =~= old_out.push(mv));
                                        assert(old_out.push(mv) =~= old_out + seq![mv]);
                                        assert((base + block_deps(body)) + line_contrib(
                                            ls[k as int],
                                        ) =~= base + (block_deps(body) + line_contrib(
                                            ls[k as int],
                                        )));
                                        assert(out.deep_view() =~= base + block_deps(
                                            ls.subrange(i + 1, k + 1),
                                        ));
                                    }
                                } else {
                                    proof {
                                        assert(line_contrib(ls[k as int])
                                            =~= Seq::<Seq<char>>::empty());
                                        assert(out.deep_view() =~= base + block_deps(
                                            ls.subrange(i + 1, k + 1),
                                        ));
                                    }
                                }
                            },
                            None => {
                                proof {
                                    assert(line_contrib(ls[k as int])
                                        =~= Seq::<Seq<char>>::empty());
                                    assert(out.deep_view() =~= base + block_deps(
                                        ls.subrange(i + 1, k + 1),
                                    ));
                                }
                            },
                        }
                        k += 1;
                    }
                    proof {
                        assert(out.deep_view() =~= base + block_deps(ls.subrange(i + 1, j as int)));
                        assert(deps_from(ls) =~= out.deep_view() + deps_from(
                            ls.subrange(j + 1, ls.len() as int),
                        ));
                    }
                    i = j + 1;
                },
            }
        } else {
            proof {
                assert(suffix[0] == ls[i as int]);
                assert(suffix.drop_first() =~= ls.subrange(i + 1, ls.len() as int));
                assert(deps_from(suffix) == deps_from(ls.subrange(i + 1, ls.len() as int)));
            }
            i += 1;
        }
    }
    proof {
        assert(ls.subrange(ls.len() as int, ls.len() as int) =~= Seq::<Seq<char>>::empty());
        assert(out.deep_view() + deps_from(Seq::<Seq<char>>::empty()) =~= out.deep_view());
    }
    out
}

} // verus!

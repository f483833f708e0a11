//! Character-level helpers shared by the parsers: substring search, character
//! search, whitespace trimming and path-segment extraction, each verified
//! against an exact specification over `Seq<char>`.

use vstd::prelude::*;
use vstd::string::StrSliceExecFns;
use vstd::string::StringExecFns;

verus! {

/// `pat` occurs in `s` starting at index `i`.
pub open spec fn occurs_at(s: Seq<char>, pat: Seq<char>, i: int) -> bool {
    &&& 0 <= i
    &&& i + pat.len() <= s.len()
    &&& s.subrange(i, i + pat.len() as int) == pat
}

/// `pat` occurs somewhere in `s`.
pub open spec fn contains_seq(s: Seq<char>, pat: Seq<char>) -> bool {
    exists|i: int| occurs_at(s, pat, i)
}

/// Compares `s[i..i + pat.len()]` with `pat`, character by character.
pub fn matches_at(s: &str, i: usize, pat: &str) -> (r: bool)
    requires
        i + pat@.len() <= s@.len(),
    ensures
        r == occurs_at(s@, pat@, i as int),
{
    let n = s.unicode_len();
    let m = pat.unicode_len();
    let mut j: usize = 0;
    while j < m
        invariant
            n == s@.len(),
            m == pat@.len(),
            i + m <= n,
            j <= m,
            forall|k: int| 0 <= k < j ==> s@[i + k] == pat@[k],
        decreases m - j,
    {
        if s.get_char(i + j) != pat.get_char(j) {
            assert(s@.subrange(i as int, i + pat@.len() as int)[j as int] != pat@[j as int]);
            return false;
        }
        j += 1;
    }
    assert(s@.subrange(i as int, i + pat@.len() as int) =~= pat@);
    true
}

/// Whether `pat` occurs anywhere in `s`.
pub fn contains_str(s: &str, pat: &str) -> (r: bool)
    ensures
        r == contains_seq(s@, pat@),
{
    let n = s.unicode_len();
    let m = pat.unicode_len();
    if m > n {
        assert(forall|k: int| !occurs_at(s@, pat@, k));
        return false;
    }
    if m == 0 {
        assert(occurs_at(s@, pat@, 0)) by {
            assert(s@.subrange(0, 0) =~= pat@);
        }
        return true;
    }
    let mut i: usize = 0;
    while i <= n - m
        invariant
            n == s@.len(),
            m == pat@.len(),
            1 <= m <= n,
            i <= n - m + 1,
            forall|k: int| 0 <= k < i ==> !occurs_at(s@, pat@, k),
        decreases n - i,
    {
        if matches_at(s, i, pat) {
            assert(occurs_at(s@, pat@, i as int));
            return true;
        }
        i += 1;
    }
    assert forall|k: int| !occurs_at(s@, pat@, k) by {
        if occurs_at(s@, pat@, k) {
            assert(0 <= k && k + pat@.len() <= s@.len());
            assert(k < i);
        }
    }
    false
}

/// Index of the first occurrence of `c` in `s` at or after `from`.
pub fn find_char(s: &str, from: usize, c: char) -> (r: Option<usize>)
    requires
        from <= s@.len(),
    ensures
        match r {
            Some(i) => {
                &&& from <= i < s@.len()
                &&& s@[i as int] == c
                &&& forall|j: int| from <= j < i ==> s@[j] != c
            },
            None => forall|j: int| from <= j < s@.len() ==> s@[j] != c,
        },
{
    let n = s.unicode_len();
    let mut i: usize = from;
    while i < n
        invariant
            n == s@.len(),
            from <= i <= n,
            forall|j: int| from <= j < i ==> s@[j] != c,
        decreases n - i,
    {
        if s.get_char(i) == c {
            return Some(i);
        }
        i += 1;
    }
    None
}

/// Index of the last occurrence of `c` in `s`.
pub fn rfind_char(s: &str, c: char) -> (r: Option<usize>)
    ensures
        match r {
            Some(i) => {
                &&& i < s@.len()
                &&& s@[i as int] == c
                &&& forall|j: int| i < j < s@.len() ==> s@[j] != c
            },
            None => forall|j: int| 0 <= j < s@.len() ==> s@[j] != c,
        },
{
    let n = s.unicode_len();
    let mut i: usize = n;
    while i > 0
        invariant
            n == s@.len(),
            i <= n,
            forall|j: int| i <= j < n ==> s@[j] != c,
        decreases i,
    {
        i -= 1;
        if s.get_char(i) == c {
            return Some(i);
        }
    }
    None
}

/// The whitespace characters removed when a command's output is trimmed.
pub open spec fn is_space_char(c: char) -> bool {
    c == ' ' || c == '\t' || c == '\n' || c == '\r'
}

/// `s` with its leading whitespace removed.
pub open spec fn trim_start_spec(s: Seq<char>) -> Seq<char>
    decreases s.len(),
{
    if s.len() > 0 && is_space_char(s[0]) {
        trim_start_spec(s.drop_first())
    } else {
        s
    }
}

/// `s` with its trailing whitespace removed.
pub open spec fn trim_end_spec(s: Seq<char>) -> Seq<char>
    decreases s.len(),
{
    if s.len() > 0 && is_space_char(s.last()) {
        trim_end_spec(s.drop_last())
    } else {
        s
    }
}

/// `s` with leading and trailing whitespace removed.
pub open spec fn trim_spec(s: Seq<char>) -> Seq<char> {
    trim_end_spec(trim_start_spec(s))
}

proof fn lemma_trim_start_range(s: Seq<char>, a: int)
    requires
        0 <= a <= s.len(),
        forall|j: int| 0 <= j < a ==> is_space_char(s[j]),
        a == s.len() || !is_space_char(s[a]),
    ensures
        trim_start_spec(s) == s.subrange(a, s.len() as int),
    decreases a,
{
    if a == 0 {
        assert(s =~= s.subrange(0, s.len() as int));
    } else {
        assert(is_space_char(s[0]));
        lemma_trim_start_range(s.drop_first(), a - 1);
        assert(s.drop_first().subrange(a - 1, s.len() - 1) =~= s.subrange(a, s.len() as int));
    }
}

proof fn lemma_trim_end_range(s: Seq<char>, b: int)
    requires
        0 <= b <= s.len(),
        forall|j: int| b <= j < s.len() ==> is_space_char(s[j]),
        b == 0 || !is_space_char(s[b - 1]),
    ensures
        trim_end_spec(s) == s.subrange(0, b),
    decreases s.len(),
{
    if b == s.len() {
        if s.len() > 0 && is_space_char(s.last()) {
            assert(false);
        }
        assert(s =~= s.subrange(0, s.len() as int));
    } else {
        assert(is_space_char(s.last()));
        lemma_trim_end_range(s.drop_last(), b);
        assert(s.drop_last().subrange(0, b) =~= s.subrange(0, b));
    }
}

/// `s` with leading and trailing whitespace removed.
pub fn trim<'a>(s: &'a str) -> (r: &'a str)
    ensures
        r@ == trim_spec(s@),
{
    let n = s.unicode_len();
    let mut a: usize = 0;
    while a < n && is_space(s.get_char(a))
        invariant
            n == s@.len(),
            a <= n,
            forall|j: int| 0 <= j < a ==> is_space_char(s@[j]),
        decreases n - a,
    {
        a += 1;
    }
    proof {
        lemma_trim_start_range(s@, a as int);
    }
    if a == n {
        proof {
            lemma_trim_end_range(s@.subrange(a as int, n as int), 0);
            assert(s@.subrange(a as int, n as int) =~= Seq::<char>::empty());
            assert(s@.subrange(a as int, a as int) =~= Seq::<char>::empty());
        }
        return s.substring_char(a, a);
    }
    let mut b: usize = n;
    while b > a && is_space(s.get_char(b - 1))
        invariant
            n == s@.len(),
            a <= b <= n,
            forall|j: int| b <= j < n ==> is_space_char(s@[j]),
        decreases b,
    {
        b -= 1;
    }
    // the first non-space character bounds the final trim from below
    assert(b > a);
    proof {
        lemma_trim_end_range(s@.subrange(a as int, n as int), b - a);
        assert(s@.subrange(a as int, n as int).subrange(0, b - a) =~= s@.subrange(
            a as int,
            b as int,
        ));
    }
    s.substring_char(a, b)
}

/// Executable twin of [`is_space_char`].
pub fn is_space(c: char) -> (r: bool)
    ensures
        r == is_space_char(c),
{
    c == ' ' || c == '\t' || c == '\n' || c == '\r'
}

/// The part of `s` after its last `/`, or all of `s` when it has none.
pub open spec fn last_segment(s: Seq<char>) -> Seq<char>
    decreases s.len(),
{
    if s.len() == 0 {
        s
    } else if s.last() == '/' {
        Seq::<char>::empty()
    } else {
        last_segment(s.drop_last()).push(s.last())
    }
}

proof fn lemma_last_segment_after_slash(s: Seq<char>, i: int)
    requires
        0 <= i < s.len(),
        s[i] == '/',
        forall|j: int| i < j < s.len() ==> s[j] != '/',
    ensures
        last_segment(s) == s.subrange(i + 1, s.len() as int),
    decreases s.len(),
{
    if i == s.len() - 1 {
        assert(s.subrange(i + 1, s.len() as int) =~= Seq::<char>::empty());
    } else {
        lemma_last_segment_after_slash(s.drop_last(), i);
        assert(s.drop_last().subrange(i + 1, s.len() - 1).push(s.last()) =~= s.subrange(
            i + 1,
            s.len() as int,
        ));
    }
}

proof fn lemma_last_segment_no_slash(s: Seq<char>)
    requires
        forall|j: int| 0 <= j < s.len() ==> s[j] != '/',
    ensures
        last_segment(s) == s,
    decreases s.len(),
{
    if s.len() > 0 {
        lemma_last_segment_no_slash(s.drop_last());
        assert(s.drop_last().push(s.last()) =~= s);
    }
}

/// Trimming the front of a text never reaches past a non-space character, so
/// anything appended after one is kept as it is.
pub proof fn lemma_trim_start_concat(x: Seq<char>, y: Seq<char>)
    requires
        exists|j: int| 0 <= j < x.len() && !is_space_char(x[j]),
    ensures
        trim_start_spec(x + y) == trim_start_spec(x) + y,
    decreases x.len(),
{
    let j = choose|j: int| 0 <= j < x.len() && !is_space_char(x[j]);
    if is_space_char(x[0]) {
        assert(j >= 1);
        assert((x + y).drop_first() =~= x.drop_first() + y);
        assert(0 <= j - 1 < x.drop_first().len() && !is_space_char(x.drop_first()[j - 1]));
        lemma_trim_start_concat(x.drop_first(), y);
    } else {
        assert((x + y)[0] == x[0]);
    }
}

/// Trimming the front keeps the last character when it is not a space.
pub proof fn lemma_trim_start_last(s: Seq<char>)
    requires
        s.len() > 0,
        !is_space_char(s.last()),
    ensures
        trim_start_spec(s).len() > 0,
        trim_start_spec(s).last() == s.last(),
    decreases s.len(),
{
    if is_space_char(s[0]) {
        lemma_trim_start_last(s.drop_first());
    }
}

/// Trimming the back changes nothing when the last character is not a space.
pub proof fn lemma_trim_end_noop(s: Seq<char>)
    requires
        s.len() == 0 || !is_space_char(s.last()),
    ensures
        trim_end_spec(s) == s,
{
}

/// The last segment of a path is whatever follows its final separator.
pub proof fn lemma_last_segment_concat(p: Seq<char>, t: Seq<char>)
    requires
        forall|j: int| 0 <= j < t.len() ==> t[j] != '/',
    ensures
        last_segment(p + seq!['/'] + t) == t,
    decreases t.len(),
{
    let s = p + seq!['/'] + t;
    if t.len() == 0 {
        assert(s.last() == '/');
        assert(t =~= Seq::<char>::empty());
    } else {
        assert(s.last() == t.last());
        assert(s.drop_last() =~= p + seq!['/'] + t.drop_last());
        lemma_last_segment_concat(p, t.drop_last());
        assert(t.drop_last().push(t.last()) =~= t);
    }
}

/// The part of `s` after its last `/`, or all of `s` when it has none.
pub fn last_segment_of<'a>(s: &'a str) -> (r: &'a str)
    ensures
        r@ == last_segment(s@),
{
    let n = s.unicode_len();
    match rfind_char(s, '/') {
        Some(i) => {
            proof {
                lemma_last_segment_after_slash(s@, i as int);
            }
            s.substring_char(i + 1, n)
        },
        None => {
            proof {
                lemma_last_segment_no_slash(s@);
            }
            s
        },
    }
}

/// The text split at every newline, as `str::split('\n')` splits it: one
/// segment more than there are newlines, the last one unterminated.
pub open spec fn split_lines_spec(s: Seq<char>) -> Seq<Seq<char>>
    decreases s.len(),
{
    if s.len() == 0 {
        seq![Seq::<char>::empty()]
    } else if s[0] == '\n' {
        seq![Seq::<char>::empty()] + split_lines_spec(s.drop_first())
    } else {
        let rest = split_lines_spec(s.drop_first());
        seq![seq![s[0]] + rest[0]] + rest.drop_first()
    }
}

proof fn lemma_split_lines_len(s: Seq<char>)
    ensures
        split_lines_spec(s).len() >= 1,
    decreases s.len(),
{
    if s.len() > 0 {
        lemma_split_lines_len(s.drop_first());
    }
}

proof fn lemma_split_lines_first_nl(s: Seq<char>, i: int)
    requires
        0 <= i < s.len(),
        s[i] == '\n',
        forall|j: int| 0 <= j < i ==> s[j] != '\n',
    ensures
        split_lines_spec(s) == seq![s.subrange(0, i)] + split_lines_spec(
            s.subrange(i + 1, s.len() as int),
        ),
    decreases i,
{
    if i == 0 {
        assert(s.subrange(0, 0) =~= Seq::<char>::empty());
        assert(s.drop_first() =~= s.subrange(1, s.len() as int));
    } else {
        let d = s.drop_first();
        lemma_split_lines_first_nl(d, i - 1);
        lemma_split_lines_len(d.subrange(i, d.len() as int));
        let rest = split_lines_spec(d);
        assert(rest[0] == d.subrange(0, i - 1));
        assert(seq![s[0]] + d.subrange(0, i - 1) =~= s.subrange(0, i));
        assert(rest.drop_first() == split_lines_spec(d.subrange(i, d.len() as int)));
        assert(d.subrange(i, d.len() as int) =~= s.subrange(i + 1, s.len() as int));
        assert(seq![seq![s[0]] + rest[0]] + rest.drop_first() =~= seq![s.subrange(0, i)]
            + split_lines_spec(s.subrange(i + 1, s.len() as int)));
    }
}

proof fn lemma_split_lines_no_nl(s: Seq<char>)
    requires
        forall|j: int| 0 <= j < s.len() ==> s[j] != '\n',
    ensures
        split_lines_spec(s) == seq![s],
    decreases s.len(),
{
    if s.len() == 0 {
        assert(s =~= Seq::<char>::empty());
    } else {
        lemma_split_lines_no_nl(s.drop_first());
        let rest = split_lines_spec(s.drop_first());
        assert(rest[0] == s.drop_first());
        assert(seq![s[0]] + s.drop_first() =~= s);
        assert(seq![seq![s[0]] + rest[0]] + rest.drop_first() =~= seq![s]);
    }
}

/// Splitting a text that begins with one newline-terminated line yields that
/// line followed by the split of what comes after the newline.
pub proof fn lemma_split_lines_line(a: Seq<char>, rest: Seq<char>)
    requires
        forall|j: int| 0 <= j < a.len() ==> a[j] != '\n',
    ensures
        split_lines_spec(a + seq!['\n'] + rest) == seq![a] + split_lines_spec(rest),
{
    let s = a + seq!['\n'] + rest;
    assert(s[a.len() as int] == '\n');
    assert forall|j: int| 0 <= j < a.len() implies s[j] != '\n' by {
        assert(s[j] == a[j]);
    }
    lemma_split_lines_first_nl(s, a.len() as int);
    assert(s.subrange(0, a.len() as int) =~= a);
    assert(s.subrange(a.len() as int + 1, s.len() as int) =~= rest);
}

/// Splits the manifest text at every newline.
pub fn split_lines(text: &str) -> (r: Vec<String>)
    ensures
        r.deep_view() == split_lines_spec(text@),
{
    let n = text.unicode_len();
    let mut r: Vec<String> = Vec::new();
    let mut pos: usize = 0;
    proof {
        assert(text@.subrange(0, n as int) =~= text@);
        assert(r.deep_view() =~= Seq::<Seq<char>>::empty());
        assert(r.deep_view() + split_lines_spec(text@) =~= split_lines_spec(text@));
    }
    loop
        invariant
            n == text@.len(),
            pos <= n,
            split_lines_spec(text@) =~= r.deep_view() + split_lines_spec(
                text@.subrange(pos as int, n as int),
            ),
        decreases n - pos,
    {
        let ghost tail = text@.subrange(pos as int, n as int);
        match find_char(text, pos, '\n') {
            Some(i) => {
                let line = text.substring_char(pos, i);
                proof {
                    lemma_split_lines_first_nl(tail, i - pos);
                    assert(tail.subrange(0, i - pos) =~= text@.subrange(pos as int, i as int));
                    assert(tail.subrange(i - pos + 1, tail.len() as int) =~= text@.subrange(
                        i + 1,
                        n as int,
                    ));
                }
                let ghost old_r = r.deep_view();
                r.push(String::from_str(line));
                proof {
                    assert(r.deep_view() =~= old_r.push(line@));
                    assert(old_r.push(line@) =~= old_r + seq![line@]);
                    assert(r.deep_view() + split_lines_spec(text@.subrange(i + 1, n as int)) =~= (
                    old_r + (seq![line@] + split_lines_spec(text@.subrange(i + 1, n as int)))));
                }
                pos = i + 1;
            },
            None => {
                let line = text.substring_char(pos, n);
                proof {
                    lemma_split_lines_no_nl(tail);
                }
                let ghost old_r = r.deep_view();
                r.push(String::from_str(line));
                proof {
                    assert(r.deep_view() =~= old_r.push(line@));
                    assert(old_r + seq![line@] =~= old_r.push(line@));
                }
                return r;
            },
        }
    }
}

} // verus!

//! Unix path text: joining, final component, stem and extension, as
//! `std::path::Path` computes them for `/`-separated paths.

use vstd::prelude::*;

use crate::text::{chars_of, eq_chars, push_all, slice_of, string_from};

verus! {

broadcast use vstd::string::group_string_axioms;

/// `base.join(rest)`: an absolute `rest` replaces `base`; otherwise one `/`
/// separates them unless `base` is empty or already ends with `/`.
pub open spec fn join_path(base: Seq<char>, rest: Seq<char>) -> Seq<char> {
    if rest.len() > 0 && rest[0] == '/' {
        rest
    } else if base.len() == 0 || base.last() == '/' {
        base + rest
    } else {
        base + seq!['/'] + rest
    }
}

/// Index of the last `c` in `s`, or -1.
pub open spec fn last_index_of(s: Seq<char>, c: char) -> int
    decreases s.len(),
{
    if s.len() == 0 {
        -1
    } else if s.last() == c {
        s.len() - 1
    } else {
        last_index_of(s.drop_last(), c)
    }
}

pub proof fn lemma_last_index_of_bounds(s: Seq<char>, c: char)
    ensures
        -1 <= last_index_of(s, c) < s.len(),
        last_index_of(s, c) >= 0 ==> s[last_index_of(s, c)] == c,
        forall|k: int| last_index_of(s, c) < k < s.len() ==> s[k] != c,
    decreases s.len(),
{
    if s.len() > 0 && s.last() != c {
        let t = s.drop_last();
        lemma_last_index_of_bounds(t, c);
        assert forall|k: int| last_index_of(s, c) < k < s.len() implies s[k] != c by {
            if k < s.len() - 1 {
                assert(s[k] == t[k]);
            }
        }
    }
}

/// `Path::file_name`: the last normal component, ignoring trailing `/` and
/// `.` components; `None` for `..`, the root or an empty path.
pub open spec fn file_name_of(p: Seq<char>) -> Option<Seq<char>>
    decreases p.len(),
{
    if p.len() == 0 {
        None
    } else if p.last() == '/' {
        file_name_of(p.drop_last())
    } else {
        let k = last_index_of(p, '/');
        let seg = p.subrange(k + 1, p.len() as int);
        if seg == seq!['.'] {
            if k + 1 >= 0 && k + 1 < p.len() {
                file_name_of(p.take(k + 1))
            } else {
                None
            }
        } else if seg == seq!['.', '.'] {
            None
        } else {
            Some(seg)
        }
    }
}

/// `file_stem` of a file name: the text before the last `.`, unless the only
/// `.` leads the name.
pub open spec fn stem_of(name: Seq<char>) -> Seq<char> {
    let i = last_index_of(name, '.');
    if name == seq!['.', '.'] || i <= 0 {
        name
    } else {
        name.take(i)
    }
}

/// `extension` of a file name: the text after the last `.`, unless there is
/// no `.` or the only one leads the name.
pub open spec fn extension_of(name: Seq<char>) -> Option<Seq<char>> {
    let i = last_index_of(name, '.');
    if name == seq!['.', '.'] || i <= 0 {
        None
    } else {
        Some(name.skip(i + 1))
    }
}

/// `Path::file_stem`.
pub open spec fn path_stem(p: Seq<char>) -> Option<Seq<char>> {
    match file_name_of(p) {
        Some(n) => Some(stem_of(n)),
        None => None,
    }
}

/// `Path::extension`.
pub open spec fn path_extension(p: Seq<char>) -> Option<Seq<char>> {
    match file_name_of(p) {
        Some(n) => extension_of(n),
        None => None,
    }
}

pub fn join_chars(base: &[char], rest: &[char]) -> (r: Vec<char>)
    ensures
        r@ == join_path(base@, rest@),
{
    if rest.len() > 0 && rest[0] == '/' {
        return slice_of(rest, 0, rest.len());
    }
    let mut out = slice_of(base, 0, base.len());
    assert(out@ =~= base@);
    if !(base.len() == 0 || base[base.len() - 1] == '/') {
        out.push('/');
    }
    push_all(&mut out, rest);
    out
}

/// `Path::new(base).join(rest)` as text.
pub fn join(base: &str, rest: &str) -> (r: String)
    ensures
        r@ == join_path(base@, rest@),
{
    let b = chars_of(base);
    let r = chars_of(rest);
    let j = join_chars(&b, &r);
    string_from(&j)
}

pub fn last_index_exec(s: &[char], c: char) -> (r: Option<usize>)
    ensures
        r matches Some(k) ==> last_index_of(s@, c) == k as int,
        r is None ==> last_index_of(s@, c) == -1,
{
    let mut j = s.len();
    assert(s@.take(j as int) =~= s@);
    while j > 0
        invariant
            j <= s@.len(),
            last_index_of(s@.take(j as int), c) == last_index_of(s@, c),
        decreases j,
    {
        assert(s@.take(j as int).drop_last() =~= s@.take(j - 1));
        if s[j - 1] == c {
            return Some(j - 1);
        }
        j -= 1;
    }
    None
}

pub fn file_name_chars(p: &[char]) -> (r: Option<Vec<char>>)
    ensures
        r matches Some(n) ==> file_name_of(p@) == Some(n@),
        r is None ==> file_name_of(p@) is None,
{
    let mut cur = slice_of(p, 0, p.len());
    assert(cur@ =~= p@);
    loop
        invariant
            file_name_of(cur@) == file_name_of(p@),
        decreases cur@.len(),
    {
        if cur.len() == 0 {
            return None;
        }
        if cur[cur.len() - 1] == '/' {
            let n = cur.len() - 1;
            cur = slice_of(&cur, 0, n);
            continue;
        }
        proof {
            lemma_last_index_of_bounds(cur@, '/');
        }
        let start: usize = match last_index_exec(&cur, '/') {
            Some(k) => k + 1,
            None => 0,
        };
        let seg = slice_of(&cur, start, cur.len());
        let dot = vec!['.'];
        let dotdot = vec!['.', '.'];
        assert(dot@ =~= seq!['.']);
        assert(dotdot@ =~= seq!['.', '.']);
        if eq_chars(&seg, &dot) {
            if start < cur.len() {
                cur = slice_of(&cur, 0, start);
                continue;
            }
            return None;
        }
        if eq_chars(&seg, &dotdot) {
            return None;
        }
        return Some(seg);
    }
}

pub fn stem_chars(name: &[char]) -> (r: Vec<char>)
    ensures
        r@ == stem_of(name@),
{
    let dotdot = vec!['.', '.'];
    assert(dotdot@ =~= seq!['.', '.']);
    if eq_chars(name, &dotdot) {
        return slice_of(name, 0, name.len());
    }
    match last_index_exec(name, '.') {
        Some(i) => {
            proof {
                lemma_last_index_of_bounds(name@, '.');
            }
            if i == 0 {
                slice_of(name, 0, name.len())
            } else {
                slice_of(name, 0, i)
            }
        },
        None => slice_of(name, 0, name.len()),
    }
}

pub fn extension_chars(name: &[char]) -> (r: Option<Vec<char>>)
    ensures
        r matches Some(e) ==> extension_of(name@) == Some(e@),
        r is None ==> extension_of(name@) is None,
{
    let dotdot = vec!['.', '.'];
    assert(dotdot@ =~= seq!['.', '.']);
    if eq_chars(name, &dotdot) {
        return None;
    }
    proof {
        lemma_last_index_of_bounds(name@, '.');
    }
    let n = name.len();
    match last_index_exec(name, '.') {
        Some(i) => {
            if i == 0 {
                None
            } else {
                Some(slice_of(name, i + 1, n))
            }
        },
        None => None,
    }
}

/// `Path::file_stem` as text.
pub fn file_stem(p: &str) -> (r: Option<String>)
    ensures
        r matches Some(s) ==> path_stem(p@) == Some(s@),
        r is None ==> path_stem(p@) is None,
{
    let pv = chars_of(p);
    match file_name_chars(&pv) {
        Some(n) => {
            let s = stem_chars(&n);
            Some(string_from(&s))
        },
        None => None,
    }
}

/// `Path::file_name` as text.
pub fn file_name(p: &str) -> (r: Option<String>)
    ensures
        r matches Some(s) ==> file_name_of(p@) == Some(s@),
        r is None ==> file_name_of(p@) is None,
{
    let pv = chars_of(p);
    match file_name_chars(&pv) {
        Some(n) => Some(string_from(&n)),
        None => None,
    }
}

/// `Path::extension` as text.
pub fn extension(p: &str) -> (r: Option<String>)
    ensures
        r matches Some(s) ==> path_extension(p@) == Some(s@),
        r is None ==> path_extension(p@) is None,
{
    let pv = chars_of(p);
    match file_name_chars(&pv) {
        Some(n) => match extension_chars(&n) {
            Some(e) => Some(string_from(&e)),
            None => None,
        },
        None => None,
    }
}

/// Joining a relative name onto a base never loses the base: the result
/// starts with the base text, and ends with the name.
pub proof fn law_join_keeps_base(base: Seq<char>, rest: Seq<char>)
    requires
        rest.len() == 0 || rest[0] != '/',
    ensures
        join_path(base, rest).take(base.len() as int) == base,
        join_path(base, rest).skip(join_path(base, rest).len() - rest.len()) == rest,
{
    let j = join_path(base, rest);
    assert(j.take(base.len() as int) =~= base);
    assert(j.skip(j.len() - rest.len()) =~= rest);
}

} // verus!

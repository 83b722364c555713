//! Parse `otool -L` and `otool -l` text. The Mach-O tools stay C; this crate only drives them.

use vstd::prelude::*;

use crate::text::{
    before_first, before_first_exec, chars_of, contains, contains_str, first_word,
    first_word_exec, lemma_back_ws_from_bounds, lemma_skip_ws_from_bounds, lines, lines_exec,
    skip_ws_from, strip_prefix, strip_prefix_exec, string_from, trim, trim_exec,
};

verus! {

broadcast use vstd::string::group_string_axioms;

/// First whitespace-separated token of a non-blank `otool -L` line.
pub open spec fn install_name_of(line: Seq<char>) -> Option<Seq<char>> {
    let t = trim(line);
    if t.len() == 0 {
        None
    } else {
        first_word(t)
    }
}

pub open spec fn install_names_in(ls: Seq<Seq<char>>) -> Seq<Seq<char>>
    decreases ls.len(),
{
    if ls.len() == 0 {
        seq![]
    } else {
        install_names_in(ls.drop_last()) + match install_name_of(ls.last()) {
            Some(w) => seq![w],
            None => seq![],
        }
    }
}

/// Install names listed by `otool -L`: the first token of every non-blank
/// line after the header line.
pub open spec fn install_names(stdout: Seq<char>) -> Seq<Seq<char>> {
    let ls = lines(stdout);
    if ls.len() == 0 {
        seq![]
    } else {
        install_names_in(ls.drop_first())
    }
}

/// The path of an `otool -l` `path … (offset N)` line, if non-empty.
pub open spec fn rpath_line(line: Seq<char>) -> Option<Seq<char>> {
    match strip_prefix(trim(line), "path "@) {
        None => None,
        Some(rest) => {
            let p = trim(before_first(rest, " ("@));
            if p.len() == 0 {
                None
            } else {
                Some(p)
            }
        },
    }
}

/// Rpaths of the `LC_RPATH` load commands among the first `n` lines: each
/// such command's path sits two lines below it.
pub open spec fn rpaths_in(ls: Seq<Seq<char>>, n: int) -> Seq<Seq<char>>
    decreases n,
{
    if n <= 0 {
        seq![]
    } else {
        let i = n - 1;
        rpaths_in(ls, n - 1) + if contains(ls[i], "LC_RPATH"@) && i + 2 < ls.len() {
            match rpath_line(ls[i + 2]) {
                Some(p) => seq![p],
                None => seq![],
            }
        } else {
            seq![]
        }
    }
}

pub open spec fn rpaths(stdout: Seq<char>) -> Seq<Seq<char>> {
    rpaths_in(lines(stdout), lines(stdout).len() as int)
}

pub open spec fn texts(v: Seq<String>) -> Seq<Seq<char>> {
    v.map_values(|s: String| s@)
}

/// A trimmed line that is not blank has a first word.
proof fn lemma_nonblank_has_first_word(line: Seq<char>)
    requires
        trim(line).len() > 0,
    ensures
        first_word(trim(line)) is Some,
{
    let a = skip_ws_from(line, 0);
    lemma_skip_ws_from_bounds(line, 0);
    let front = line.skip(a);
    lemma_back_ws_from_bounds(front, front.len() as int);
    let t = trim(line);
    assert(t[0] == line[a]);
    assert(skip_ws_from(t, 0) == 0);
}

proof fn lemma_install_names_in_words(ls: Seq<Seq<char>>)
    ensures
        install_names_in(ls) == ls.filter(|l: Seq<char>| trim(l).len() > 0).map_values(
            |l: Seq<char>| first_word(trim(l))->0,
        ),
    decreases ls.len(),
{
    if ls.len() > 0 {
        let p = |l: Seq<char>| trim(l).len() > 0;
        let f = |l: Seq<char>| first_word(trim(l))->0;
        lemma_install_names_in_words(ls.drop_last());
        let sub = ls.drop_last().filter(p);
        reveal(Seq::filter);
        let prev = install_names_in(ls.drop_last());
        assert(prev == sub.map_values(f));
        if p(ls.last()) {
            lemma_nonblank_has_first_word(ls.last());
            assert(ls.filter(p) == sub.push(ls.last()));
            assert(install_name_of(ls.last()) == Some(f(ls.last())));
            assert(install_names_in(ls) == prev + seq![f(ls.last())]);
            assert(sub.push(ls.last()).map_values(f) =~= prev + seq![f(ls.last())]);
        } else {
            assert(ls.filter(p) == sub);
            assert(install_name_of(ls.last()) is None);
            assert(install_names_in(ls) =~= prev);
        }
    }
}

/// What `otool -L` lists: every line after the header that is not blank,
/// each as its first whitespace-separated token, in order.
pub proof fn law_install_names_are_first_words(stdout: Seq<char>)
    requires
        lines(stdout).len() > 0,
    ensures
        install_names(stdout) == lines(stdout).drop_first().filter(
            |l: Seq<char>| trim(l).len() > 0,
        ).map_values(|l: Seq<char>| first_word(trim(l))->0),
{
    lemma_install_names_in_words(lines(stdout).drop_first());
}

/// An `LC_RPATH` command at line `i` whose path line (two lines below) names `p`.
pub open spec fn rpath_command_at(ls: Seq<Seq<char>>, i: int, p: Seq<char>) -> bool {
    0 <= i && i + 2 < ls.len() && contains(ls[i], "LC_RPATH"@) && rpath_line(ls[i + 2]) == Some(p)
}

proof fn lemma_rpaths_in_members(ls: Seq<Seq<char>>, n: int)
    ensures
        forall|p: Seq<char>|
            #[trigger] rpaths_in(ls, n).contains(p) <==> exists|i: int|
                i < n && #[trigger] rpath_command_at(ls, i, p),
    decreases n,
{
    if n > 0 {
        lemma_rpaths_in_members(ls, n - 1);
        let i = n - 1;
        let prev = rpaths_in(ls, n - 1);
        let tail = if contains(ls[i], "LC_RPATH"@) && i + 2 < ls.len() {
            match rpath_line(ls[i + 2]) {
                Some(q) => seq![q],
                None => seq![],
            }
        } else {
            seq![]
        };
        assert(rpaths_in(ls, n) == prev + tail);
        assert forall|p: Seq<char>|
            #[trigger] rpaths_in(ls, n).contains(p) <==> exists|j: int|
                j < n && #[trigger] rpath_command_at(ls, j, p) by {
            if (prev + tail).contains(p) {
                let k = choose|k: int| 0 <= k < (prev + tail).len() && (prev + tail)[k] == p;
                if k < prev.len() {
                    assert(prev[k] == p);
                    assert(prev.contains(p));
                    let j = choose|j: int| j < n - 1 && rpath_command_at(ls, j, p);
                    assert(rpath_command_at(ls, j, p));
                } else {
                    assert(tail[k - prev.len()] == p);
                    assert(rpath_command_at(ls, i, p));
                }
            }
            if exists|j: int| j < n && #[trigger] rpath_command_at(ls, j, p) {
                let j = choose|j: int| j < n && #[trigger] rpath_command_at(ls, j, p);
                if j < n - 1 {
                    assert(prev.contains(p));
                    let k = choose|k: int| 0 <= k < prev.len() && prev[k] == p;
                    assert((prev + tail)[k] == p);
                } else {
                    assert(tail == seq![p]);
                    assert((prev + tail)[prev.len() as int] == p);
                }
            }
        }
    }
}

/// What `otool -l` yields: a path is listed exactly when some `LC_RPATH`
/// load command has it on its `path` line two lines below (the text after
/// `path ` up to ` (`, trimmed, when not empty).
pub proof fn law_rpaths_come_from_rpath_commands(stdout: Seq<char>, p: Seq<char>)
    ensures
        rpaths(stdout).contains(p) <==> exists|i: int| #[trigger] rpath_command_at(lines(stdout), i, p),
{
    lemma_rpaths_in_members(lines(stdout), lines(stdout).len() as int);
    if exists|i: int| #[trigger] rpath_command_at(lines(stdout), i, p) {
        let i = choose|i: int| #[trigger] rpath_command_at(lines(stdout), i, p);
        assert(i < lines(stdout).len());
    }
}

pub fn parse_install_names(otool_l_stdout: &str) -> (r: Vec<String>)
    ensures
        texts(r@) == install_names(otool_l_stdout@),
{
    let text = chars_of(otool_l_stdout);
    let ls = lines_exec(&text);
    let ghost all = ls.deep_view();
    let mut out: Vec<String> = Vec::new();
    if ls.len() == 0 {
        assert(texts(out@) =~= Seq::<Seq<char>>::empty());
        return out;
    }
    let ghost tail = all.drop_first();
    let mut i: usize = 1;
    while i < ls.len()
        invariant
            1 <= i <= ls@.len(),
            all == ls.deep_view(),
            tail == all.drop_first(),
            texts(out@) == install_names_in(tail.take(i - 1)),
        decreases ls.len() - i,
    {
        assert(tail.take(i as int).drop_last() =~= tail.take(i - 1));
        assert(tail.take(i as int).last() == ls@[i as int]@);
        let ghost before = texts(out@);
        let t = trim_exec(&ls[i]);
        if t.len() > 0 {
            match first_word_exec(&t) {
                Some(w) => {
                    out.push(string_from(&w));
                    assert(texts(out@) =~= before.push(w@));
                    assert(before + seq![w@] =~= before.push(w@));
                },
                None => {
                    assert(before + Seq::<Seq<char>>::empty() =~= before);
                },
            }
        } else {
            assert(before + Seq::<Seq<char>>::empty() =~= before);
        }
        i += 1;
    }
    assert(tail.take(ls@.len() - 1) =~= tail);
    out
}

fn rpath_line_chars(line: &[char]) -> (r: Option<Vec<char>>)
    ensures
        r matches Some(p) ==> rpath_line(line@) == Some(p@),
        r is None ==> rpath_line(line@) is None,
{
    let t = trim_exec(line);
    let pre = chars_of("path ");
    let rest = match strip_prefix_exec(&t, &pre) {
        Some(r) => r,
        None => return None,
    };
    let open = chars_of(" (");
    let head = before_first_exec(&rest, &open);
    let p = trim_exec(&head);
    if p.len() == 0 {
        None
    } else {
        Some(p)
    }
}

pub fn parse_rpaths(otool_load_stdout: &str) -> (r: Vec<String>)
    ensures
        texts(r@) == rpaths(otool_load_stdout@),
{
    let text = chars_of(otool_load_stdout);
    let ls = lines_exec(&text);
    let ghost all = ls.deep_view();
    let mut found: Vec<String> = Vec::new();
    let mut i: usize = 0;
    while i < ls.len()
        invariant
            i <= ls@.len(),
            all == ls.deep_view(),
            texts(found@) == rpaths_in(all, i as int),
        decreases ls.len() - i,
    {
        let ghost before = texts(found@);
        assert(all[i as int] == ls@[i as int]@);
        if contains_str(&ls[i], "LC_RPATH") && ls.len() > 2 && i < ls.len() - 2 {
            assert(all[i + 2] == ls@[i + 2]@);
            match rpath_line_chars(&ls[i + 2]) {
                Some(p) => {
                    found.push(string_from(&p));
                    assert(texts(found@) =~= before + seq![p@]);
                },
                None => {
                    assert(before + Seq::<Seq<char>>::empty() =~= before);
                },
            }
        } else {
            assert(before + Seq::<Seq<char>>::empty() =~= before);
        }
        i += 1;
    }
    found
}

} // verus!

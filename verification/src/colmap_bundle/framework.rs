//! Qt / Homebrew framework install-name helpers.
//! System frameworks stay on their absolute `/System` / `/usr` / `/Library` paths.

use vstd::prelude::*;

use crate::paths::{join, join_path};
use crate::text::{
    chars_of, find, find_exec, lemma_find_from_bounds, push_str, slice_of, split_once,
    split_once_exec, starts_with, starts_with_str, string_from,
};

verus! {

broadcast use vstd::string::group_string_axioms;

pub const BREW_QT_LIB: [&'static str; 2] = ["/opt/homebrew/opt/qtbase/lib", "/opt/homebrew/opt/qtsvg/lib"];

#[derive(Debug, Clone, PartialEq, Eq)]
pub struct FrameworkRef {
    pub name: String,
    pub relative: String,
}

pub open spec fn is_system_name(name: Seq<char>) -> bool {
    starts_with(name, "/usr/"@) || starts_with(name, "/System/"@) || starts_with(name, "/Library/"@)
}

/// Text after the last `/` (all of `s` when there is none).
pub open spec fn after_last_slash(s: Seq<char>) -> Seq<char> {
    s.skip(crate::paths::last_index_of(s, '/') + 1)
}

/// `(name, relative)` of a non-system `…/X.framework/rest` install name with a non-empty rest.
pub open spec fn framework_parts(install_name: Seq<char>) -> Option<(Seq<char>, Seq<char>)> {
    if is_system_name(install_name) {
        None
    } else {
        match split_once(install_name, ".framework/"@) {
            None => None,
            Some((prefix, rest)) => if rest.len() == 0 {
                None
            } else {
                Some((after_last_slash(prefix) + ".framework"@, rest))
            },
        }
    }
}

/// The `.framework` directory of a non-system install name.
pub open spec fn framework_dir_text(install_name: Seq<char>) -> Option<Seq<char>> {
    if is_system_name(install_name) {
        None
    } else {
        match find(install_name, ".framework"@) {
            None => None,
            Some(idx) => Some(install_name.take(idx) + ".framework"@),
        }
    }
}

impl FrameworkRef {
    pub fn rpath_install_name(&self) -> (r: String)
        ensures
            r@ == "@rpath/"@ + self.name@ + "/"@ + self.relative@,
    {
        let mut out: Vec<char> = chars_of("@rpath/");
        push_str(&mut out, self.name.as_str());
        push_str(&mut out, "/");
        push_str(&mut out, self.relative.as_str());
        string_from(&out)
    }

    pub fn bundled_binary(&self, libdir: &str) -> (r: String)
        ensures
            r@ == join_path(join_path(libdir@, self.name@), self.relative@),
    {
        let d = join(libdir, self.name.as_str());
        join(d.as_str(), self.relative.as_str())
    }
}

pub fn is_system_install_name(name: &str) -> (r: bool)
    ensures
        r == is_system_name(name@),
{
    let n = chars_of(name);
    starts_with_str(&n, "/usr/") || starts_with_str(&n, "/System/") || starts_with_str(&n, "/Library/")
}

/// Parses a non-system `…/QtGui.framework/Versions/A/QtGui` install name.
pub fn parse_framework_ref(install_name: &str) -> (r: Option<FrameworkRef>)
    ensures
        r matches Some(f) ==> framework_parts(install_name@) == Some((f.name@, f.relative@)),
        r is None ==> framework_parts(install_name@) is None,
{
    if is_system_install_name(install_name) {
        return None;
    }
    let n = chars_of(install_name);
    let pat = chars_of(".framework/");
    let (prefix, rest) = match split_once_exec(&n, &pat) {
        Some(p) => p,
        None => return None,
    };
    proof {
        crate::paths::lemma_last_index_of_bounds(prefix@, '/');
    }
    let start: usize = match crate::paths::last_index_exec(&prefix, '/') {
        Some(k) => k + 1,
        None => 0,
    };
    let mut name = slice_of(&prefix, start, prefix.len());
    push_str(&mut name, ".framework");
    if rest.len() == 0 {
        return None;
    }
    Some(FrameworkRef { name: string_from(&name), relative: string_from(&rest) })
}

/// Where Homebrew keeps the framework binary, in search order.
pub fn brew_framework_candidates(framework: &FrameworkRef) -> (r: Vec<String>)
    ensures
        r@.len() == 2,
        r@[0]@ == join_path(
            join_path("/opt/homebrew/opt/qtbase/lib"@, framework.name@),
            framework.relative@,
        ),
        r@[1]@ == join_path(
            join_path("/opt/homebrew/opt/qtsvg/lib"@, framework.name@),
            framework.relative@,
        ),
{
    let a = join(BREW_QT_LIB[0], framework.name.as_str());
    let b = join(BREW_QT_LIB[1], framework.name.as_str());
    vec![join(a.as_str(), framework.relative.as_str()), join(b.as_str(), framework.relative.as_str())]
}

/// std `Path::exists`. Nothing is stated: the answer depends on the disk.
#[verifier::external_body]
fn path_exists(path: &str) -> bool {
    std::path::Path::new(path).exists()
}

/// std `Path::is_dir`. Nothing is stated: the answer depends on the disk.
#[verifier::external_body]
fn path_is_dir(path: &str) -> bool {
    std::path::Path::new(path).is_dir()
}

/// The first candidate whose existence answer is `true`, among the answers
/// given (a scan that stops at its first hit hands over only the answers it read).
pub open spec fn first_existing_of(c: Seq<Seq<char>>, e: Seq<bool>) -> Option<Seq<char>>
    decreases e.len(),
{
    if e.len() == 0 || c.len() == 0 {
        None
    } else if e[0] {
        Some(c[0])
    } else {
        first_existing_of(c.drop_first(), e.drop_first())
    }
}

/// The first of `candidates` that exists, given the existence answer for
/// each candidate checked so far, in search order.
pub fn first_existing(candidates: &Vec<String>, exists: &Vec<bool>) -> (r: Option<String>)
    requires
        exists@.len() <= candidates@.len(),
    ensures
        match r {
            Some(p) => first_existing_of(candidates@.map_values(|s: String| s@), exists@) == Some(p@),
            None => first_existing_of(candidates@.map_values(|s: String| s@), exists@) is None,
        },
{
    let ghost c = candidates@.map_values(|s: String| s@);
    let mut i: usize = 0;
    assert(c.skip(0) =~= c);
    assert(exists@.skip(0) =~= exists@);
    while i < exists.len()
        invariant
            exists@.len() <= candidates@.len(),
            i <= exists@.len(),
            c == candidates@.map_values(|s: String| s@),
            first_existing_of(c, exists@) == first_existing_of(c.skip(i as int), exists@.skip(i as int)),
        decreases exists.len() - i,
    {
        let ghost cs = c.skip(i as int);
        let ghost es = exists@.skip(i as int);
        assert(cs[0] == candidates@[i as int]@);
        assert(es[0] == exists@[i as int]);
        if exists[i] {
            return Some(candidates[i].clone());
        }
        assert(cs.drop_first() =~= c.skip(i + 1));
        assert(es.drop_first() =~= exists@.skip(i + 1));
        i += 1;
    }
    assert(exists@.skip(i as int).len() == 0);
    None
}

/// First Homebrew candidate that exists on disk: qtbase before qtsvg. The
/// disk decides which (if any) exists; `first_existing` makes the choice
/// from the answers read.
pub fn brew_framework_binary(framework: &FrameworkRef) -> (r: Option<String>)
    ensures
        r matches Some(p) ==> p@ == join_path(
            join_path("/opt/homebrew/opt/qtbase/lib"@, framework.name@),
            framework.relative@,
        ) || p@ == join_path(
            join_path("/opt/homebrew/opt/qtsvg/lib"@, framework.name@),
            framework.relative@,
        ),
{
    let candidates = brew_framework_candidates(framework);
    let mut answers: Vec<bool> = Vec::new();
    let mut i: usize = 0;
    while i < candidates.len()
        invariant_except_break
            i <= candidates@.len(),
            answers@.len() == i,
            candidates@.len() == 2,
        ensures
            answers@.len() <= candidates@.len(),
            candidates@.len() == 2,
        decreases candidates.len() - i,
    {
        let found = path_exists(candidates[i].as_str());
        answers.push(found);
        if found {
            break;
        }
        i += 1;
    }
    let r = first_existing(&candidates, &answers);
    proof {
        let c = candidates@.map_values(|s: String| s@);
        lemma_first_existing_is_a_candidate(c, answers@);
    }
    r
}

/// Whatever `first_existing_of` picks is one of the candidates.
proof fn lemma_first_existing_is_a_candidate(c: Seq<Seq<char>>, e: Seq<bool>)
    ensures
        first_existing_of(c, e) matches Some(p) ==> c.contains(p),
    decreases e.len(),
{
    if e.len() > 0 && c.len() > 0 && !e[0] {
        lemma_first_existing_is_a_candidate(c.drop_first(), e.drop_first());
        if let Some(p) = first_existing_of(c, e) {
            let k = choose|k: int| 0 <= k < c.drop_first().len() && #[trigger] c.drop_first()[k] == p;
            assert(c[k + 1] == p);
        }
    } else if e.len() > 0 && c.len() > 0 {
        assert(c.contains(c[0]));
    }
}

/// The `.framework` directory of a non-system install name, as text.
pub fn framework_dir_of(install_name: &str) -> (r: Option<String>)
    ensures
        r matches Some(d) ==> framework_dir_text(install_name@) == Some(d@),
        r is None ==> framework_dir_text(install_name@) is None,
{
    if is_system_install_name(install_name) {
        return None;
    }
    let n = chars_of(install_name);
    let pat = chars_of(".framework");
    let idx = match find_exec(&n, &pat) {
        Some(i) => i,
        None => return None,
    };
    proof {
        lemma_find_from_bounds(n@, pat@, 0);
    }
    let mut dir = slice_of(&n, 0, idx);
    push_str(&mut dir, ".framework");
    Some(string_from(&dir))
}

/// A candidate directory, kept exactly when the disk says it is a directory.
pub fn dir_if_present(dir: String, is_dir: bool) -> (r: Option<String>)
    ensures
        is_dir ==> r == Some(dir),
        !is_dir ==> r is None,
{
    if is_dir {
        Some(dir)
    } else {
        None
    }
}

/// The framework directory of the install name, when it is a directory on
/// disk: `None` for system names and names without `.framework`; otherwise
/// the text up to and including the first `.framework`, kept by
/// `dir_if_present` on the disk's answer.
pub fn source_framework_dir(install_name: &str) -> (r: Option<String>)
    ensures
        r matches Some(d) ==> framework_dir_text(install_name@) == Some(d@),
        framework_dir_text(install_name@) is None ==> r is None,
{
    match framework_dir_of(install_name) {
        Some(dir) => {
            let present = path_is_dir(dir.as_str());
            dir_if_present(dir, present)
        },
        None => None,
    }
}

/// A parsed framework's rpath install name ends with its relative binary path.
pub proof fn law_rpath_name_shape(name: Seq<char>, relative: Seq<char>)
    ensures
        ("@rpath/"@ + name + "/"@ + relative).skip(
            ("@rpath/"@ + name + "/"@ + relative).len() - relative.len(),
        ) == relative,
{
    let s = "@rpath/"@ + name + "/"@ + relative;
    assert(s.skip(s.len() - relative.len()) =~= relative);
}

/// `@rpath/…` names are never system names.
proof fn lemma_rpath_not_system(s: Seq<char>)
    requires
        s.len() > 0,
        s[0] == '@',
    ensures
        !is_system_name(s),
{
    reveal_strlit("/usr/");
    reveal_strlit("/System/");
    reveal_strlit("/Library/");
    if starts_with(s, "/usr/"@) {
        assert(s.take(5)[0] == '/');
    }
    if starts_with(s, "/System/"@) {
        assert(s.take(8)[0] == '/');
    }
    if starts_with(s, "/Library/"@) {
        assert(s.take(9)[0] == '/');
    }
}

/// No `.framework/` starts inside `@rpath/X` when `X` has no `/`: its `/`
/// would have to fall in `X` or in `.framework`.
#[verifier::spinoff_prover]
proof fn lemma_no_framework_inside_prefix(x: Seq<char>, relative: Seq<char>)
    requires
        forall|k: int| 0 <= k < x.len() ==> x[k] != '/',
    ensures
        forall|j: int|
            0 <= j < 7 + x.len() ==> !crate::text::occurs_at(
                "@rpath/"@ + x + ".framework/"@ + relative,
                ".framework/"@,
                j,
            ),
{
    reveal_strlit("@rpath/");
    reveal_strlit(".framework/");
    let pat = ".framework/"@;
    let s = "@rpath/"@ + x + pat + relative;
    let k0: int = 7 + x.len() as int;
    assert forall|j: int| 0 <= j < k0 implies !crate::text::occurs_at(s, pat, j) by {
        if crate::text::occurs_at(s, pat, j) {
            assert(s.subrange(j, j + 11)[10] == pat[10]);
            if j + 10 < k0 {
                assert(s[j + 10] == x[j + 10 - 7]);
            } else {
                assert(s[j + 10] == pat[j + 10 - k0]);
            }
        }
    }
}

/// In `@rpath/X.framework/rest` with no `/` in `X`, the first `.framework/`
/// is the one right after `X`.
#[verifier::spinoff_prover]
proof fn lemma_rpath_first_framework(x: Seq<char>, relative: Seq<char>)
    requires
        forall|k: int| 0 <= k < x.len() ==> x[k] != '/',
    ensures
        find("@rpath/"@ + x + ".framework/"@ + relative, ".framework/"@) == Some(
            7 + x.len() as int,
        ),
{
    reveal_strlit(".framework/");
    reveal_strlit("@rpath/");
    let pat = ".framework/"@;
    let s = "@rpath/"@ + x + pat + relative;
    let k0: int = 7 + x.len() as int;
    assert(s.subrange(k0, k0 + 11) =~= pat);
    assert(crate::text::occurs_at(s, pat, k0));
    lemma_no_framework_inside_prefix(x, relative);
    crate::text::lemma_find_from_bounds(s, pat, 0);
    match crate::text::find_from(s, pat, 0) {
        Some(k) => {
            if k < k0 {
                assert(!crate::text::occurs_at(s, pat, k));
            }
            if k > k0 {
                assert(!crate::text::occurs_at(s, pat, k0));
            }
        },
        None => {
            assert(!crate::text::occurs_at(s, pat, k0));
        },
    }
}

/// The text after the last `/` of `@rpath/X` is `X` when `X` has no `/`.
proof fn lemma_rpath_after_slash(x: Seq<char>)
    requires
        forall|k: int| 0 <= k < x.len() ==> x[k] != '/',
    ensures
        after_last_slash("@rpath/"@ + x) == x,
{
    reveal_strlit("@rpath/");
    let p2 = "@rpath/"@ + x;
    crate::paths::lemma_last_index_of_bounds(p2, '/');
    let li = crate::paths::last_index_of(p2, '/');
    assert(p2[6] == '/');
    if li > 6 {
        assert(p2[li] == x[li - 7]);
    }
    assert(li == 6);
    assert(p2.skip(7) =~= x);
}

/// A parsed framework's rpath install name parses back to the same framework:
/// the rewritten name still points at that framework and binary.
pub proof fn law_rpath_name_parses_back(install_name: Seq<char>, name: Seq<char>, relative: Seq<char>)
    requires
        framework_parts(install_name) == Some((name, relative)),
    ensures
        framework_parts("@rpath/"@ + name + "/"@ + relative) == Some((name, relative)),
{
    reveal_strlit("@rpath/");
    reveal_strlit("/");
    reveal_strlit(".framework/");
    reveal_strlit(".framework");
    let pat = ".framework/"@;
    let (prefix, rest) = split_once(install_name, pat)->0;
    crate::paths::lemma_last_index_of_bounds(prefix, '/');
    let x = after_last_slash(prefix);
    assert forall|k: int| 0 <= k < x.len() implies x[k] != '/' by {
        assert(x[k] == prefix[crate::paths::last_index_of(prefix, '/') + 1 + k]);
    }
    let s = "@rpath/"@ + name + "/"@ + relative;
    assert(s =~= "@rpath/"@ + x + pat + relative);
    lemma_rpath_not_system(s);
    lemma_rpath_first_framework(x, relative);
    let k0: int = 7 + x.len() as int;
    assert(s.take(k0) =~= "@rpath/"@ + x);
    assert(s.skip(k0 + 11) =~= relative);
    lemma_rpath_after_slash(x);
}

} // verus!

//! Manifest file names and the title a project takes from its source.

use vstd::prelude::*;

use crate::paths::{file_name_chars, join, join_path, path_stem, stem_chars};
use crate::text::{chars_of, push_str, skip_ws_exec, string_from, trim};

verus! {

broadcast use vstd::string::group_string_axioms;

pub const PROJECT_FILE: &'static str = "project.json";
pub const FRAMES_FILE: &'static str = "frames.json";
pub const CAMERAS_FILE: &'static str = "cameras.json";
pub const IMAGE_LIST_FILE: &'static str = "image_list.txt";

/// `_` and `-` read as spaces in a title.
pub open spec fn title_char(c: char) -> char {
    if c == '_' || c == '-' {
        ' '
    } else {
        c
    }
}

/// Title from a source path: its stem with `_`/`-` as spaces, or "Untitled"
/// when there is no stem or it is blank.
pub open spec fn title_text(source: Seq<char>) -> Seq<char> {
    match path_stem(source) {
        Some(stem) => {
            let t = stem.map_values(|c: char| title_char(c));
            if trim(t).len() > 0 {
                t
            } else {
                "Untitled"@
            }
        },
        None => "Untitled"@,
    }
}

/// Title from a source path stem, falling back to "Untitled".
pub fn title_from_source(source: &str) -> (r: String)
    ensures
        r@ == title_text(source@),
{
    let sv = chars_of(source);
    let name = match file_name_chars(&sv) {
        Some(n) => n,
        None => return string_from(&chars_of("Untitled")),
    };
    let stem = stem_chars(&name);
    let mut t: Vec<char> = Vec::new();
    let mut i: usize = 0;
    while i < stem.len()
        invariant
            i <= stem@.len(),
            t@ == stem@.take(i as int).map_values(|c: char| title_char(c)),
        decreases stem.len() - i,
    {
        let c = stem[i];
        t.push(if c == '_' || c == '-' { ' ' } else { c });
        i += 1;
        assert(stem@.take(i as int).map_values(|c: char| title_char(c)) =~= stem@.take(
            (i - 1) as int,
        ).map_values(|c: char| title_char(c)).push(title_char(c)));
    }
    assert(stem@.take(stem@.len() as int) =~= stem@);
    let start = skip_ws_exec(&t, 0);
    proof {
        crate::text::lemma_skip_ws_from_bounds(t@, 0);
    }
    if start < t.len() {
        assert(trim(t@).len() > 0) by {
            crate::text::lemma_back_ws_from_bounds(t@.skip(start as int), t@.len() - start);
            assert(t@.skip(start as int)[0] == t@[start as int]);
        }
        string_from(&t)
    } else {
        assert(trim(t@).len() == 0) by {
            assert(t@.skip(start as int).len() == 0);
        }
        string_from(&chars_of("Untitled"))
    }
}

/// Default folder for named projects, next to the archive.
pub fn default_projects_dir(documents: &str) -> (r: String)
    ensures
        r@ == join_path(join_path(documents@, "Simple 3DGS"@), "projects"@),
{
    let app = join(documents, "Simple 3DGS");
    join(app.as_str(), "projects")
}

pub fn project_file(root: &str) -> (r: String)
    ensures
        r@ == join_path(root@, PROJECT_FILE@),
{
    join(root, PROJECT_FILE)
}

pub fn frames_file(root: &str) -> (r: String)
    ensures
        r@ == join_path(root@, FRAMES_FILE@),
{
    join(root, FRAMES_FILE)
}

pub fn cameras_file(root: &str) -> (r: String)
    ensures
        r@ == join_path(root@, CAMERAS_FILE@),
{
    join(root, CAMERAS_FILE)
}

/// Body of the COLMAP `--image_list_path` file: one name per line.
pub open spec fn image_list_text(names: Seq<Seq<char>>) -> Seq<char>
    decreases names.len(),
{
    if names.len() == 0 {
        seq![]
    } else {
        image_list_text(names.drop_last()) + names.last() + "\n"@
    }
}

pub fn image_list_body(names: &Vec<String>) -> (r: String)
    ensures
        r@ == image_list_text(names@.map_values(|n: String| n@)),
{
    let ghost all = names@.map_values(|n: String| n@);
    let mut out: Vec<char> = Vec::new();
    for i in 0..names.len()
        invariant
            all == names@.map_values(|n: String| n@),
            out@ == image_list_text(all.take(i as int)),
    {
        push_str(&mut out, names[i].as_str());
        push_str(&mut out, "\n");
        assert(all.take(i + 1).drop_last() =~= all.take(i as int));
    }
    assert(all.take(names@.len() as int) =~= all);
    string_from(&out)
}

/// A title is never blank: either the stem reads as non-blank text, or it is "Untitled".
pub proof fn law_title_is_never_blank(source: Seq<char>)
    ensures
        title_text(source).len() > 0,
{
    reveal_strlit("Untitled");
    match path_stem(source) {
        Some(stem) => {
            let t = stem.map_values(|c: char| title_char(c));
            if trim(t).len() > 0 {
                crate::text::lemma_skip_ws_from_bounds(t, 0);
            }
        },
        None => {},
    }
}

} // verus!

//! Project folder layout, stage markers, and the image-file test.

use vstd::prelude::*;

use crate::paths::{extension_chars, file_name_chars, join, join_path, path_extension};
use crate::text::{
    chars_of, lower_ascii, lower_ascii_vec, push_str, str_is, string_from, trim, trim_exec,
};

verus! {

broadcast use vstd::string::group_string_axioms;

pub const MIN_FRAMES: usize = 8;
pub const OUTPUT_PLY: &'static str = "scene.ply";
pub const OUTPUT_SPZ: &'static str = "scene.spz";
pub const VIEW_JSON: &'static str = "view.json";

#[derive(Debug, Clone, Copy, PartialEq, Eq, Structural)]
pub enum Stage {
    Frames,
    Colmap,
    Train,
}

pub open spec fn stage_name(stage: Stage) -> Seq<char> {
    match stage {
        Stage::Frames => "frames"@,
        Stage::Colmap => "colmap"@,
        Stage::Train => "train"@,
    }
}

/// Pipeline order of the stages.
pub open spec fn stage_rank(stage: Stage) -> nat {
    match stage {
        Stage::Frames => 0,
        Stage::Colmap => 1,
        Stage::Train => 2,
    }
}

impl Stage {
    pub fn as_str(self) -> (r: &'static str)
        ensures
            r@ == stage_name(self),
    {
        match self {
            Stage::Frames => "frames",
            Stage::Colmap => "colmap",
            Stage::Train => "train",
        }
    }
}

/// The stage a run stops after, from the request's `until`; anything else means Train.
pub open spec fn until_stage(value: Seq<char>) -> Stage {
    if value == "frames"@ {
        Stage::Frames
    } else if value == "colmap"@ {
        Stage::Colmap
    } else {
        Stage::Train
    }
}

pub fn parse_until(value: &str) -> (r: Stage)
    ensures
        r == until_stage(value@),
{
    if str_is(value, "frames") {
        Stage::Frames
    } else if str_is(value, "colmap") {
        Stage::Colmap
    } else {
        Stage::Train
    }
}

/// Every stage's name, read back as a run's `until`, gives that stage.
pub proof fn law_stage_name_round_trip(stage: Stage)
    ensures
        until_stage(stage_name(stage)) == stage,
{
    reveal_strlit("frames");
    reveal_strlit("colmap");
    reveal_strlit("train");
    assert("colmap"@[0] != "frames"@[0]);
    assert("train"@[0] != "frames"@[0]);
    assert("train"@[0] != "colmap"@[0]);
}

/// The furthest stage a project has completed, from its three markers; the
/// later stage wins whatever the earlier markers say.
pub fn furthest_stage(frames: bool, colmap: bool, train: bool) -> (r: Option<Stage>)
    ensures
        train ==> r == Some(Stage::Train),
        !train && colmap ==> r == Some(Stage::Colmap),
        !train && !colmap && frames ==> r == Some(Stage::Frames),
        !train && !colmap && !frames ==> r is None,
{
    if train {
        Some(Stage::Train)
    } else if colmap {
        Some(Stage::Colmap)
    } else if frames {
        Some(Stage::Frames)
    } else {
        None
    }
}

/// Stages cleared by a rerun from `stage`: it and every later one.
pub open spec fn cleared_from(stage: Stage, later: Stage) -> bool {
    stage_rank(later) >= stage_rank(stage)
}

pub fn stages_cleared_from(stage: Stage) -> (r: Vec<Stage>)
    ensures
        forall|s: Stage| r@.contains(s) <==> cleared_from(stage, s),
        forall|i: int, j: int| 0 <= i < j < r@.len() ==> stage_rank(r@[i]) < stage_rank(r@[j]),
{
    let r: Vec<Stage> = match stage {
        Stage::Frames => vec![Stage::Frames, Stage::Colmap, Stage::Train],
        Stage::Colmap => vec![Stage::Colmap, Stage::Train],
        Stage::Train => vec![Stage::Train],
    };
    proof {
        assert forall|s: Stage| r@.contains(s) <==> cleared_from(stage, s) by {
            if cleared_from(stage, s) {
                match stage {
                    Stage::Frames => match s {
                        Stage::Frames => assert(r@[0] == s),
                        Stage::Colmap => assert(r@[1] == s),
                        Stage::Train => assert(r@[2] == s),
                    },
                    Stage::Colmap => match s {
                        Stage::Colmap => assert(r@[0] == s),
                        Stage::Train => assert(r@[1] == s),
                        _ => {},
                    },
                    Stage::Train => assert(r@[0] == s),
                }
            }
        }
    }
    r
}

#[derive(Debug, Clone)]
pub struct ProjectLayout {
    root: String,
}

impl ProjectLayout {
    pub closed spec fn root_view(&self) -> Seq<char> {
        self.root@
    }

    pub fn new(root: &str) -> (r: Self)
        ensures
            r.root_view() == root@,
    {
        Self { root: root.to_owned() }
    }

    pub fn root(&self) -> (r: &str)
        ensures
            r@ == self.root_view(),
    {
        self.root.as_str()
    }

    pub fn input_dir(&self) -> (r: String)
        ensures
            r@ == join_path(self.root_view(), "input"@),
    {
        join(self.root.as_str(), "input")
    }

    pub fn frames_dir(&self) -> (r: String)
        ensures
            r@ == join_path(self.root_view(), "frames"@),
    {
        join(self.root.as_str(), "frames")
    }

    pub fn candidates_dir(&self) -> (r: String)
        ensures
            r@ == join_path(self.root_view(), "candidates"@),
    {
        join(self.root.as_str(), "candidates")
    }

    pub fn colmap_dir(&self) -> (r: String)
        ensures
            r@ == join_path(self.root_view(), "colmap"@),
    {
        join(self.root.as_str(), "colmap")
    }

    pub fn database_path(&self) -> (r: String)
        ensures
            r@ == join_path(join_path(self.root_view(), "colmap"@), "database.db"@),
    {
        let d = self.colmap_dir();
        join(d.as_str(), "database.db")
    }

    /// Room global SfM copy of `database.db`; calibrator writes in-place here.
    pub fn database_global_path(&self) -> (r: String)
        ensures
            r@ == join_path(join_path(self.root_view(), "colmap"@), "database_global.db"@),
    {
        let d = self.colmap_dir();
        join(d.as_str(), "database_global.db")
    }

    pub fn sparse_dir(&self) -> (r: String)
        ensures
            r@ == join_path(join_path(self.root_view(), "colmap"@), "sparse"@),
    {
        let d = self.colmap_dir();
        join(d.as_str(), "sparse")
    }

    pub fn sparse_model_dir(&self) -> (r: String)
        ensures
            r@ == join_path(join_path(join_path(self.root_view(), "colmap"@), "sparse"@), "0"@),
    {
        let d = self.sparse_dir();
        join(d.as_str(), "0")
    }

    pub fn dataset_dir(&self) -> (r: String)
        ensures
            r@ == join_path(self.root_view(), "dataset"@),
    {
        join(self.root.as_str(), "dataset")
    }

    pub fn dataset_images_dir(&self) -> (r: String)
        ensures
            r@ == join_path(join_path(self.root_view(), "dataset"@), "images"@),
    {
        let d = self.dataset_dir();
        join(d.as_str(), "images")
    }

    pub fn dataset_sparse_dir(&self) -> (r: String)
        ensures
            r@ == join_path(join_path(join_path(self.root_view(), "dataset"@), "sparse"@), "0"@),
    {
        let d = self.dataset_dir();
        let s = join(d.as_str(), "sparse");
        join(s.as_str(), "0")
    }

    pub fn train_dir(&self) -> (r: String)
        ensures
            r@ == join_path(self.root_view(), "train"@),
    {
        join(self.root.as_str(), "train")
    }

    pub fn output_dir(&self) -> (r: String)
        ensures
            r@ == join_path(self.root_view(), "output"@),
    {
        join(self.root.as_str(), "output")
    }

    pub fn output_ply(&self) -> (r: String)
        ensures
            r@ == join_path(join_path(self.root_view(), "output"@), OUTPUT_PLY@),
    {
        let d = self.output_dir();
        join(d.as_str(), OUTPUT_PLY)
    }

    pub fn markers_dir(&self) -> (r: String)
        ensures
            r@ == join_path(self.root_view(), "markers"@),
    {
        join(self.root.as_str(), "markers")
    }

    /// `markers/{stage}.done`, whose presence marks a finished stage.
    pub fn marker_path(&self, stage: Stage) -> (r: String)
        ensures
            r@ == join_path(join_path(self.root_view(), "markers"@), stage_name(stage) + ".done"@),
    {
        let d = self.markers_dir();
        let mut name: Vec<char> = chars_of(stage.as_str());
        push_str(&mut name, ".done");
        let n = string_from(&name);
        join(d.as_str(), n.as_str())
    }

    /// `markers/archive.done`, holding the archive id once the splat is archived.
    pub fn archive_marker(&self) -> (r: String)
        ensures
            r@ == join_path(join_path(self.root_view(), "markers"@), "archive.done"@),
    {
        let d = self.markers_dir();
        join(d.as_str(), "archive.done")
    }

    /// Whether `stage` is marked finished: its marker file exists. What is on
    /// disk decides; the marker checked is [`Self::marker_path`].
    pub fn is_complete(&self, stage: Stage) -> bool {
        let marker = self.marker_path(stage);
        path_is_file(marker.as_str())
    }
}

/// std `Path::is_file`. Depends on the file system; nothing is claimed of the result.
#[verifier::external_body]
fn path_is_file(path: &str) -> bool {
    std::path::Path::new(path).is_file()
}

/// The archive id recorded in `markers/archive.done`: the trimmed text, if any.
pub open spec fn archived_id_of(marker_text: Seq<char>) -> Option<Seq<char>> {
    if trim(marker_text).len() == 0 {
        None
    } else {
        Some(trim(marker_text))
    }
}

pub fn archived_id_from(marker_text: &str) -> (r: Option<String>)
    ensures
        match archived_id_of(marker_text@) {
            Some(id) => r matches Some(s) && s@ == id,
            None => r is None,
        },
{
    let t = trim_exec(&chars_of(marker_text));
    if t.len() == 0 {
        None
    } else {
        Some(string_from(&t))
    }
}

/// JPEG/PNG by extension, ignoring ASCII case.
pub open spec fn is_image_path(path: Seq<char>) -> bool {
    match path_extension(path) {
        Some(ext) => {
            let e = lower_ascii(ext);
            e == "jpg"@ || e == "jpeg"@ || e == "png"@
        },
        None => false,
    }
}

pub fn is_image(path: &str) -> (r: bool)
    ensures
        r == is_image_path(path@),
{
    let p = chars_of(path);
    let name = match file_name_chars(&p) {
        Some(n) => n,
        None => return false,
    };
    let ext = match extension_chars(&name) {
        Some(e) => e,
        None => return false,
    };
    let lower = string_from(&lower_ascii_vec(&ext));
    str_is(lower.as_str(), "jpg") || str_is(lower.as_str(), "jpeg") || str_is(lower.as_str(), "png")
}

} // verus!

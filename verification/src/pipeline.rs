//! Decisions of the Video/Images → PLY run that do not touch the disk:
//! where the project lives, how many stills are enough, how stills and
//! progress messages are named, when the camera stage is skipped, what each
//! of its COLMAP steps needs first, and what a finished stage reports.
//!
//! The run itself (copying inputs, driving the sidecars, archiving) performs
//! file and process I/O and lives with the application.

use vstd::prelude::*;

use crate::archive::{scratch_name_text, ArchiveLibrary, SCRATCH_DIR};
use crate::capture_mode::CaptureMode;
use crate::colmap_log::{band_for, fresh_snapshot, CameraSnapshot};
use crate::error::{is_sidecar, PipelineError};
use crate::paths::join_path;
use crate::project::{ProjectLayout, Stage, MIN_FRAMES, OUTPUT_PLY};
use crate::settings::{extension_of, ExtractMode, FrameFormat};
use crate::sidecar::{args_view, CommandSpec};
use crate::text::{dec_str, push_dec, push_str, str_is, string_from};

verus! {

broadcast use vstd::string::group_string_axioms;

/// What the user handed the pipeline.
#[derive(Debug, Clone, Copy, PartialEq, Eq, Structural)]
pub enum InputKind {
    Video,
    Images,
}

pub open spec fn kind_name(kind: InputKind) -> Seq<char> {
    match kind {
        InputKind::Video => "video"@,
        InputKind::Images => "images"@,
    }
}

/// The `source_kind` recorded in manifests and archive entries.
pub fn source_kind(kind: InputKind) -> (r: &'static str)
    ensures
        r@ == kind_name(kind),
{
    match kind {
        InputKind::Video => "video",
        InputKind::Images => "images",
    }
}

/// The input kind a request names: `images` is a still folder, anything else a video.
pub fn input_kind(source_kind: &str) -> (r: InputKind)
    ensures
        r == (if source_kind@ == "images"@ {
            InputKind::Images
        } else {
            InputKind::Video
        }),
{
    if str_is(source_kind, "images") {
        InputKind::Images
    } else {
        InputKind::Video
    }
}

/// PLY the viewer should load, plus archive ingest outcome.
#[derive(Debug, Clone)]
pub struct PipelineOutcome {
    pub ply: String,
    pub archive_id: Option<String>,
    pub archive_error: Option<String>,
    pub completed_stage: Stage,
    pub project_dir: String,
}

pub open spec fn no_project_text() -> Seq<char> {
    "Choose a project folder, or enable the temporary project folder."@
}

/// The chosen project folder; else, for a temporary project, the archive's
/// scratch folder for this source; else an error asking for a folder.
pub fn resolve_project_dir(
    project_dir: &Option<String>,
    temp_project: bool,
    library: &ArchiveLibrary,
    source: &str,
) -> (r: Result<String, PipelineError>)
    ensures
        project_dir matches Some(d) ==> (r matches Ok(p) && p@ == d@),
        project_dir is None && temp_project ==> (r matches Ok(p) && p@ == join_path(
            join_path(library.root_view(), SCRATCH_DIR@),
            scratch_name_text(source@, vstd::utf8::encode_utf8(source@)),
        )),
        project_dir is None && !temp_project ==> (r matches Err(PipelineError::Message(m)) && m@
            == no_project_text()),
{
    if let Some(dir) = project_dir {
        return Ok(dir.clone());
    }
    if temp_project {
        Ok(library.scratch_dir(source))
    } else {
        Err(
            PipelineError::message(
                "Choose a project folder, or enable the temporary project folder.".to_owned(),
            ),
        )
    }
}

/// What a run that stops after `stage` reports: the project's PLY and any
/// archive id already recorded for it.
pub fn stage_outcome(layout: &ProjectLayout, stage: Stage, archived_id: Option<String>) -> (r:
    PipelineOutcome)
    ensures
        r.ply@ == join_path(join_path(layout.root_view(), "output"@), OUTPUT_PLY@),
        r.archive_id == archived_id,
        r.archive_error is None,
        r.completed_stage == stage,
        r.project_dir@ == layout.root_view(),
{
    PipelineOutcome {
        ply: layout.output_ply(),
        archive_id: archived_id,
        archive_error: None,
        completed_stage: stage,
        project_dir: layout.root().to_owned(),
    }
}

/// What a finished training run reports once the archive has answered: the
/// archived PLY and its id, or the project's own PLY and the archive's error.
pub fn archived_outcome(layout: &ProjectLayout, archived: Result<(String, String), String>) -> (r:
    PipelineOutcome)
    ensures
        archived matches Ok((ply, id)) ==> r.ply == ply && r.archive_id == Some(id)
            && r.archive_error is None,
        archived matches Err(message) ==> r.ply@ == join_path(
            join_path(layout.root_view(), "output"@),
            OUTPUT_PLY@,
        ) && r.archive_id is None && r.archive_error == Some(message),
        r.completed_stage == Stage::Train,
        r.project_dir@ == layout.root_view(),
{
    match archived {
        Ok((ply, id)) => PipelineOutcome {
            ply,
            archive_id: Some(id),
            archive_error: None,
            completed_stage: Stage::Train,
            project_dir: layout.root().to_owned(),
        },
        Err(message) => PipelineOutcome {
            ply: layout.output_ply(),
            archive_id: None,
            archive_error: Some(message),
            completed_stage: Stage::Train,
            project_dir: layout.root().to_owned(),
        },
    }
}

pub open spec fn too_few_frames_text(n: nat) -> Seq<char> {
    "Need at least "@ + dec_str(MIN_FRAMES as nat) + " frames, found "@ + dec_str(n)
        + ". Use a longer clip or the Quality preset."@
}

/// SfM needs at least `MIN_FRAMES` stills.
pub fn check_frame_count(n: usize) -> (r: Result<(), PipelineError>)
    ensures
        n >= MIN_FRAMES <==> r is Ok,
        n < MIN_FRAMES ==> (r matches Err(PipelineError::Message(m)) && m@ == too_few_frames_text(
            n as nat,
        )),
{
    if n >= MIN_FRAMES {
        return Ok(());
    }
    let mut out: Vec<char> = Vec::new();
    push_str(&mut out, "Need at least ");
    push_dec(&mut out, MIN_FRAMES as u64);
    push_str(&mut out, " frames, found ");
    push_dec(&mut out, n as u64);
    push_str(&mut out, ". Use a longer clip or the Quality preset.");
    assert(out@ =~= too_few_frames_text(n as nat));
    Err(PipelineError::message(string_from(&out)))
}

/// Room mapping calibrates the view graph on a copy of the database.
pub fn is_view_graph_calibrator(spec: &CommandSpec) -> (r: bool)
    ensures
        r == (args_view(*spec).len() > 0 && args_view(*spec)[0] == "view_graph_calibrator"@),
{
    if spec.args.len() == 0 {
        return false;
    }
    str_is(spec.args[0].as_str(), "view_graph_calibrator")
}

/// Whether the camera stage runs, or resumes past an earlier reconstruction.
#[derive(Debug, Clone, Copy, PartialEq, Eq, Structural)]
pub enum ColmapStart {
    Skip,
    Run,
}

/// A camera stage marked complete whose model still has `images.bin` is not
/// run again; otherwise COLMAP runs.
pub fn colmap_start(marked_complete: bool, images_bin_present: bool) -> (r: ColmapStart)
    ensures
        r == (if marked_complete && images_bin_present {
            ColmapStart::Skip
        } else {
            ColmapStart::Run
        }),
{
    if marked_complete && images_bin_present {
        ColmapStart::Skip
    } else {
        ColmapStart::Run
    }
}

/// After the COLMAP steps: the stage failed, with the reshoot hint for the
/// capture mode, when no `images.bin` was written.
pub fn colmap_finish(images_bin_present: bool, mode: CaptureMode) -> (r: Result<(), PipelineError>)
    ensures
        images_bin_present ==> r is Ok,
        !images_bin_present ==> (r matches Err(e) && is_sidecar(
            e,
            "COLMAP"@,
            1,
            crate::error::pose_hint_text(mode),
        )),
{
    proof {
        reveal_strlit("");
    }
    if images_bin_present {
        Ok(())
    } else {
        Err(PipelineError::colmap_failed_with(1, "", mode))
    }
}

/// What the run does before one COLMAP step: copy the database first (for
/// the view-graph calibrator), and the live snapshot and message it starts from.
pub struct ColmapStep {
    pub copy_database: bool,
    pub snapshot: CameraSnapshot,
    pub message: &'static str,
}

/// The subcommand of a COLMAP spec (its first argument), or empty text.
pub open spec fn subcommand_of(spec: CommandSpec) -> Seq<char> {
    if args_view(spec).len() > 0 {
        args_view(spec)[0]
    } else {
        ""@
    }
}

/// The start of one COLMAP step over `selected` frames.
pub fn colmap_step(spec: &CommandSpec, selected: usize) -> (r: ColmapStep)
    ensures
        r.copy_database == (args_view(*spec).len() > 0 && args_view(*spec)[0]
            == "view_graph_calibrator"@),
        ({
            let (step, base, span, label) = band_for(subcommand_of(*spec));
            &&& r.snapshot == (CameraSnapshot {
                total: Some(selected as u32),
                ..fresh_snapshot(step, base, span)
            })
            &&& r.message@ == label
        }),
{
    let copy_database = is_view_graph_calibrator(spec);
    let (mut snapshot, message) = if spec.args.len() > 0 {
        CameraSnapshot::for_spec(spec.args[0].as_str())
    } else {
        CameraSnapshot::for_spec("")
    };
    snapshot.total = Some(selected as u32);
    ColmapStep { copy_database, snapshot, message }
}

/// `n` in decimal, left-padded with zeros to at least `width` digits.
pub open spec fn zero_padded(n: nat, width: nat) -> Seq<char> {
    let d = dec_str(n);
    if d.len() >= width {
        d
    } else {
        Seq::new((width - d.len()) as nat, |_i: int| '0') + d
    }
}

/// Name of the `k`-th extracted video still (counting from 0):
/// `frame_00001.jpg`, `frame_00002.jpg`, ...
pub open spec fn video_frame_text(k: nat, format: FrameFormat) -> Seq<char> {
    "frame_"@ + zero_padded(k + 1, 5) + "."@ + extension_of(format)
}

pub fn video_frame_name(k: usize, format: FrameFormat) -> (r: String)
    requires
        k < usize::MAX,
    ensures
        r@ == video_frame_text(k as nat, format),
{
    let mut digits: Vec<char> = Vec::new();
    push_dec(&mut digits, (k + 1) as u64);
    let mut out: Vec<char> = Vec::new();
    push_str(&mut out, "frame_");
    let mut pad = digits.len();
    while pad < 5
        invariant
            digits@ == dec_str((k + 1) as nat),
            digits@.len() <= pad <= 5 || (pad == digits@.len() && pad >= 5),
            out@ == "frame_"@ + Seq::new((pad - digits@.len()) as nat, |_i: int| '0'),
        decreases 5 - pad,
    {
        out.push('0');
        pad += 1;
        assert(out@ =~= "frame_"@ + Seq::new((pad - digits@.len()) as nat, |_i: int| '0'));
    }
    let ghost zeros = Seq::new((pad - digits@.len()) as nat, |_i: int| '0');
    for i in 0..digits.len()
        invariant
            out@ == "frame_"@ + zeros + digits@.take(i as int),
    {
        out.push(digits[i]);
        assert(digits@.take(i + 1) == digits@.take(i as int).push(digits@[i as int]));
        assert(out@ =~= "frame_"@ + zeros + digits@.take(i + 1));
    }
    assert(digits@.take(digits@.len() as int) =~= digits@);
    push_str(&mut out, ".");
    push_str(&mut out, format.extension());
    proof {
        if digits@.len() >= 5 {
            assert(zeros =~= Seq::<char>::empty());
        }
        assert(out@ =~= video_frame_text(k as nat, format));
    }
    string_from(&out)
}

pub open spec fn extracting_text(mode: ExtractMode, picked: nat, max_keep: nat) -> Seq<char> {
    "Extracting "@ + dec_str(picked) + " keyframes"@ + if mode == ExtractMode::Change && picked
        >= max_keep {
        " (capped at "@ + dec_str(max_keep) + ")"@
    } else {
        Seq::empty()
    }
}

/// Progress text for the full-resolution keyframe pass; Change mode says
/// when the keyframe cap was reached.
pub fn extracting_message(mode: ExtractMode, picked: usize, max_keep: usize) -> (r: String)
    ensures
        r@ == extracting_text(mode, picked as nat, max_keep as nat),
{
    let mut out: Vec<char> = Vec::new();
    push_str(&mut out, "Extracting ");
    push_dec(&mut out, picked as u64);
    push_str(&mut out, " keyframes");
    if mode == ExtractMode::Change && picked >= max_keep {
        push_str(&mut out, " (capped at ");
        push_dec(&mut out, max_keep as u64);
        push_str(&mut out, ")");
    }
    assert(out@ =~= extracting_text(mode, picked as nat, max_keep as nat));
    string_from(&out)
}

} // verus!

use simple3dgs::pipeline::{colmap_start, ColmapStart};
use simple3dgs::pipeline::colmap_finish;
use simple3dgs::colmap_log::CameraStep;
use simple3dgs::pipeline::colmap_step;
use simple3dgs::archive::ArchiveLibrary;
use simple3dgs::capture_mode::CaptureMode;
use simple3dgs::error::PipelineError;
use simple3dgs::pipeline::{
    archived_outcome, check_frame_count, extracting_message, is_view_graph_calibrator, resolve_project_dir,
    source_kind, stage_outcome, video_frame_name, InputKind,
};
use simple3dgs::project::{ProjectLayout, Stage};
use simple3dgs::settings::{ExtractMode, FrameFormat};
use simple3dgs::sidecar::CommandSpec;

#[test]
fn source_kinds_name_the_input() {
    assert_eq!(source_kind(InputKind::Video), "video");
    assert_eq!(source_kind(InputKind::Images), "images");
}

#[test]
fn project_dir_prefers_choice_then_scratch_then_errors() {
    let lib = ArchiveLibrary::at("/lib");
    let chosen = Some("/projects/p".to_string());
    assert_eq!(resolve_project_dir(&chosen, true, &lib, "/v/clip.mp4").unwrap(), "/projects/p");
    let scratch = resolve_project_dir(&None, true, &lib, "/v/clip.mp4").unwrap();
    assert_eq!(scratch, lib.scratch_dir("/v/clip.mp4"));
    assert!(scratch.starts_with("/lib/.scratch/clip_"));
    match resolve_project_dir(&None, false, &lib, "/v/clip.mp4") {
        Err(PipelineError::Message(m)) => assert_eq!(
            m,
            "Choose a project folder, or enable the temporary project folder."
        ),
        other => panic!("unexpected {other:?}"),
    }
}

#[test]
fn too_few_frames_is_a_clear_error() {
    assert!(check_frame_count(8).is_ok());
    assert!(check_frame_count(500).is_ok());
    match check_frame_count(3) {
        Err(PipelineError::Message(m)) => assert_eq!(
            m,
            "Need at least 8 frames, found 3. Use a longer clip or the Quality preset."
        ),
        other => panic!("unexpected {other:?}"),
    }
}

#[test]
fn stage_outcome_points_at_the_project_ply() {
    let layout = ProjectLayout::new("/p");
    let out = stage_outcome(&layout, Stage::Colmap, Some("id1".to_string()));
    assert_eq!(out.ply, "/p/output/scene.ply");
    assert_eq!(out.archive_id.as_deref(), Some("id1"));
    assert!(out.archive_error.is_none());
    assert_eq!(out.completed_stage, Stage::Colmap);
    assert_eq!(out.project_dir, "/p");
}

#[test]
fn view_graph_calibrator_is_recognised_by_subcommand() {
    let calib = CommandSpec::new("colmap", vec!["view_graph_calibrator".into(), "x".into()]);
    assert!(is_view_graph_calibrator(&calib));
    let mapper = CommandSpec::new("colmap", vec!["mapper".into()]).capture(CaptureMode::Room);
    assert!(!is_view_graph_calibrator(&mapper));
    assert!(!is_view_graph_calibrator(&CommandSpec::new("colmap", vec![])));
}

#[test]
fn video_frames_are_numbered_from_one_with_padding() {
    assert_eq!(video_frame_name(0, FrameFormat::Jpg), "frame_00001.jpg");
    assert_eq!(video_frame_name(41, FrameFormat::Png), "frame_00042.png");
    assert_eq!(video_frame_name(99_999, FrameFormat::Jpg), "frame_100000.jpg");
}

#[test]
fn change_mode_reports_the_keyframe_cap() {
    assert_eq!(
        extracting_message(ExtractMode::Change, 250, 250),
        "Extracting 250 keyframes (capped at 250)"
    );
    assert_eq!(extracting_message(ExtractMode::Change, 40, 250), "Extracting 40 keyframes");
    assert_eq!(extracting_message(ExtractMode::Density, 300, 250), "Extracting 300 keyframes");
}

use simple3dgs::pipeline::input_kind;

#[test]
fn request_source_kind_picks_the_input() {
    assert_eq!(input_kind("images"), InputKind::Images);
    assert_eq!(input_kind("video"), InputKind::Video);
    assert_eq!(input_kind("Images"), InputKind::Video);
    assert_eq!(input_kind(""), InputKind::Video);
}

#[test]
fn archived_outcome_reports_the_archive_or_its_error() {
    let layout = ProjectLayout::new("/p");
    let ok = archived_outcome(&layout, Ok(("/a/e1/scene.ply".to_string(), "e1".to_string())));
    assert_eq!(ok.ply, "/a/e1/scene.ply");
    assert_eq!(ok.archive_id.as_deref(), Some("e1"));
    assert!(ok.archive_error.is_none());
    assert_eq!(ok.completed_stage, Stage::Train);
    assert_eq!(ok.project_dir, "/p");
    let failed = archived_outcome(&layout, Err("disk full".to_string()));
    assert_eq!(failed.ply, "/p/output/scene.ply");
    assert!(failed.archive_id.is_none());
    assert_eq!(failed.archive_error.as_deref(), Some("disk full"));
    assert_eq!(failed.completed_stage, Stage::Train);
}

#[test]
fn colmap_stage_resumes_only_with_a_model() {
    assert_eq!(colmap_start(true, true), ColmapStart::Skip);
    assert_eq!(colmap_start(true, false), ColmapStart::Run);
    assert_eq!(colmap_start(false, true), ColmapStart::Run);
    assert_eq!(colmap_start(false, false), ColmapStart::Run);
}

#[test]
fn colmap_stage_fails_without_images_bin() {
    assert!(colmap_finish(true, CaptureMode::Room).is_ok());
    match colmap_finish(false, CaptureMode::Object) {
        Err(PipelineError::Sidecar { tool, code, hint }) => {
            assert_eq!(tool, "COLMAP");
            assert_eq!(code, 1);
            assert_eq!(
                hint,
                "Reconstruction could not estimate camera poses. Film a slower orbit with more overlap, less motion blur, and even lighting."
            );
        }
        other => panic!("expected a COLMAP failure, got {other:?}"),
    }
}

#[test]
fn colmap_step_copies_the_database_before_calibrating() {
    let calibrate = CommandSpec::new("colmap", vec!["view_graph_calibrator".to_string()]);
    let step = colmap_step(&calibrate, 42);
    assert!(step.copy_database);
    assert_eq!(step.message, "Calibrating cameras");
    assert_eq!(step.snapshot.total, Some(42));
    assert_eq!(step.snapshot.step, CameraStep::Calibrating);
    let features = CommandSpec::new("colmap", vec!["feature_extractor".to_string()]);
    let step = colmap_step(&features, 7);
    assert!(!step.copy_database);
    assert_eq!(step.message, "Extracting features");
    assert_eq!(step.snapshot.percent(), 20);
    let bare = colmap_step(&CommandSpec::new("colmap", Vec::new()), 3);
    assert!(!bare.copy_database);
    assert_eq!(bare.message, "Estimating camera poses");
}

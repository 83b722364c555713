use simple3dgs::capture_mode::CaptureMode;
use simple3dgs::error::PipelineError;
use simple3dgs::sidecar::{
    cancelled_outcome, failure_for, path_arg, poll_step, remember, CancelFlag, CommandSpec,
    PollStep,
};

#[test]
fn command_spec_builders_keep_other_fields() {
    let spec = CommandSpec::new("brush", vec![path_arg("/d")])
        .watching("/o")
        .capture(CaptureMode::Outdoor);
    assert_eq!(spec.sidecar, "brush");
    assert_eq!(spec.args, vec!["/d".to_string()]);
    assert_eq!(spec.watch_dir.as_deref(), Some("/o"));
    assert_eq!(spec.capture_mode, CaptureMode::Outdoor);
    assert_eq!(CommandSpec::new("x", vec![]).capture_mode, CaptureMode::Object);
}

#[test]
fn cancel_flag_round_trips() {
    let flag = CancelFlag::new();
    assert!(!flag.is_cancelled());
    assert!(flag.check().is_ok());
    let shared = flag.clone();
    shared.cancel();
    assert!(flag.is_cancelled());
    assert!(matches!(flag.check(), Err(PipelineError::Cancelled)));
    flag.reset();
    assert!(!shared.is_cancelled());
}

#[test]
fn failures_name_the_tool() {
    let ffmpeg = failure_for(&CommandSpec::new("ffmpeg", vec![]), 1, "");
    assert!(matches!(ffmpeg, PipelineError::Sidecar { ref tool, code: 1, .. } if tool == "FFmpeg"));
    let brush = failure_for(&CommandSpec::new("brush", vec![]), 2, "");
    assert!(matches!(brush, PipelineError::Sidecar { ref tool, code: 2, .. } if tool == "Brush"));
    let colmap = failure_for(&CommandSpec::new("colmap", vec![]), 3, "");
    assert!(matches!(colmap, PipelineError::Sidecar { ref tool, code: 3, .. } if tool == "COLMAP"));
    match failure_for(&CommandSpec::new("other", vec![]), -1, "") {
        PipelineError::Sidecar { tool, code, hint } => {
            assert_eq!(tool, "other");
            assert_eq!(code, -1);
            assert_eq!(hint, "The sidecar exited with an error.");
        }
        e => panic!("unexpected {e:?}"),
    }
}

#[test]
fn tail_keeps_the_last_forty_lines() {
    let mut tail = Vec::new();
    for i in 0..45 {
        remember(&mut tail, format!("line {i}"));
    }
    assert_eq!(tail.len(), 40);
    assert_eq!(tail[0], "line 5");
    assert_eq!(tail[39], "line 44");
}

#[test]
fn a_set_flag_reads_as_cancelled() {
    assert!(matches!(cancelled_outcome(true), Err(PipelineError::Cancelled)));
    assert!(matches!(cancelled_outcome(false), Ok(())));
}

#[test]
fn poll_step_kills_on_cancel_and_previews_every_tenth_tick() {
    assert_eq!(poll_step(true, true, 3), PollStep::Kill);
    assert_eq!(poll_step(false, true, 3), PollStep::Exited);
    assert_eq!(poll_step(false, false, 3), PollStep::Wait { ticks: 4, preview: false });
    assert_eq!(poll_step(false, false, 9), PollStep::Wait { ticks: 10, preview: true });
    assert_eq!(poll_step(false, false, u32::MAX), PollStep::Wait { ticks: u32::MAX, preview: false });
}

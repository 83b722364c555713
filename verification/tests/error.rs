use simple3dgs::capture_mode::CaptureMode;
use simple3dgs::error::{
    colmap_hint_for, faiss_abort_markers, faiss_matcher_aborted, metal_sift_markers,
    metal_sift_unavailable, PipelineError,
};
use std::io;

#[test]
fn colmap_flag_errors_are_not_blamed_on_capture() {
    let err = PipelineError::colmap_failed_with(
        1,
        "E... Failed to parse options - unrecognised option '--SiftExtraction.use_gpu'.",
        CaptureMode::Object,
    );
    let msg = err.to_message();
    assert!(msg.contains("command flag"));
    assert!(msg.contains("SiftExtraction"));
    assert!(!msg.contains("slower orbit"));
}

#[test]
fn metal_sift_failure_is_not_blamed_on_capture() {
    let err = PipelineError::colmap_failed_with(
        1,
        "E... Failed to initialize Metal SIFT extractor",
        CaptureMode::Object,
    );
    let msg = err.to_message();
    assert!(msg.contains("GPU SIFT"));
    assert!(msg.contains("--colmap-metal"));
    assert!(!msg.contains("slower orbit"));
}

#[test]
fn homebrew_qt_cocoa_abort_is_not_blamed_on_capture() {
    let log = r#"qt.qpa.plugin: Could not find the Qt platform plugin "cocoa" in ""
This application failed to start because no Qt platform plugin could be initialized. Reinstalling the application may fix this problem.
*** SIGABRT (@0x18a0e25e8) received by PID 99998
@        0x189d5fe00 (unknown)"#;
    let err = PipelineError::colmap_failed_with(1, log, CaptureMode::Object);
    let msg = err.to_message();
    assert!(msg.contains("GPU SIFT"));
    assert!(msg.contains("Qt/OpenGL") || msg.contains("cocoa") || msg.contains("platform plugin"));
    assert!(msg.contains("--colmap-metal"));
    assert!(!msg.contains("slower orbit"));
    assert!(!msg.contains("0x189d5fe00"));
}

#[test]
fn ffmpeg_select_parse_failure_is_not_a_bad_file() {
    let log = r#"[Parsed_select_1 @ 0x7a8c08d80] Error while parsing expression 'eq(n,1)+eq(n,6)+eq(n,11)'
[AVFilterGraph @ 0x7a9008680] Error initializing filters
Error opening output files: Cannot allocate memory"#;
    let err = PipelineError::ffmpeg_failed_with(1, log);
    let msg = err.to_message();
    assert!(msg.contains("select filter"));
    assert!(!msg.contains("Try MP4/MOV"));
}

#[test]
fn faiss_ivf_matcher_abort_is_not_blamed_on_capture() {
    let log = r#"Creating SIFT CPU feature matcher
Generating exhaustive image pairs...
Processing block [1/5, 1/5]
libc++abi: terminating due to uncaught exception of type faiss::FaissException: Error in virtual void faiss::IndexIVF::search(...) at IndexIVF.cpp:303: Error: 'k > 0' failed
*** SIGABRT (@0x18a0e25e8) received by PID 14236
@        0x18a02f3b8 (unknown)"#;
    let err = PipelineError::colmap_failed_with(1, log, CaptureMode::Room);
    let msg = err.to_message();
    assert!(msg.contains("FAISS"));
    assert!(msg.contains("brute-force") || msg.contains("Eigen"));
    assert!(!msg.contains("Walk slowly"));
    assert!(!msg.contains("0x18a02f3b8"));
}

#[test]
fn matcher_sigsegv_is_not_blamed_on_capture() {
    let log = r#"Creating SIFT CPU feature matcher
Generating exhaustive image pairs...
Processing block [1/5, 1/5]
*** SIGSEGV (@0xffffffffbfc00807) received by PID 22936
@        0x18a02f3b8 (unknown)"#;
    let err = PipelineError::colmap_failed_with(1, log, CaptureMode::Room);
    let msg = err.to_message();
    assert!(msg.contains("FAISS") || msg.contains("OpenMP"));
    assert!(msg.contains("brute-force") || msg.contains("Eigen"));
    assert!(!msg.contains("Walk slowly"));
    assert!(!msg.contains("0x18a02f3b8"));
}

#[test]
fn room_pose_hint_is_not_an_orbit() {
    let msg = PipelineError::colmap_failed_with(1, "", CaptureMode::Room).to_message();
    assert!(msg.contains("walls"));
    assert!(!msg.to_lowercase().contains("orbit"));
}

#[test]
fn outdoor_pose_hint_is_not_an_orbit() {
    let msg = PipelineError::colmap_failed_with(1, "", CaptureMode::Outdoor).to_message();
    assert!(msg.contains("sky"));
    assert!(!msg.to_lowercase().contains("orbit"));
}

#[test]
fn permission_denied_names_the_path_and_privacy_settings() {
    let err = PipelineError::from_io_path(
        io::Error::from_raw_os_error(1),
        "/Users/frank/Documents/Simple 3DGS/archive",
    );
    let msg = err.to_message();
    assert!(msg.contains("Documents/Simple 3DGS/archive"));
    assert!(msg.contains("Files and Folders"));
    assert!(!msg.contains("I/O error"));
}

#[test]
fn brush_fusion_panic_is_not_blamed_on_ram() {
    let log = "thread 'cli-trainer' panicked at burn-fusion/src/client.rs:200:14:\nOrdering is bigger than operations";
    let msg = PipelineError::brush_failed_with(0, log).to_message();
    assert!(msg.contains("Burn fusion"));
    assert!(!msg.contains("16 GB"));
    let generic = PipelineError::brush_failed(1).to_message();
    assert!(generic.contains("16 GB"));
}

#[test]
fn other_io_errors_keep_the_generic_prefix() {
    let err = PipelineError::from_io_path(io::Error::from_raw_os_error(2), "/missing");
    assert!(err.to_message().starts_with("I/O error:"));
}

#[test]
fn sidecar_message_renders_tool_exit_code_and_hint() {
    let msg = PipelineError::ffmpeg_failed(-9).to_message();
    assert_eq!(
        msg,
        "FFmpeg failed (exit -9). Could not read the video. Try MP4/MOV, or replace the bundled ffmpeg sidecar."
    );
    assert_eq!(PipelineError::Cancelled.to_message(), "Cancelled");
    assert_eq!(PipelineError::message("plain".to_string()).to_message(), "plain");
}

#[test]
fn colmap_pose_hint_appends_last_useful_line() {
    let log = "Loading database\nSome failure here\n*** SIGABRT received\n@ 0x1 (unknown)\n";
    let hint = colmap_hint_for(log, &log.to_lowercase(), CaptureMode::Object);
    assert_eq!(
        hint,
        "Reconstruction could not estimate camera poses. Film a slower orbit with more overlap, less motion blur, and even lighting. (Some failure here)"
    );
    let dyld = colmap_hint_for("dyld: Library not loaded: libfoo", "", CaptureMode::Room);
    assert_eq!(dyld, "COLMAP could not load a library. dyld: Library not loaded: libfoo");
}

#[test]
fn lowercase_markers_need_the_lowered_text() {
    assert!(metal_sift_markers("failed to initialize metal sift"));
    assert!(!metal_sift_markers("Failed to initialize Metal SIFT"));
    assert!(metal_sift_unavailable("Failed to initialize Metal SIFT"));
    assert!(faiss_abort_markers("processing block\n*** sigsegv"));
    assert!(!faiss_abort_markers("*** sigsegv without matching"));
    assert!(faiss_matcher_aborted("Feature Matching ... SIGABRT"));
}

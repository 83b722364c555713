use simple3dgs::capture_mode::CaptureMode;
use simple3dgs::ffmpeg::{ffmetadata_spec, jpeg_q_scale};

#[test]
fn jpeg_quality_100_is_qscale_2() {
    assert_eq!(jpeg_q_scale(100), 2);
    assert_eq!(jpeg_q_scale(1), 31);
}

#[test]
fn jpeg_quality_clamps_and_scales() {
    assert_eq!(jpeg_q_scale(0), 31);
    assert_eq!(jpeg_q_scale(255), 2);
    assert_eq!(jpeg_q_scale(95), 3);
    assert_eq!(jpeg_q_scale(50), 16);
}

#[test]
fn ffmetadata_dumps_to_stdout() {
    let spec = ffmetadata_spec("/tmp/clip.mov");
    assert_eq!(spec.sidecar, "ffmpeg");
    assert!(spec
        .args
        .windows(2)
        .any(|w| w[0] == "-f" && w[1] == "ffmetadata"));
    assert_eq!(spec.args.last().map(String::as_str), Some("-"));
    assert_eq!(spec.args[2], "/tmp/clip.mov");
}

#[test]
fn ffmetadata_spec_is_the_whole_probe_command() {
    let spec = ffmetadata_spec("/tmp/clip.mov");
    assert_eq!(spec.args, vec!["-hide_banner", "-i", "/tmp/clip.mov", "-f", "ffmetadata", "-"]);
    assert!(spec.watch_dir.is_none());
    assert_eq!(spec.capture_mode, CaptureMode::Object);
}

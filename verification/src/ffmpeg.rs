//! FFmpeg command pieces that do not depend on the float extract settings.

use vstd::prelude::*;

use crate::capture_mode::CaptureMode;

use crate::sidecar::{args_view, path_arg, CommandSpec};

verus! {

broadcast use vstd::string::group_string_axioms;

/// UI JPEG quality 1–100 (best) mapped onto FFmpeg `-q:v` 2–31 (lower is better).
pub open spec fn q_scale(quality: u8) -> u8 {
    let q: int = if quality < 1 {
        1
    } else if quality > 100 {
        100
    } else {
        quality as int
    };
    (2 + ((100 - q) * 29) / 99) as u8
}

/// Maps UI JPEG quality 1–100 (best) onto FFmpeg `-q:v` 2–31 (lower is better).
pub fn jpeg_q_scale(quality: u8) -> (r: u8)
    ensures
        r == q_scale(quality),
{
    let q: u16 = if quality < 1 {
        1
    } else if quality > 100 {
        100
    } else {
        quality as u16
    };
    (2 + ((100 - q) * 29) / 99) as u8
}

/// The FFmpeg scale always lands in 2..=31, and better quality never gives a
/// larger (worse) scale.
pub proof fn law_q_scale_range_and_order(a: u8, b: u8)
    ensures
        2 <= q_scale(a) <= 31,
        a <= b ==> q_scale(b) <= q_scale(a),
{
    let qa: int = if a < 1 { 1 } else if a > 100 { 100 } else { a as int };
    let qb: int = if b < 1 { 1 } else if b > 100 { 100 } else { b as int };
    assert(0 <= (100 - qa) * 29 / 99 <= 29) by (nonlinear_arith)
        requires
            1 <= qa <= 100,
    ;
    assert(a <= b ==> (100 - qb) * 29 / 99 <= (100 - qa) * 29 / 99) by (nonlinear_arith)
        requires
            1 <= qa <= 100,
            1 <= qb <= 100,
            a <= b ==> qa <= qb,
    ;
}

/// Dumps container tags to stdout as ffmetadata. Stderr still carries QuickTime keys.
pub fn ffmetadata_spec(video: &str) -> (r: CommandSpec)
    ensures
        r.sidecar@ == "ffmpeg"@,
        args_view(r) == seq!["-hide_banner"@, "-i"@, video@, "-f"@, "ffmetadata"@, "-"@],
        r.watch_dir is None,
        r.capture_mode == CaptureMode::Object,
{
    let args: Vec<String> = vec![
        "-hide_banner".to_owned(),
        "-i".to_owned(),
        path_arg(video),
        "-f".to_owned(),
        "ffmetadata".to_owned(),
        "-".to_owned(),
    ];
    let r = CommandSpec::new("ffmpeg", args);
    assert(args_view(r) =~= seq!["-hide_banner"@, "-i"@, video@, "-f"@, "ffmetadata"@, "-"@]);
    r
}

} // verus!

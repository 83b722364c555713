use simple3dgs::frame_log::{fraction_from_counts, percent_for, FramePass};

#[test]
fn candidates_take_the_first_half_and_keyframes_the_second() {
    assert_eq!(percent_for(FramePass::Candidates, 0), 0);
    assert_eq!(percent_for(FramePass::Candidates, 100), 50);
    assert_eq!(percent_for(FramePass::Keyframes, 0), 50);
    assert_eq!(percent_for(FramePass::Keyframes, 100), 99);
    assert_eq!(percent_for(FramePass::Import, 0), 5);
    assert_eq!(percent_for(FramePass::Import, 60), 60);
}

#[test]
fn counts_give_a_bounded_share() {
    assert_eq!(fraction_from_counts(Some(5), Some(10)), 50);
    assert_eq!(fraction_from_counts(Some(20), Some(10)), 100);
    assert_eq!(fraction_from_counts(Some(5), Some(0)), 0);
    assert_eq!(fraction_from_counts(None, Some(10)), 0);
    assert_eq!(fraction_from_counts(Some(u32::MAX), Some(u32::MAX)), 100);
}

use simple3dgs::frame_log::{frame_summary, parse_progress_field, parse_stderr_frame};

#[test]
fn stderr_frame_counter_is_read() {
    assert_eq!(
        parse_stderr_frame("frame=  42 fps= 12 q=28.0 size=   0kB time=00:00:01.00"),
        Some(42)
    );
    assert_eq!(parse_stderr_frame("configuration: --enable-videotoolbox"), None);
    assert_eq!(parse_stderr_frame("frame= x"), None);
}

#[test]
fn progress_fields_are_trimmed_keys_and_values() {
    assert_eq!(
        parse_progress_field("out_time_us=5000000"),
        Some(("out_time_us".to_string(), "5000000".to_string()))
    );
    assert_eq!(
        parse_progress_field(" frame = 12 "),
        None
    );
    assert_eq!(
        parse_progress_field("frame= 12 "),
        Some(("frame".to_string(), "12".to_string()))
    );
    assert_eq!(parse_progress_field("configuration: --enable-videotoolbox"), None);
}

#[test]
fn frame_summary_lists_counts_and_times() {
    assert_eq!(
        frame_summary(FramePass::Candidates, Some(3), Some(10), Some(2), Some(65), Some(5)),
        "Candidate frames · 3 / 10 · 2 kept · 1m 05s · ETA 5s"
    );
    assert_eq!(
        frame_summary(FramePass::Keyframes, Some(7), None, None, None, None),
        "Extracting keyframes · frame 7"
    );
    assert_eq!(
        frame_summary(FramePass::Import, None, Some(9), None, None, None),
        "Importing stills"
    );
}

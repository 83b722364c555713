use simple3dgs::train_log::{
    eval_fields, format_elapsed, parse_dataset, parse_export_iter, parse_refine,
    newest_export, step_after_export, strip_log_prefix, train_percent, trainer_panicked,
};

#[test]
fn trainer_panicked_catches_burn_fusion_and_ignores_done() {
    assert!(trainer_panicked(
        "Ordering is bigger than operations: ordering len 49, operations len 0"
    ));
    assert!(trainer_panicked(
        "thread 'cli-trainer' panicked at /Users/frank/.cargo/git/checkouts/burn-6c277d792b0d5d7a/b6e27bd/crates/burn-fusion/src/client.rs:200:14:"
    ));
    assert!(trainer_panicked(
        "called `Result::unwrap()` on an `Err` value: CallError(task panicked on device runner thread: Ordering is bigger than operations)"
    ));
    assert!(!trainer_panicked(
        "INFO brush_cli: Done training! Took FormattedDuration(1s)."
    ));
    assert!(!trainer_panicked("Refine iter 50, 12000 splats."));
}

fn body(line: &str) -> String {
    strip_log_prefix(line).into_iter().collect()
}

#[test]
fn log_prefix_is_dropped_before_known_messages() {
    assert_eq!(
        body("INFO brush_cli: Loaded dataset with 42 training, 0 eval views"),
        "Loaded dataset with 42 training, 0 eval views"
    );
    assert_eq!(body("  12:00 Refine iter 500, 12 splats.  "), "Refine iter 500, 12 splats.");
    assert_eq!(body("x Eval iter 3: PSNR 1, ssim 2"), "Eval iter 3: PSNR 1, ssim 2");
    assert_eq!(body("  Starting up "), "Starting up");
}

#[test]
fn dataset_line_gives_view_counts() {
    assert_eq!(
        parse_dataset("Loaded dataset with 42 training, 0 eval views"),
        Some((42, 0))
    );
    assert_eq!(parse_dataset("Loaded dataset with 7 training,,  3 eval"), Some((7, 3)));
    assert_eq!(parse_dataset("Loaded dataset with many training, 0 eval"), None);
    assert_eq!(parse_dataset("INFO Loaded dataset with 42 training, 0 eval"), None);
}

#[test]
fn refine_line_gives_step_and_splats() {
    assert_eq!(parse_refine("Refine iter 500, 123456 splats."), Some((500, 123456)));
    assert_eq!(parse_refine("Refine iter 1, 8 splats."), Some((1, 8)));
    assert_eq!(parse_refine("Refine iter 500 123456 splats."), None);
    assert_eq!(parse_refine("Starting up"), None);
}

#[test]
fn eval_line_splits_step_and_score_texts() {
    assert_eq!(
        eval_fields("Eval iter 1000: PSNR 24.5, ssim 0.812"),
        Some((1000, "24.5".to_string(), "0.812".to_string()))
    );
    assert_eq!(eval_fields("Eval iter 1000: PSNR 24.5"), None);
    assert_eq!(eval_fields("Eval iter x: PSNR 24.5, ssim 0.8"), None);
}

#[test]
fn export_paths_give_padded_steps() {
    assert_eq!(parse_export_iter("/tmp/export_01000.ply"), Some(1000));
    assert_eq!(parse_export_iter("/tmp/export_0500.ply"), Some(500));
    assert_eq!(parse_export_iter("/tmp/scene.ply"), None);
}

#[test]
fn export_checkpoints_only_move_forward() {
    let (iter, changed) = step_after_export(None, "/tmp/export_01000.ply");
    assert!(changed);
    assert_eq!(iter, Some(1000));
    assert_eq!(step_after_export(iter, "/tmp/export_0500.ply"), (Some(1000), false));
    assert_eq!(step_after_export(iter, "/tmp/scene.ply"), (Some(1000), false));
    assert_eq!(step_after_export(iter, "/tmp/export_1000.ply"), (Some(1000), false));
}

#[test]
fn train_percent_maps_steps_into_the_band() {
    assert_eq!(train_percent(None, 15_000), 15);
    assert_eq!(train_percent(Some(500), 15_000), 17);
    assert_eq!(train_percent(Some(1000), 1000), 95);
    assert_eq!(train_percent(Some(5000), 1000), 99);
    assert_eq!(train_percent(Some(3), 0), 99);
}

#[test]
fn elapsed_reads_as_seconds_then_minutes() {
    assert_eq!(format_elapsed(42), "42s");
    assert_eq!(format_elapsed(187), "3m 07s");
    assert_eq!(format_elapsed(0), "0s");
}

#[test]
fn train_percent_never_goes_back_as_steps_grow() {
    let mut last = train_percent(None, 7_000);
    for step in [0u32, 1, 100, 3_500, 6_999, 7_000, 9_000] {
        let p = train_percent(Some(step), 7_000);
        assert!(p >= last && (15..=99).contains(&p));
        last = p;
    }
}

#[test]
fn newest_export_is_the_highest_step_first_of_equals() {
    let paths: Vec<String> = [
        "/o/export_000500.ply",
        "/o/scene.ply",
        "/o/export_2000.ply",
        "/o/x/export_002000.ply",
        "/o/export_abc.ply",
    ]
    .iter()
    .map(|s| s.to_string())
    .collect();
    assert_eq!(newest_export(&paths), Some(2));
    assert_eq!(newest_export(&paths[..2].to_vec()), Some(0));
    assert_eq!(newest_export(&vec!["/o/scene.ply".to_string()]), None);
    assert_eq!(newest_export(&Vec::new()), None);
}

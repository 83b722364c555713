use simple3dgs::brush::{
    export_cadence, preview_export_every, refine_cadence, refine_every, train_args,
    BrushSchedule,
};

#[test]
fn refine_every_tracks_coverage_then_caps_in_bounds() {
    assert_eq!(refine_every(20), 50);
    assert_eq!(refine_every(80), 80);
    assert_eq!(refine_every(400), 200);
}

#[test]
fn preview_cadence_is_a_tenth_of_training_within_bounds() {
    assert_eq!(preview_export_every(2500), 250);
    assert_eq!(preview_export_every(5000), 500);
    assert_eq!(preview_export_every(30_000), 1000);
}

#[test]
fn zero_knobs_keep_the_heuristics() {
    assert_eq!(refine_cadence(0, 80), 80);
    assert_eq!(refine_cadence(33, 80), 33);
    assert_eq!(export_cadence(0, 2500), 250);
    assert_eq!(export_cadence(700, 2500), 700);
}

#[test]
fn train_args_order_caps_and_cadences() {
    let knobs: Vec<String> = vec!["--lr-mean".to_string(), "0.00002".to_string()];
    let spec = train_args("/p/dataset", "/p/output", 7000, 500000, 0, 0, 120, &knobs, Some(1600));
    assert_eq!(spec.sidecar, "brush");
    assert_eq!(
        spec.args,
        vec![
            "/p/dataset", "--total-train-iters", "7000", "--max-splats", "500000",
            "--refine-every", "120", "--export-path", "/p/output", "--export-name",
            "export_{iter}.ply", "--export-every", "700", "--lr-mean", "0.00002",
            "--max-resolution", "1600",
        ]
    );
    assert_eq!(spec.watch_dir.as_deref(), Some("/p/output"));
    let plain = train_args("/d", "/o", 30000, 10, 50, 9, 3, &Vec::new(), None);
    assert_eq!(
        plain.args,
        vec![
            "/d", "--total-train-iters", "30000", "--max-splats", "10", "--refine-every", "9",
            "--export-path", "/o", "--export-name", "export_{iter}.ply", "--export-every", "50",
        ]
    );
}

#[test]
fn whole_number_knobs_clamp_to_what_brush_survives() {
    let wild = BrushSchedule {
        refine_every: 200_000,
        growth_stop_iter: 2_000_000,
        sh_degree: 9,
        seed: 77,
        eval_every: 0,
        export_every: 5_000_000,
        lod_levels: 40,
        lod_refine_steps: 3_000_000,
        lod_decimation_keep: 0,
        lod_image_scale: 500,
        train_max_resolution: 0,
    };
    let s = wild.sanitized();
    assert_eq!(s.refine_every, 100_000);
    assert_eq!(s.growth_stop_iter, 1_000_000);
    assert_eq!(s.sh_degree, 5);
    assert_eq!(s.seed, 77);
    assert_eq!(s.eval_every, 1);
    assert_eq!(s.export_every, 1_000_000);
    assert_eq!(s.lod_levels, 16);
    assert_eq!(s.lod_refine_steps, 1_000_000);
    assert_eq!(s.lod_decimation_keep, 1);
    assert_eq!(s.lod_image_scale, 100);
    assert_eq!(s.train_max_resolution, 0);
    assert_eq!(s.sanitized(), s);
}

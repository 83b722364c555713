use simple3dgs::colmap_log::{records, strip_glog, ui_log, CameraSnapshot, CameraStep};

const MAPPER_TAIL: &str = r#"I20260816 17:08:10.424074 0x1f629de80 incremental_pipeline.cc:546] Registering image with structure-less fallback
I20260816 17:08:10.424075 0x1f629de80 incremental_pipeline.cc:548] => Image sees 2752 / 53464 correspondences
I20260816 17:08:10.424287 0x1f629de80 incremental_pipeline.cc:563] => Could not register, trying another image.
I20260816 17:08:10.424289 0x1f629de80 incremental_pipeline.cc:537] Registering image #407 (num_reg_frames=2)
I20260816 17:08:10.424301 0x1f629de80 incremental_pipeline.cc:540] => Image sees 2171 / 12989 points
I20260816 17:08:10.424303 0x1f629de80 incremental_pipeline.cc:546] Registering image with structure-less fallback
I20260816 17:08:10.424304 0x1f629de80 incremental_pipeline.cc:548] => Image sees 2715 / 51975 correspondences
I20260816 17:08:10.424522 0x1f629de80 incremental_pipeline.cc:563] => Could not register, trying another image.
I20260816 17:08:10.427004 0x1f629de80 incremental_pipeline.cc:537] Registering image #462 (num_reg_frames=2)
I20260816 17:08:10.427005 0x1f629de80 incremental_pipeline.cc:540] => Image sees 58 / 12103 points
I20260816 17:08:10.427197 0x1f629de80 incremental_pipeline.cc:563] => Could not register, trying another image.
I20260816 17:08:10.427391 0x1f629de80 incremental_pipeline.cc:723] Keeping successful reconstruction
I20260816 17:08:10.430540 0x1f629de80 timer.cc:90] Elapsed time: 0.009 [minutes]
"#;

#[test]
fn processed_file_maps_inside_feature_band() {
    let mut snap = CameraSnapshot::new(CameraStep::Features, 20, 30);
    assert!(snap.ingest("I0815 12:00:00.1 1 feature.cc:1] Processed file [25/100]"));
    assert_eq!(snap.processed, Some(25));
    assert_eq!(snap.total, Some(100));
    assert_eq!(snap.percent(), 27);
    assert!(snap.summary().contains("25 / 100"));
}

#[test]
fn matching_pairs_and_registering() {
    let mut snap = CameraSnapshot::new(CameraStep::Matching, 50, 20);
    assert!(snap.ingest("Matching image pair [10/200]"));
    assert_eq!(snap.percent(), 51);
    let mut map = CameraSnapshot::new(CameraStep::Mapping, 85, 14);
    assert!(map.ingest("Registering image #12 (num_reg_frames=3)"));
    assert_eq!(map.registered, Some(3));
    assert_eq!(map.processed, Some(3));
    assert_eq!(map.trying, Some(12));
    assert!(map.summary().contains("trying #12"));
}

#[test]
fn image_id_is_not_registered_count() {
    let mut map = CameraSnapshot::new(CameraStep::Mapping, 85, 14);
    assert!(!map.ingest("Registering image #407 (frame_00407.jpg)"));
    assert_eq!(map.registered, None);
    assert_eq!(map.trying, Some(407));
}

#[test]
fn mapper_tail_uses_reg_frames_and_counts_failures() {
    let mut map = CameraSnapshot::new(CameraStep::Mapping, 85, 14);
    map.total = Some(480);
    assert!(map.ingest(MAPPER_TAIL));
    assert_eq!(map.registered, Some(2));
    assert_eq!(map.processed, Some(2));
    assert_eq!(map.trying, Some(462));
    assert_eq!(map.failed, Some(3));
    assert_eq!(map.visible, Some(58));
    assert!(map.summary().contains("2 / 480"));
    assert!(map.summary().contains("trying #462"));
    assert!(map.summary().contains("3 failed"));
    assert_eq!(map.percent(), 85);
}

#[test]
fn concatenated_glog_splits_into_records() {
    let chunk = MAPPER_TAIL.lines().collect::<Vec<_>>().join(" ");
    let parts = records(&chunk);
    assert!(parts.len() >= 8, "got {}", parts.len());
    assert!(strip_glog(&parts[0]).contains("structure-less fallback"));
    assert!(parts
        .iter()
        .any(|p| strip_glog(p).contains("Keeping successful")));
}

#[test]
fn ui_log_drops_mapper_chatter() {
    assert_eq!(
        ui_log("I20260816 17:08:10.424289 0x1 incremental_pipeline.cc:537] Registering image #407 (num_reg_frames=2)"),
        None
    );
    assert_eq!(
        ui_log("I20260816 17:08:10.424522 0x1 incremental_pipeline.cc:563] => Could not register, trying another image."),
        None
    );
    assert_eq!(
        ui_log("I20260816 17:08:10.427391 0x1 incremental_pipeline.cc:723] Keeping successful reconstruction"),
        Some("Keeping successful reconstruction".into())
    );
    assert_eq!(
        ui_log("$ colmap mapper --database_path db"),
        Some("$ colmap mapper --database_path db".into())
    );
}

#[test]
fn initial_pair_counts_as_two_cameras() {
    let mut map = CameraSnapshot::new(CameraStep::Mapping, 85, 14);
    assert!(map.ingest("Registering initial image pair #11 and #20"));
    assert_eq!(map.registered, Some(2));
}

#[test]
fn try_fail_chatter_does_not_report_progress_change() {
    let mut map = CameraSnapshot::new(CameraStep::Mapping, 85, 14);
    assert!(map.ingest("Registering image #12 (num_reg_frames=2)"));
    assert!(!map.ingest("=> Could not register, trying another image."));
    assert!(!map.ingest("=> Image sees 2171 / 12989 points"));
    assert_eq!(map.failed, Some(1));
    assert_eq!(map.visible, Some(2171));
}

#[test]
fn for_spec_covers_room_and_object() {
    let (_, msg) = CameraSnapshot::for_spec("feature_extractor");
    assert_eq!(msg, "Extracting features");
    let (snap, msg) = CameraSnapshot::for_spec("view_graph_calibrator");
    assert_eq!(msg, "Calibrating cameras");
    assert_eq!(snap.step, CameraStep::Calibrating);
    let (_, msg) = CameraSnapshot::for_spec("global_mapper");
    assert_eq!(msg, "Mapping cameras");
}

#[test]
fn ignores_unrelated() {
    let mut snap = CameraSnapshot::new(CameraStep::Features, 20, 30);
    assert!(!snap.ingest("COLMAP 4.1.0"));
}

#[test]
fn features_and_matches_accumulate_and_report_eta() {
    let mut snap = CameraSnapshot::new(CameraStep::Features, 20, 30);
    snap.elapsed_secs = Some(10);
    assert!(snap.ingest("I0815 12:00:00.1 1 feature.cc:1] Processed file [25/100]"));
    assert_eq!(snap.eta_secs, Some(30));
    assert!(snap.ingest("Features: 1200 features"));
    assert!(snap.ingest("Extracted 300 Features"));
    assert_eq!(snap.features, Some(1500));
    assert!(snap.ingest("Found matches: 4200 in total"));
    assert_eq!(snap.matches, Some(4200));
    assert_eq!(
        snap.summary(),
        "Extracting features · 25 / 100 · 1500 features · 4200 matches · 10s · ETA 30s"
    );
}

#[test]
fn percent_caps_at_ninety_nine_and_registered_caps_at_total() {
    let mut snap = CameraSnapshot::new(CameraStep::Mapping, 85, 14);
    snap.set_counts(Some(900), Some(12345), Some(480));
    assert_eq!(snap.registered, Some(900));
    assert_eq!(snap.points, Some(12345));
    snap.set_counts(Some(900), None, None);
    assert_eq!(snap.registered, Some(480));
    assert_eq!(snap.percent(), 99);
    let zero_span = CameraSnapshot::new(CameraStep::Features, 10, 0);
    assert_eq!(zero_span.span, 1);
}

#[test]
fn unknown_subcommand_gets_generic_band() {
    let (snap, msg) = CameraSnapshot::for_spec("model_converter");
    assert_eq!(msg, "Estimating camera poses");
    assert_eq!(snap.base, 10);
    assert_eq!(snap.percent(), 10);
}

#[test]
fn percent_maps_onto_a_band_at_least_one_wide() {
    let mut snap = CameraSnapshot::new(CameraStep::Features, 10, 30);
    snap.processed = Some(5);
    snap.total = Some(10);
    assert_eq!(snap.percent(), 25);
    snap.span = 0;
    snap.processed = Some(10);
    assert_eq!(snap.percent(), 11);
}

#[test]
fn records_start_only_at_headers_after_whitespace() {
    assert!(records("   ").is_empty());
    assert_eq!(records("  no header here  "), vec!["no header here"]);
    assert_eq!(
        records("xI0101 12:00:00 a I0101 12:00:01 b"),
        vec!["xI0101 12:00:00 a I0101 12:00:01 b"]
    );
    assert_eq!(
        records("pre I0101 12:00:00 a I0101 12:00:01 b"),
        vec!["I0101 12:00:00 a", "I0101 12:00:01 b"]
    );
}

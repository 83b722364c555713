use simple3dgs::capture_mode::CaptureMode;
use simple3dgs::colmap::{
    feature_extractor_spec, mapper_spec, matcher_spec, reconstruction_specs,
    sequential_matcher_spec,
};
use simple3dgs::settings::longest_edge;

// The Fast preset: 800 px longest edge, sequential overlap 15, object capture.
const FAST_MAX_IMAGE_SIZE: u32 = 800;
const FAST_OVERLAP: u32 = 15;
// The Balanced preset's longest edge.
const BALANCED_MAX_IMAGE_SIZE: u32 = 1600;

fn has_pair(args: &[String], flag: &str, value: &str) -> bool {
    args.windows(2).any(|w| w[0] == flag && w[1] == value)
}

#[test]
fn sequence_is_extractor_matcher_mapper() {
    let specs = reconstruction_specs(
        "frames",
        "colmap/database.db",
        "colmap/sparse",
        CaptureMode::Object,
        FAST_OVERLAP,
        FAST_MAX_IMAGE_SIZE,
        40,
    );
    assert_eq!(specs.len(), 3);
    assert_eq!(specs[0].args[0], "feature_extractor");
    assert_eq!(specs[1].args[0], "sequential_matcher");
    assert_eq!(specs[2].args[0], "mapper");
    assert!(specs.iter().all(|s| s.sidecar == "colmap"));
}

#[test]
fn object_mode_stays_sequential() {
    let spec = matcher_spec("db", CaptureMode::Object, FAST_OVERLAP, 40);
    assert_eq!(spec.args[0], "sequential_matcher");
}

#[test]
fn room_with_few_frames_uses_exhaustive() {
    let spec = matcher_spec("db", CaptureMode::Room, FAST_OVERLAP, 40);
    assert_eq!(spec.args[0], "exhaustive_matcher");
    assert!(has_pair(&spec.args, "--FeatureMatching.use_gpu", "0"));
}

#[test]
fn room_mid_length_still_uses_exhaustive() {
    let spec = matcher_spec("db", CaptureMode::Room, FAST_OVERLAP, 150);
    assert_eq!(spec.args[0], "exhaustive_matcher");
}

#[test]
fn room_with_many_frames_uses_sequential_quadratic_overlap() {
    let spec = matcher_spec("db", CaptureMode::Room, 15, 300);
    assert_eq!(spec.args[0], "sequential_matcher");
    assert!(has_pair(&spec.args, "--SequentialMatching.overlap", "20"));
    assert!(has_pair(&spec.args, "--SequentialMatching.quadratic_overlap", "1"));
}

#[test]
fn object_sequential_skips_quadratic_overlap() {
    let spec = matcher_spec("db", CaptureMode::Object, FAST_OVERLAP, 40);
    assert_eq!(spec.args[0], "sequential_matcher");
    assert!(!spec.args.iter().any(|a| a.contains("quadratic_overlap")));
}

#[test]
fn outdoor_mapper_lowers_init_tri_angle() {
    let spec = mapper_spec("frames", "db", "sparse", CaptureMode::Outdoor);
    assert!(has_pair(&spec.args, "--Mapper.min_model_size", "10"));
    assert!(has_pair(&spec.args, "--Mapper.init_min_tri_angle", "8"));
}

#[test]
fn colmap4_uses_feature_extraction_cpu_flags() {
    let spec = feature_extractor_spec("frames", "db", longest_edge(BALANCED_MAX_IMAGE_SIZE));
    assert!(has_pair(&spec.args, "--ImageReader.single_camera", "1"));
    assert!(has_pair(&spec.args, "--FeatureExtraction.use_gpu", "0"));
    assert!(has_pair(&spec.args, "--FeatureExtraction.max_image_size", "1600"));
    assert!(!spec.args.iter().any(|a| a.contains("SiftExtraction.use_gpu")));
    assert!(!spec.args.iter().any(|a| a.contains("SiftExtraction.max_image_size")));
}

#[test]
fn matcher_uses_configured_overlap_on_cpu() {
    let spec = sequential_matcher_spec("db", CaptureMode::Object, 8);
    assert!(has_pair(&spec.args, "--SequentialMatching.overlap", "8"));
    assert!(has_pair(&spec.args, "--FeatureMatching.use_gpu", "0"));
    assert!(!spec.args.iter().any(|a| a.contains("SiftMatching.use_gpu")));
}

#[test]
fn mapper_keeps_a_single_small_model() {
    let spec = mapper_spec("frames", "db", "sparse", CaptureMode::Object);
    assert!(has_pair(&spec.args, "--Mapper.multiple_models", "0"));
    assert!(has_pair(&spec.args, "--Mapper.min_model_size", "6"));
    assert!(!spec.args.iter().any(|a| a == "--Mapper.init_min_tri_angle"));
}

#[test]
fn feature_extractor_full_argv() {
    let spec = feature_extractor_spec("f", "d", None);
    assert_eq!(
        spec.args,
        vec![
            "feature_extractor",
            "--database_path",
            "d",
            "--image_path",
            "f",
            "--ImageReader.single_camera",
            "1",
            "--ImageReader.camera_model",
            "SIMPLE_RADIAL",
            "--FeatureExtraction.use_gpu",
            "0",
        ]
    );
}

#[test]
fn reconstruction_sanitizes_size_and_overlap_and_tags_mode() {
    let specs = reconstruction_specs("f", "d", "s", CaptureMode::Room, 0, 12, 400);
    assert!(specs.iter().all(|s| s.capture_mode == CaptureMode::Room));
    assert!(has_pair(&specs[0].args, "--FeatureExtraction.max_image_size", "64"));
    assert!(has_pair(&specs[1].args, "--SequentialMatching.overlap", "20"));
    let native = reconstruction_specs("f", "d", "s", CaptureMode::Object, 500, 0, 10);
    assert!(!native[0].args.iter().any(|a| a == "--FeatureExtraction.max_image_size"));
    assert!(has_pair(&native[1].args, "--SequentialMatching.overlap", "200"));
    let huge = reconstruction_specs("f", "d", "s", CaptureMode::Object, 15, 100_000, 10);
    assert!(has_pair(&huge[0].args, "--FeatureExtraction.max_image_size", "16384"));
}

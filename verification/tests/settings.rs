use simple3dgs::settings::{
    longest_edge, sanitized_match_overlap, sanitized_max_image_size, train_resolution,
    ExtractMode, FrameFormat, MAX_IMAGE_SIZE_MIN,
};

#[test]
fn zero_max_image_size_means_native() {
    // Brush's default resolution cap is 1920.
    assert_eq!(longest_edge(0), None);
    assert_eq!(train_resolution(0, 1920), Some(1920));
}

#[test]
fn train_resolution_caps_the_longest_edge() {
    assert_eq!(train_resolution(1600, 1920), Some(1600));
    assert_eq!(train_resolution(4000, 1920), Some(1920));
    assert_eq!(train_resolution(4000, 0), Some(4000));
    assert_eq!(train_resolution(0, 0), None);
}

#[test]
fn max_image_size_clamps_except_native() {
    assert_eq!(sanitized_max_image_size(12), MAX_IMAGE_SIZE_MIN);
    assert_eq!(sanitized_max_image_size(0), 0);
    assert_eq!(sanitized_max_image_size(1600), 1600);
    assert_eq!(sanitized_max_image_size(20_000), 16_384);
}

#[test]
fn match_overlap_keeps_sidecar_range() {
    assert_eq!(sanitized_match_overlap(80), 80);
    assert_eq!(sanitized_match_overlap(0), 1);
    assert_eq!(sanitized_match_overlap(500), 200);
}

#[test]
fn formats_and_modes_default_like_the_presets() {
    assert_eq!(FrameFormat::default(), FrameFormat::Jpg);
    assert_eq!(FrameFormat::Jpg.extension(), "jpg");
    assert_eq!(FrameFormat::Png.extension(), "png");
    assert_eq!(ExtractMode::default(), ExtractMode::Density);
}

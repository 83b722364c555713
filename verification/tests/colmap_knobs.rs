use simple3dgs::capture_mode::CaptureMode;
use simple3dgs::colmap_knobs::{CameraModel, ColmapKnobs, ColmapMapper, ColmapMatcher};

#[test]
fn capture_profiles_pick_matcher_and_mapper() {
    let room = ColmapKnobs::for_capture(CaptureMode::Room);
    assert_eq!(room.mapper, ColmapMapper::Global);
    assert_eq!(room.min_overlap_floor, 20);
    assert_eq!(room.matcher, ColmapMatcher::Exhaustive);
    let object = ColmapKnobs::for_capture(CaptureMode::Object);
    assert_eq!(object.matcher, ColmapMatcher::Sequential);
    assert_eq!(object.min_model_size, 6);
    let outdoor = ColmapKnobs::for_capture(CaptureMode::Outdoor);
    assert_eq!(outdoor.init_min_tri_angle, 8);
}

#[test]
fn sanitized_clamps_but_keeps_choices() {
    let mut k = ColmapKnobs::for_capture(CaptureMode::Room);
    k.exhaustive_frame_limit = 0;
    k.min_overlap_floor = 999;
    k.min_model_size = 1_000_000;
    k.init_min_tri_angle = 180;
    let s = k.sanitized();
    assert_eq!(s.exhaustive_frame_limit, 2);
    assert_eq!(s.min_overlap_floor, 200);
    assert_eq!(s.min_model_size, 10_000);
    assert_eq!(s.init_min_tri_angle, 90);
    assert_eq!(s.mapper, ColmapMapper::Global);
    assert_eq!(s.sanitized(), s);
    let mut zero = ColmapKnobs::for_capture(CaptureMode::Room);
    zero.min_overlap_floor = 0;
    assert_eq!(zero.sanitized().min_overlap_floor, 0);
}

#[test]
fn camera_models_use_colmap_names() {
    assert_eq!(CameraModel::default().as_colmap(), "SIMPLE_RADIAL");
    assert_eq!(CameraModel::OpenCv.as_colmap(), "OPENCV");
    assert_eq!(CameraModel::Pinhole.as_colmap(), "PINHOLE");
}

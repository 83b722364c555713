use simple3dgs::manifest::image_list_body;
use simple3dgs::project::{
    archived_id_from, furthest_stage, is_image, parse_until, stages_cleared_from, ProjectLayout, Stage,
};

#[test]
fn layout_paths_follow_the_project_tree() {
    let l = ProjectLayout::new("/p");
    assert_eq!(l.root(), "/p");
    assert_eq!(l.input_dir(), "/p/input");
    assert_eq!(l.frames_dir(), "/p/frames");
    assert_eq!(l.colmap_dir(), "/p/colmap");
    assert_eq!(l.database_path(), "/p/colmap/database.db");
    assert_eq!(l.sparse_model_dir(), "/p/colmap/sparse/0");
    assert_eq!(l.dataset_images_dir(), "/p/dataset/images");
    assert_eq!(l.dataset_sparse_dir(), "/p/dataset/sparse/0");
    assert_eq!(l.output_ply(), "/p/output/scene.ply");
    assert_eq!(l.marker_path(Stage::Colmap), "/p/markers/colmap.done");
    assert_eq!(l.archive_marker(), "/p/markers/archive.done");
}

#[test]
fn missing_marker_means_incomplete() {
    let l = ProjectLayout::new("/nonexistent/project/for/tests");
    assert!(!l.is_complete(Stage::Frames));
}

#[test]
fn archived_id_is_the_trimmed_marker_text() {
    assert_eq!(archived_id_from("2024_clip_ab12\n").as_deref(), Some("2024_clip_ab12"));
    assert_eq!(archived_id_from("  \n"), None);
    assert_eq!(archived_id_from(""), None);
}

#[test]
fn until_and_clearing_follow_stage_order() {
    assert_eq!(parse_until("frames"), Stage::Frames);
    assert_eq!(parse_until("colmap"), Stage::Colmap);
    assert_eq!(parse_until("anything"), Stage::Train);
    assert_eq!(
        stages_cleared_from(Stage::Frames),
        vec![Stage::Frames, Stage::Colmap, Stage::Train]
    );
    assert_eq!(stages_cleared_from(Stage::Train), vec![Stage::Train]);
}

#[test]
fn image_test_is_by_extension_ignoring_case() {
    assert!(is_image("/f/frame_00001.JPG"));
    assert!(is_image("a.jpeg"));
    assert!(is_image("a.png"));
    assert!(!is_image("a.ply"));
    assert!(!is_image(".png"));
    assert!(!is_image("png"));
}

#[test]
fn image_list_has_one_name_per_line() {
    let names = vec!["frame_00001.jpg".to_string(), "frame_00003.jpg".to_string()];
    assert_eq!(image_list_body(&names), "frame_00001.jpg\nframe_00003.jpg\n");
    assert_eq!(image_list_body(&vec![]), "");
}

#[test]
fn stage_names_read_back_as_the_same_stage() {
    for stage in [Stage::Frames, Stage::Colmap, Stage::Train] {
        assert_eq!(parse_until(stage.as_str()), stage);
    }
}

#[test]
fn furthest_completed_stage_wins() {
    assert_eq!(furthest_stage(true, true, true), Some(Stage::Train));
    assert_eq!(furthest_stage(false, false, true), Some(Stage::Train));
    assert_eq!(furthest_stage(true, true, false), Some(Stage::Colmap));
    assert_eq!(furthest_stage(true, false, false), Some(Stage::Frames));
    assert_eq!(furthest_stage(false, false, false), None);
}

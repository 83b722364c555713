use simple3dgs::manifest::{cameras_file, default_projects_dir, frames_file, project_file, title_from_source};

#[test]
fn title_from_video_stem() {
    assert_eq!(title_from_source("/tmp/Kitchen_orbit.mov"), "Kitchen orbit");
    assert_eq!(title_from_source("/"), "Untitled");
}

#[test]
fn title_falls_back_for_blank_stems() {
    assert_eq!(title_from_source("/tmp/__-.mov"), "Untitled");
    assert_eq!(title_from_source("clips/My-Room_2.MP4"), "My Room 2");
    assert_eq!(title_from_source("/tmp/.hidden"), ".hidden");
    assert_eq!(title_from_source("/tmp/.."), "Untitled");
}

#[test]
fn manifest_files_sit_in_the_project_root() {
    assert_eq!(project_file("/p"), "/p/project.json");
    assert_eq!(frames_file("/p/"), "/p/frames.json");
    assert_eq!(cameras_file("p"), "p/cameras.json");
    assert_eq!(default_projects_dir("/Users/f/Documents"), "/Users/f/Documents/Simple 3DGS/projects");
}

use simple3dgs::app_config::default_archive_dir;
use simple3dgs::app_menu::{menu_action, MenuAction};
use simple3dgs::capture_mode::CaptureMode;

#[test]
fn default_path_nests_under_documents() {
    let path = default_archive_dir("/Users/frank/Documents");
    assert_eq!(path, "/Users/frank/Documents/Simple 3DGS/archive");
}

#[test]
fn default_archive_under_trailing_slash_documents() {
    assert_eq!(default_archive_dir("/Users/frank/Documents/"), "/Users/frank/Documents/Simple 3DGS/archive");
    assert_eq!(default_archive_dir(""), "Simple 3DGS/archive");
}

#[test]
fn maps_file_view_and_mode_ids() {
    assert_eq!(menu_action("view-easy"), Some(MenuAction::ViewEasy));
    assert_eq!(menu_action("view-expert"), Some(MenuAction::ViewExpert));
    assert_eq!(menu_action("view-archive"), Some(MenuAction::ViewArchive));
    assert_eq!(menu_action("view-settings"), Some(MenuAction::Settings));
    assert_eq!(menu_action("file-new"), Some(MenuAction::FileNew));
    assert_eq!(menu_action("file-open"), Some(MenuAction::FileOpen));
    assert_eq!(menu_action("mode-splats"), Some(MenuAction::ModeSplats));
    assert_eq!(menu_action("mode-dots"), Some(MenuAction::ModeDots));
    assert_eq!(menu_action("mode-discs"), Some(MenuAction::ModeDiscs));
    assert_eq!(menu_action("quit"), None);
}

#[test]
fn menu_actions_emit_their_frontend_events() {
    assert_eq!(MenuAction::ViewExpert.event(), ("menu-view", Some("expert")));
    assert_eq!(MenuAction::Settings.event(), ("menu-settings", None));
    assert_eq!(MenuAction::FileOpen.event(), ("menu-project", Some("open")));
    assert_eq!(MenuAction::ModeDiscs.event(), ("menu-mode", Some("discs")));
}

#[test]
fn max_frames_cap_is_higher_outdoors() {
    assert_eq!(CaptureMode::Object.max_frames_cap(), 800);
    assert_eq!(CaptureMode::Room.max_frames_cap(), 800);
    assert_eq!(CaptureMode::Outdoor.max_frames_cap(), 10_000);
    assert_eq!(CaptureMode::default(), CaptureMode::Object);
}

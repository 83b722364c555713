use simple3dgs::colmap_bundle::framework::{
    brew_framework_candidates, dir_if_present, first_existing, framework_dir_of, is_system_install_name, parse_framework_ref,
    source_framework_dir,
};
use simple3dgs::colmap_bundle::otool::{parse_install_names, parse_rpaths};
use simple3dgs::colmap_bundle::rpath::{rpaths_to_add, rpaths_to_delete};
use std::path::PathBuf;

#[test]
fn parses_homebrew_qt_install_name() {
    let name = "/opt/homebrew/opt/qtbase/lib/QtGui.framework/Versions/A/QtGui";
    let parsed = parse_framework_ref(name).unwrap();
    assert_eq!(parsed.name, "QtGui.framework");
    assert_eq!(parsed.relative, "Versions/A/QtGui");
    assert_eq!(
        parsed.rpath_install_name(),
        "@rpath/QtGui.framework/Versions/A/QtGui"
    );
}

#[test]
fn parses_rpath_qt_install_name() {
    let parsed = parse_framework_ref("@rpath/QtDBus.framework/Versions/A/QtDBus").unwrap();
    assert_eq!(parsed.name, "QtDBus.framework");
    assert_eq!(parsed.relative, "Versions/A/QtDBus");
}

#[test]
fn ignores_plain_dylibs() {
    assert!(parse_framework_ref("@rpath/libcolmap_ui.dylib").is_none());
}

#[test]
fn ignores_system_frameworks() {
    assert!(parse_framework_ref(
        "/System/Library/Frameworks/AppKit.framework/Versions/C/AppKit"
    )
    .is_none());
    assert!(parse_framework_ref("/usr/lib/libSystem.B.dylib").is_none());
    assert!(source_framework_dir(
        "/System/Library/Frameworks/AppKit.framework/Versions/C/AppKit"
    )
    .is_none());
}

#[test]
fn source_framework_dir_cuts_at_framework_suffix() {
    let name = "/opt/homebrew/opt/qtsvg/lib/QtSvg.framework/Versions/A/QtSvg";
    let dir = PathBuf::from("/opt/homebrew/opt/qtsvg/lib/QtSvg.framework");
    if dir.is_dir() {
        assert_eq!(
            source_framework_dir(name).as_deref(),
            Some("/opt/homebrew/opt/qtsvg/lib/QtSvg.framework")
        );
    } else {
        assert!(source_framework_dir(name).is_none());
    }
    assert_eq!(
        framework_dir_of(name).as_deref(),
        Some("/opt/homebrew/opt/qtsvg/lib/QtSvg.framework")
    );
}

#[test]
fn framework_without_binary_or_bare_name() {
    assert!(parse_framework_ref("/opt/x/QtCore.framework/").is_none());
    let bare = parse_framework_ref("QtCore.framework/QtCore").unwrap();
    assert_eq!(bare.name, "QtCore.framework");
    assert!(is_system_install_name("/Library/Frameworks/X.framework/X"));
    assert!(!is_system_install_name("/opt/homebrew/lib/x.dylib"));
    assert_eq!(bare.bundled_binary("/libs"), "/libs/QtCore.framework/QtCore");
    let candidates = brew_framework_candidates(&bare);
    assert_eq!(candidates[0], "/opt/homebrew/opt/qtbase/lib/QtCore.framework/QtCore");
    assert_eq!(candidates[1], "/opt/homebrew/opt/qtsvg/lib/QtCore.framework/QtCore");
}

const OTOOL_L: &str = "\
colmap:
\t@rpath/libcolmap_ui.dylib (compatibility version 0.0.0, current version 0.0.0)
\t/opt/homebrew/opt/qtsvg/lib/QtSvg.framework/Versions/A/QtSvg (compatibility version 6.0.0, current version 6.11.1)
\t/System/Library/Frameworks/AppKit.framework/Versions/C/AppKit (compatibility version 45.0.0, current version 2685.60.104)
";

const OTOOL_LOAD: &str = "\
          cmd LC_RPATH
      cmdsize 32
         path @rpath/ (offset 12)
          cmd LC_RPATH
      cmdsize 48
         path @executable_path/colmap-libs (offset 12)
";

#[test]
fn parse_install_names_skips_header_and_versions() {
    let names = parse_install_names(OTOOL_L);
    assert_eq!(
        names,
        vec![
            "@rpath/libcolmap_ui.dylib",
            "/opt/homebrew/opt/qtsvg/lib/QtSvg.framework/Versions/A/QtSvg",
            "/System/Library/Frameworks/AppKit.framework/Versions/C/AppKit",
        ]
    );
}

#[test]
fn parse_rpaths_reads_path_field() {
    assert_eq!(
        parse_rpaths(OTOOL_LOAD),
        vec!["@rpath/", "@executable_path/colmap-libs"]
    );
}

#[test]
fn rpath_command_near_the_end_is_ignored() {
    assert!(parse_rpaths("cmd LC_RPATH\n cmdsize 32\n").is_empty());
    assert!(parse_install_names("").is_empty());
    assert!(parse_install_names("header only\n\n   \n").is_empty());
}

#[test]
fn drops_duplicate_and_bare_rpath() {
    let existing = vec![
        "@rpath/".into(),
        "@rpath/".into(),
        "@executable_path/colmap-libs".into(),
        "@executable_path/colmap-libs".into(),
        "@loader_path".into(),
    ];
    assert_eq!(
        rpaths_to_delete(&existing),
        vec![
            "@rpath/",
            "@rpath/",
            "@executable_path/colmap-libs",
        ]
    );
}

#[test]
fn keeps_unique_real_rpaths() {
    let existing = vec![
        "@executable_path/colmap-libs".into(),
        "@executable_path/../Resources/colmap-libs".into(),
    ];
    assert!(rpaths_to_delete(&existing).is_empty());
}

#[test]
fn adds_only_missing_rpaths() {
    let existing = vec!["@executable_path/colmap-libs".into()];
    assert_eq!(
        rpaths_to_add(
            &existing,
            &[
                "@executable_path/colmap-libs",
                "@executable_path/../Resources/colmap-libs",
            ]
        ),
        vec!["@executable_path/../Resources/colmap-libs"]
    );
}

use simple3dgs::colmap_bundle::copy::skip_entry;

#[test]
fn skips_headers_name() {
    assert!(skip_entry("Headers"));
    assert!(!skip_entry("Resources"));
    assert!(!skip_entry("QtGui"));
}

#[test]
fn rpath_install_name_parses_back_to_the_same_framework() {
    let f = parse_framework_ref("/opt/homebrew/opt/qtbase/lib/QtGui.framework/Versions/A/QtGui").unwrap();
    let rpath = f.rpath_install_name();
    assert_eq!(rpath, "@rpath/QtGui.framework/Versions/A/QtGui");
    assert_eq!(parse_framework_ref(&rpath), Some(f));
}

#[test]
fn first_existing_takes_the_first_candidate_that_exists() {
    let c: Vec<String> = vec!["/a/QtGui".to_string(), "/b/QtGui".to_string()];
    assert_eq!(first_existing(&c, &vec![true]), Some("/a/QtGui".to_string()));
    assert_eq!(first_existing(&c, &vec![false, true]), Some("/b/QtGui".to_string()));
    assert_eq!(first_existing(&c, &vec![true, true]), Some("/a/QtGui".to_string()));
    assert_eq!(first_existing(&c, &vec![false, false]), None);
    assert_eq!(first_existing(&c, &Vec::new()), None);
}

#[test]
fn framework_dir_is_kept_only_when_it_is_a_directory() {
    assert_eq!(dir_if_present("/q/QtSvg.framework".to_string(), true), Some("/q/QtSvg.framework".to_string()));
    assert_eq!(dir_if_present("/q/QtSvg.framework".to_string(), false), None);
}

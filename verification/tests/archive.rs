use simple3dgs::archive::{
    file_name, is_safe_id, safe_unzip_path, scratch_name, short_hash, slug, title_from_source,
    unique_id, unique_id_from, ArchiveLibrary, SCRATCH_DIR,
};
use simple3dgs::paths::join;

#[test]
fn scratch_dir_is_under_archive() {
    let lib = ArchiveLibrary::at("/tmp/library/archive");
    let scratch = lib.scratch_dir("/Volumes/SSD/clip.mp4");
    assert!(scratch.starts_with(&join(lib.root(), SCRATCH_DIR)));
    let name = scratch.rsplit('/').next().unwrap();
    assert!(name.starts_with("clip_"));
}

#[test]
fn slug_lowercases_and_collapses_separators() {
    assert_eq!(slug("/Volumes/SSD/My Clip (1).MOV"), "my-clip-1");
    assert_eq!(slug("/tmp/__..__.mp4"), "scene");
    assert_eq!(slug(""), "scene");
    assert_eq!(slug("/a/Ünïcode--name.mp4"), "n-code-name");
    let long = format!("/tmp/{}.mp4", "x".repeat(40));
    assert_eq!(slug(&long).len(), 32);
}

#[test]
fn short_hash_is_four_plus_hex_digits_of_fnv1a() {
    // FNV-1a of the empty string is 0x811c9dc5.
    assert_eq!(short_hash(""), "811c9dc5");
    // FNV-1a("a") = 0xe40c292c.
    assert_eq!(short_hash("a"), "e40c292c");
    assert!(short_hash("/Volumes/SSD/clip.mp4").chars().all(|c| c.is_ascii_hexdigit()));
}

#[test]
fn scratch_name_joins_slug_and_hash() {
    assert_eq!(scratch_name("a"), format!("a_{}", short_hash("a")));
}

#[test]
fn safe_ids_are_plain_names() {
    assert!(is_safe_id("2024-05-01_clip_ab12"));
    assert!(!is_safe_id(""));
    assert!(!is_safe_id("../escape"));
    assert!(!is_safe_id("a/b"));
    assert!(!is_safe_id("a\\b"));
    assert!(!is_safe_id("a b"));
    assert!(!is_safe_id("a.b"));
}

#[test]
fn unzip_paths_stay_inside_the_target() {
    assert_eq!(safe_unzip_path("/tmp/x", "meta.json").unwrap(), "/tmp/x/meta.json");
    assert_eq!(safe_unzip_path("/tmp/x", "a/scene.ply").unwrap(), "/tmp/x/a/scene.ply");
    assert!(safe_unzip_path("/tmp/x", "../evil").is_err());
    assert!(safe_unzip_path("/tmp/x", "a/../../evil").is_err());
    assert!(safe_unzip_path("/tmp/x", "/etc/passwd").is_err());
    let err = safe_unzip_path("/tmp/x", "../evil").unwrap_err();
    assert!(err.to_message().to_lowercase().contains("unsafe"));
}

#[test]
fn titles_and_names_fall_back() {
    assert_eq!(title_from_source("/v/Beach Walk.mov"), "Beach Walk");
    assert_eq!(title_from_source("/"), "Untitled");
    assert_eq!(file_name("/v/Beach Walk.mov"), "Beach Walk.mov");
    assert_eq!(file_name("/"), "unknown");
}

#[test]
fn library_paths_sit_under_the_root() {
    let lib = ArchiveLibrary::at("/lib");
    assert_eq!(lib.root(), "/lib");
    assert_eq!(lib.entry_dir("abc"), "/lib/abc");
    assert_eq!(lib.index_path(), "/lib/library.json");
}

#[test]
fn unique_id_skips_taken_candidates() {
    let base = "2024-05-01_clip_ab12";
    assert_eq!(unique_id_from(base, &vec![]), base);
    let taken = vec![base.to_string(), format!("{base}2"), "other".to_string()];
    assert_eq!(unique_id_from(base, &taken), format!("{base}3"));
    let taken = vec![format!("{base}2")];
    assert_eq!(unique_id_from(base, &taken), base);
}

#[test]
fn unique_id_is_dated_slugged_tagged_and_fresh() {
    let id = unique_id("/Volumes/SSD/My Clip.mov", &vec![]);
    let parts: Vec<&str> = id.split('_').collect();
    assert_eq!(parts.len(), 3);
    assert_eq!(parts[0].len(), 10);
    assert_eq!(parts[1], "my-clip");
    assert_eq!(parts[2].len(), 4);
    assert!(parts[2].chars().all(|c| c.is_ascii_digit() || ('a'..='f').contains(&c)));
    assert!(is_safe_id(&id));
    let again = unique_id("/Volumes/SSD/My Clip.mov", &vec![id.clone()]);
    assert_ne!(again, id);
}

#[test]
fn unique_id_starts_with_a_dashed_date() {
    let id = unique_id("clip.mov", &vec![]);
    let date = id.split('_').next().unwrap();
    let bytes = date.as_bytes();
    assert_eq!(bytes.len(), 10);
    assert_eq!(bytes[4], b'-');
    assert_eq!(bytes[7], b'-');
    assert!(date.chars().filter(|c| *c != '-').all(|c| c.is_ascii_digit()));
}

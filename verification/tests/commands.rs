use simple3dgs::commands::{
    decode_poster, nonblank, nonempty_field, poster_from_decoded, project_title,
};

#[test]
fn blank_request_fields_count_as_absent() {
    assert_eq!(nonblank(Some("  \t".to_string())), None);
    assert_eq!(nonblank(Some("".to_string())), None);
    assert_eq!(nonblank(None), None);
    assert_eq!(nonblank(Some(" /p ".to_string())), Some(" /p ".to_string()));
}

#[test]
fn project_title_falls_back_to_the_source_name() {
    assert_eq!(project_title(Some("My scan".to_string()), "/v/a.mov"), "My scan");
    assert_eq!(project_title(Some("   ".to_string()), "/v/Beach Walk.mov"), "Beach Walk");
    assert_eq!(project_title(None, "/v/Beach Walk.mov"), "Beach Walk");
}

#[test]
fn poster_text_decodes_as_standard_base64() {
    assert_eq!(decode_poster("  aGk=\n"), Ok(b"hi".to_vec()));
    assert_eq!(decode_poster(""), Ok(Vec::new()));
    assert_eq!(
        decode_poster("!!!!"),
        Err("Invalid preview image: Invalid symbol 33, offset 0.".to_string())
    );
}

#[test]
fn decoding_errors_become_the_user_message() {
    assert_eq!(poster_from_decoded(Ok(vec![1, 2])), Ok(vec![1, 2]));
    assert_eq!(
        poster_from_decoded(Err("Invalid padding".to_string())),
        Err("Invalid preview image: Invalid padding".to_string())
    );
}

#[test]
fn run_request_paths_drop_only_empty_text() {
    assert_eq!(nonempty_field(Some(String::new())), None);
    assert_eq!(nonempty_field(None), None);
    assert_eq!(nonempty_field(Some(" ".to_string())), Some(" ".to_string()));
    assert_eq!(nonempty_field(Some("/a".to_string())), Some("/a".to_string()));
}

use simple3dgs::html_export::{escape_html, scene_js_from_base64, scene_js_payload};

#[test]
fn scene_js_payload_is_classic_script_base64() {
    assert_eq!(
        scene_js_payload(b"spz\n"),
        "globalThis.SCENE_SPZ_B64 = \"c3B6Cg==\";\n"
    );
}

#[test]
fn scene_js_payload_pads_and_handles_empty_input() {
    assert_eq!(scene_js_payload(b""), "globalThis.SCENE_SPZ_B64 = \"\";\n");
    assert_eq!(scene_js_payload(&[0xff, 0xfe]), "globalThis.SCENE_SPZ_B64 = \"//4=\";\n");
    assert_eq!(scene_js_from_base64("QQ=="), "globalThis.SCENE_SPZ_B64 = \"QQ==\";\n");
}

#[test]
fn html_escaping_covers_markup_and_quotes() {
    assert_eq!(escape_html("Gate <1>"), "Gate &lt;1&gt;");
    assert_eq!(escape_html("a&b\"c"), "a&amp;b&quot;c");
    assert_eq!(escape_html("&lt;"), "&amp;lt;");
    assert_eq!(escape_html("plain 'text'"), "plain 'text'");
    assert_eq!(escape_html(""), "");
}

#[test]
fn escaped_text_cannot_open_a_tag_or_close_an_attribute() {
    let out = escape_html("<script a=\"1\">x & y</script>");
    assert_eq!(out, "&lt;script a=&quot;1&quot;&gt;x &amp; y&lt;/script&gt;");
    assert!(!out.contains('<') && !out.contains('>') && !out.contains('"'));
}

#[test]
fn scene_js_payload_encodes_each_group_of_three_bytes() {
    assert_eq!(scene_js_payload(b"h"), "globalThis.SCENE_SPZ_B64 = \"aA==\";\n");
    assert_eq!(scene_js_payload(b"hi"), "globalThis.SCENE_SPZ_B64 = \"aGk=\";\n");
    assert_eq!(scene_js_payload(b"hey"), "globalThis.SCENE_SPZ_B64 = \"aGV5\";\n");
    assert_eq!(scene_js_payload(&[0xfb, 0xff, 0x3e, 0x00]), "globalThis.SCENE_SPZ_B64 = \"+/8+AA==\";\n");
}

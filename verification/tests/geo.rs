use simple3dgs::geo::{geo_candidates, split_iso6709, GeoSource};

fn s(x: &str) -> String {
    x.to_string()
}

#[test]
fn iso6709_splits_into_signed_tokens() {
    assert_eq!(
        split_iso6709("+52.520008+013.404954+012.345/"),
        Some((s("+52.520008"), s("+013.404954"), Some(s("+012.345"))))
    );
    assert_eq!(
        split_iso6709("-33.8688+151.2093/"),
        Some((s("-33.8688"), s("+151.2093"), None))
    );
    assert_eq!(
        split_iso6709("  \"+48.1+011.5/\"  "),
        Some((s("+48.1"), s("+011.5"), None))
    );
    // The range check happens when the tokens are read as degrees.
    assert_eq!(split_iso6709("+99.0+013.0/"), Some((s("+99.0"), s("+013.0"), None)));
}

#[test]
fn iso6709_refuses_garbage() {
    assert_eq!(split_iso6709("Berlin"), None);
    assert_eq!(split_iso6709("+52.5"), None);
    assert_eq!(split_iso6709("+52.5+13.4+1+2/"), None);
    assert_eq!(split_iso6709("++52+13"), None);
    assert_eq!(split_iso6709(""), None);
}

#[test]
fn quicktime_tag_is_the_first_candidate() {
    let dump = ";FFMETADATA1\nmajor_brand=qt\ncom.apple.quicktime.location.ISO6709=+52.520008+013.404954+012.345/\n";
    let c = geo_candidates(dump);
    assert_eq!(
        c[0],
        (s("+52.520008+013.404954+012.345/"), GeoSource::Quicktime)
    );
    // The inline scan of the same line follows.
    assert_eq!(c[1], (s("+52.520008+013.404954+012.345/"), GeoSource::Quicktime));
}

#[test]
fn location_equals_is_an_ffmetadata_candidate() {
    let c = geo_candidates("location=+48.137154+011.576124/\n");
    assert_eq!(c[0], (s("+48.137154+011.576124/"), GeoSource::Ffmetadata));
}

#[test]
fn named_place_leaves_no_readable_candidate() {
    let c = geo_candidates("location=Berlin\n");
    assert_eq!(c, vec![(s("Berlin"), GeoSource::Ffmetadata)]);
    assert_eq!(split_iso6709(&c[0].0), None);
}

#[test]
fn comments_and_blank_lines_are_skipped_and_inline_values_found() {
    let dump = ";location=+1+2/\n\n  Stream #0: Video, \"+12.5-070.25/\" here\r\n";
    let c = geo_candidates(dump);
    assert_eq!(
        c,
        vec![
            (s("+12.5-070.25/"), GeoSource::Quicktime),
            (s("-070.25/"), GeoSource::Quicktime),
        ]
    );
}

use simple3dgs::colmap_pose::{
    camera_manifest, parse_images_binary, parse_points3d, points3d_count, registered_count,
    CameraSlot,
};

fn push_image(buf: &mut Vec<u8>, id: u32, q: [f64; 4], t: [f64; 3], name: &[u8], n2d: u64) {
    buf.extend_from_slice(&id.to_le_bytes());
    for v in q {
        buf.extend_from_slice(&v.to_le_bytes());
    }
    for v in t {
        buf.extend_from_slice(&v.to_le_bytes());
    }
    buf.extend_from_slice(&1u32.to_le_bytes());
    buf.extend_from_slice(name);
    buf.push(0);
    buf.extend_from_slice(&n2d.to_le_bytes());
    for _ in 0..n2d {
        buf.extend_from_slice(&[7u8; 24]);
    }
}

fn images_bin(images: &[(u32, [f64; 4], [f64; 3], &str)]) -> Vec<u8> {
    let mut buf = Vec::new();
    buf.extend_from_slice(&(images.len() as u64).to_le_bytes());
    for (id, q, t, name) in images {
        push_image(&mut buf, *id, *q, *t, name.as_bytes(), 0);
    }
    buf
}

fn push_point(buf: &mut Vec<u8>, id: u64, xyz: [f64; 3], rgb: [u8; 3], track: u64) {
    buf.extend_from_slice(&id.to_le_bytes());
    for v in xyz {
        buf.extend_from_slice(&v.to_le_bytes());
    }
    buf.extend_from_slice(&rgb);
    buf.extend_from_slice(&0f64.to_le_bytes());
    buf.extend_from_slice(&track.to_le_bytes());
    for _ in 0..track {
        buf.extend_from_slice(&[1u8; 8]);
    }
}

fn points_bin(points: &[([f64; 3], [u8; 3])]) -> Vec<u8> {
    let mut buf = Vec::new();
    buf.extend_from_slice(&(points.len() as u64).to_le_bytes());
    for (i, (xyz, rgb)) in points.iter().enumerate() {
        push_point(&mut buf, i as u64, *xyz, *rgb, 0);
    }
    buf
}

#[test]
fn images_bin_records_names_and_pose_bits_in_file_order() {
    let bytes = images_bin(&[
        (2, [1.0, 0.0, 0.0, 0.0], [0.0, 0.0, 5.0], "frame_00002.jpg"),
        (1, [0.5, 0.25, -0.5, 0.125], [1.0, 2.0, 3.0], "frame_00001.jpg"),
    ]);
    let images = parse_images_binary(&bytes).unwrap();
    assert_eq!(images.len(), 2);
    assert_eq!(images[0].name, "frame_00002.jpg");
    assert_eq!(images[0].qw, 1.0f64.to_bits());
    assert_eq!(images[0].tz, 5.0f64.to_bits());
    assert_eq!(images[1].name, "frame_00001.jpg");
    assert_eq!(images[1].qx, 0.25f64.to_bits());
    assert_eq!(images[1].qy, (-0.5f64).to_bits());
    assert_eq!(images[1].qz, 0.125f64.to_bits());
    assert_eq!(images[1].tx, 1.0f64.to_bits());
    assert_eq!(images[1].ty, 2.0f64.to_bits());
    assert_eq!(images[1].tz, 3.0f64.to_bits());
    assert_eq!(registered_count(&bytes), Some(2));
}

#[test]
fn images_bin_skips_points2d_blocks() {
    let mut bytes = Vec::new();
    bytes.extend_from_slice(&2u64.to_le_bytes());
    push_image(&mut bytes, 1, [1.0, 0.0, 0.0, 0.0], [0.0; 3], b"a.jpg", 3);
    push_image(&mut bytes, 2, [1.0, 0.0, 0.0, 0.0], [0.0; 3], b"b.jpg", 1);
    let images = parse_images_binary(&bytes).unwrap();
    assert_eq!(images.len(), 2);
    assert_eq!(images[1].name, "b.jpg");
}

#[test]
fn garbage_images_bin_is_rejected() {
    assert!(parse_images_binary(b"images.bin").is_none());
    assert_eq!(registered_count(b"images.bin"), None);
    assert_eq!(registered_count(b"short"), None);
}

#[test]
fn empty_model_has_zero_images() {
    let bytes = 0u64.to_le_bytes();
    assert_eq!(parse_images_binary(&bytes).unwrap().len(), 0);
    assert_eq!(registered_count(&bytes), Some(0));
}

#[test]
fn truncated_points2d_block_is_rejected() {
    let mut bytes = Vec::new();
    bytes.extend_from_slice(&1u64.to_le_bytes());
    push_image(&mut bytes, 1, [1.0, 0.0, 0.0, 0.0], [0.0; 3], b"a.jpg", 2);
    bytes.truncate(bytes.len() - 1);
    assert!(parse_images_binary(&bytes).is_none());
}

#[test]
fn overflowing_points2d_count_is_rejected() {
    let mut bytes = Vec::new();
    bytes.extend_from_slice(&1u64.to_le_bytes());
    push_image(&mut bytes, 1, [1.0, 0.0, 0.0, 0.0], [0.0; 3], b"a.jpg", 0);
    let at = bytes.len() - 8;
    bytes[at..].copy_from_slice(&u64::MAX.to_le_bytes());
    assert!(parse_images_binary(&bytes).is_none());
}

#[test]
fn image_name_limit_is_4096_bytes() {
    let mut ok = Vec::new();
    ok.extend_from_slice(&1u64.to_le_bytes());
    push_image(&mut ok, 1, [1.0, 0.0, 0.0, 0.0], [0.0; 3], &[b'x'; 4096], 0);
    assert_eq!(parse_images_binary(&ok).unwrap()[0].name.len(), 4096);

    let mut long = Vec::new();
    long.extend_from_slice(&1u64.to_le_bytes());
    push_image(&mut long, 1, [1.0, 0.0, 0.0, 0.0], [0.0; 3], &[b'x'; 4097], 0);
    assert!(parse_images_binary(&long).is_none());
}

#[test]
fn image_name_must_be_utf8() {
    let mut bytes = Vec::new();
    bytes.extend_from_slice(&1u64.to_le_bytes());
    push_image(&mut bytes, 1, [1.0, 0.0, 0.0, 0.0], [0.0; 3], &[0xff, 0xfe], 0);
    assert!(parse_images_binary(&bytes).is_none());

    let mut utf8 = Vec::new();
    utf8.extend_from_slice(&1u64.to_le_bytes());
    push_image(&mut utf8, 1, [1.0, 0.0, 0.0, 0.0], [0.0; 3], "bild_ä.jpg".as_bytes(), 0);
    assert_eq!(parse_images_binary(&utf8).unwrap()[0].name, "bild_ä.jpg");
}

#[test]
fn points3d_reads_coordinates_and_colours() {
    let bytes = points_bin(&[([0.0, 1.0, 2.0], [10, 20, 30])]);
    let (xyz, rgb) = parse_points3d(&bytes).unwrap();
    assert_eq!(xyz, vec![(0.0f64.to_bits(), 1.0f64.to_bits(), 2.0f64.to_bits())]);
    assert_eq!(rgb, vec![(10, 20, 30)]);
    assert_eq!(points3d_count(&bytes), Some(1));
}

#[test]
fn points3d_skips_tracks() {
    let mut bytes = Vec::new();
    bytes.extend_from_slice(&2u64.to_le_bytes());
    push_point(&mut bytes, 0, [1.0, 1.0, 1.0], [1, 2, 3], 4);
    push_point(&mut bytes, 1, [2.0, 2.0, 2.0], [4, 5, 6], 0);
    let (xyz, rgb) = parse_points3d(&bytes).unwrap();
    assert_eq!(xyz.len(), 2);
    assert_eq!(rgb[1], (4, 5, 6));
}

#[test]
fn points3d_rejects_absurd_counts_and_truncation() {
    let mut huge = Vec::new();
    huge.extend_from_slice(&10_000_001u64.to_le_bytes());
    assert!(parse_points3d(&huge).is_none());
    assert_eq!(points3d_count(&huge), Some(10_000_001));

    let mut cut = points_bin(&[([0.0, 1.0, 2.0], [10, 20, 30])]);
    cut.pop();
    assert!(parse_points3d(&cut).is_none());
    assert!(parse_points3d(b"points").is_none());
    assert_eq!(points3d_count(b"points"), None);
}

#[test]
fn points3d_count_truncates_to_u32() {
    let bytes = (u64::from(u32::MAX) + 3).to_le_bytes();
    assert_eq!(points3d_count(&bytes), Some(2));
}

#[test]
fn points3d_stops_at_the_preview_cap() {
    // 50 001 records announced but only 50 000 present: the cap is reached
    // before the missing record is read.
    let mut bytes = Vec::new();
    bytes.extend_from_slice(&50_001u64.to_le_bytes());
    for i in 0..50_000u64 {
        push_point(&mut bytes, i, [i as f64, 0.0, 0.0], [1, 1, 1], 0);
    }
    let (xyz, _) = parse_points3d(&bytes).unwrap();
    assert_eq!(xyz.len(), 50_000);
    assert_eq!(xyz[49_999].0, 49_999f64.to_bits());
}

#[test]
fn points3d_subsamples_large_clouds() {
    // 100 002 records: stride 2, so even records are kept until the cap.
    let mut bytes = Vec::new();
    bytes.extend_from_slice(&100_002u64.to_le_bytes());
    for i in 0..100_002u64 {
        push_point(&mut bytes, i, [i as f64, 0.0, 0.0], [0, 0, 0], 0);
    }
    let (xyz, _) = parse_points3d(&bytes).unwrap();
    assert_eq!(xyz.len(), 50_000);
    assert_eq!(xyz[0].0, 0f64.to_bits());
    assert_eq!(xyz[1].0, 2f64.to_bits());
    assert_eq!(xyz[49_999].0, 99_998f64.to_bits());
}

#[test]
fn camera_manifest_lists_registered_then_missing_frames() {
    let registered = vec!["frame_00001.jpg".to_string()];
    let frames = vec!["frame_00001.jpg".to_string(), "frame_00002.jpg".to_string()];
    let manifest = camera_manifest(&registered, &frames);
    assert_eq!(manifest.len(), 2);
    assert_eq!(
        manifest[0],
        CameraSlot { name: "frame_00001.jpg".into(), registered: true }
    );
    assert_eq!(
        manifest[1],
        CameraSlot { name: "frame_00002.jpg".into(), registered: false }
    );
}

#[test]
fn camera_manifest_keeps_model_order_and_every_frame() {
    let registered = vec!["c.jpg".to_string(), "a.jpg".to_string()];
    let frames = vec![
        "a.jpg".to_string(),
        "b.jpg".to_string(),
        "c.jpg".to_string(),
        "d.jpg".to_string(),
    ];
    let names: Vec<(String, bool)> = camera_manifest(&registered, &frames)
        .into_iter()
        .map(|c| (c.name, c.registered))
        .collect();
    assert_eq!(
        names,
        vec![
            ("c.jpg".to_string(), true),
            ("a.jpg".to_string(), true),
            ("b.jpg".to_string(), false),
            ("d.jpg".to_string(), false),
        ]
    );
}

//! COLMAP SfM command sequence. Sequential matching for orbits and long paths;
//! exhaustive matching for room captures so loops can close (up to 250 frames).
//! Longer rooms fall back to sequential matching with quadratic overlap.
//! Flags match COLMAP 4 (`FeatureExtraction` / `FeatureMatching`).
//!
//! The builders take the integer settings they read (capture mode, matching
//! overlap, maximum image size) as plain values.

use vstd::prelude::*;

use crate::capture_mode::CaptureMode;
use crate::settings::{
    clamp, edge_of, longest_edge, sane_max_image_size, sanitized_match_overlap,
    sanitized_max_image_size, MATCH_OVERLAP_MAX, MATCH_OVERLAP_MIN,
};
use crate::sidecar::{args_view, path_arg, CommandSpec};
use crate::text::{dec_str, dec_string};

verus! {

broadcast use vstd::string::group_string_axioms;

pub const CAMERA_MODEL: &'static str = "SIMPLE_RADIAL";
pub const EXHAUSTIVE_FRAME_LIMIT: usize = 250;
pub const SCENE_MIN_OVERLAP: u32 = 20;

/// Room captures up to the frame limit match every pair so loops can close.
pub fn uses_exhaustive(mode: CaptureMode, frame_count: usize) -> (r: bool)
    ensures
        r == (mode == CaptureMode::Room && frame_count <= EXHAUSTIVE_FRAME_LIMIT),
{
    mode == CaptureMode::Room && frame_count <= EXHAUSTIVE_FRAME_LIMIT
}

/// Sequential overlap: the configured value, raised to 20 for rooms and outdoors.
pub fn sequential_overlap_for(mode: CaptureMode, overlap: u32) -> (r: u32)
    ensures
        r == (if mode == CaptureMode::Object || overlap >= SCENE_MIN_OVERLAP {
            overlap
        } else {
            SCENE_MIN_OVERLAP
        }),
{
    match mode {
        CaptureMode::Object => overlap,
        CaptureMode::Room | CaptureMode::Outdoor => if overlap >= SCENE_MIN_OVERLAP {
            overlap
        } else {
            SCENE_MIN_OVERLAP
        },
    }
}

/// Smallest model COLMAP keeps.
pub fn min_model_size(mode: CaptureMode) -> (r: u32)
    ensures
        r == (if mode == CaptureMode::Object {
            6u32
        } else {
            10u32
        }),
{
    match mode {
        CaptureMode::Object => 6,
        CaptureMode::Room | CaptureMode::Outdoor => 10,
    }
}

pub fn exhaustive_matcher_spec(database: &str) -> (r: CommandSpec)
    ensures
        r.sidecar@ == "colmap"@,
        args_view(r) == seq![
            "exhaustive_matcher"@,
            "--database_path"@,
            database@,
            "--FeatureMatching.use_gpu"@,
            "0"@,
        ],
        r.watch_dir is None,
        r.capture_mode == CaptureMode::Object,
{
    let args: Vec<String> = vec![
        "exhaustive_matcher".to_owned(),
        "--database_path".to_owned(),
        path_arg(database),
        "--FeatureMatching.use_gpu".to_owned(),
        "0".to_owned(),
    ];
    let r = CommandSpec::new("colmap", args);
    assert(args_view(r) =~= seq![
        "exhaustive_matcher"@,
        "--database_path"@,
        database@,
        "--FeatureMatching.use_gpu"@,
        "0"@,
    ]);
    r
}

/// Decimal text of a number, as an argv entry.
fn number_arg(n: u32) -> (r: String)
    ensures
        r@ == dec_str(n as nat),
{
    dec_string(n as u64)
}

pub open spec fn feature_extractor_args(
    image_dir: Seq<char>,
    database: Seq<char>,
    edge: Option<u32>,
) -> Seq<Seq<char>> {
    seq![
        "feature_extractor"@,
        "--database_path"@,
        database,
        "--image_path"@,
        image_dir,
        "--ImageReader.single_camera"@,
        "1"@,
        "--ImageReader.camera_model"@,
        "SIMPLE_RADIAL"@,
        "--FeatureExtraction.use_gpu"@,
        "0"@,
    ] + match edge {
        Some(size) => seq!["--FeatureExtraction.max_image_size"@, dec_str(size as nat)],
        None => seq![],
    }
}

/// SIFT extraction on the CPU, one shared camera, optionally downscaled to
/// `longest_edge` pixels.
pub fn feature_extractor_spec(image_dir: &str, database: &str, longest_edge: Option<u32>) -> (r:
    CommandSpec)
    ensures
        r.sidecar@ == "colmap"@,
        args_view(r) == feature_extractor_args(image_dir@, database@, longest_edge),
        r.watch_dir is None,
        r.capture_mode == CaptureMode::Object,
{
    let mut args: Vec<String> = vec![
        "feature_extractor".to_owned(),
        "--database_path".to_owned(),
        path_arg(database),
        "--image_path".to_owned(),
        path_arg(image_dir),
        "--ImageReader.single_camera".to_owned(),
        "1".to_owned(),
        "--ImageReader.camera_model".to_owned(),
        CAMERA_MODEL.to_owned(),
        "--FeatureExtraction.use_gpu".to_owned(),
        "0".to_owned(),
    ];
    proof {
        reveal_strlit("SIMPLE_RADIAL");
    }
    if let Some(size) = longest_edge {
        args.push("--FeatureExtraction.max_image_size".to_owned());
        args.push(number_arg(size));
    }
    let r = CommandSpec::new("colmap", args);
    assert(args_view(r) =~= feature_extractor_args(image_dir@, database@, longest_edge));
    r
}

/// The overlap sequential matching uses for a configured overlap.
pub open spec fn overlap_for(mode: CaptureMode, match_overlap: u32) -> u32 {
    let o = clamp(match_overlap, MATCH_OVERLAP_MIN, MATCH_OVERLAP_MAX);
    if mode == CaptureMode::Object || o >= SCENE_MIN_OVERLAP {
        o
    } else {
        SCENE_MIN_OVERLAP
    }
}

pub open spec fn sequential_matcher_args(
    database: Seq<char>,
    mode: CaptureMode,
    match_overlap: u32,
) -> Seq<Seq<char>> {
    seq![
        "sequential_matcher"@,
        "--database_path"@,
        database,
        "--FeatureMatching.use_gpu"@,
        "0"@,
        "--SequentialMatching.overlap"@,
        dec_str(overlap_for(mode, match_overlap) as nat),
    ] + if mode == CaptureMode::Room {
        seq!["--SequentialMatching.quadratic_overlap"@, "1"@]
    } else {
        seq![]
    }
}

/// Sequential matching on the CPU; rooms add quadratic overlap.
pub fn sequential_matcher_spec(database: &str, mode: CaptureMode, match_overlap: u32) -> (r:
    CommandSpec)
    ensures
        r.sidecar@ == "colmap"@,
        args_view(r) == sequential_matcher_args(database@, mode, match_overlap),
        r.watch_dir is None,
        r.capture_mode == CaptureMode::Object,
{
    let overlap = sequential_overlap_for(mode, sanitized_match_overlap(match_overlap));
    let mut args: Vec<String> = vec![
        "sequential_matcher".to_owned(),
        "--database_path".to_owned(),
        path_arg(database),
        "--FeatureMatching.use_gpu".to_owned(),
        "0".to_owned(),
        "--SequentialMatching.overlap".to_owned(),
        number_arg(overlap),
    ];
    if mode == CaptureMode::Room {
        args.push("--SequentialMatching.quadratic_overlap".to_owned());
        args.push("1".to_owned());
    }
    let r = CommandSpec::new("colmap", args);
    assert(args_view(r) =~= sequential_matcher_args(database@, mode, match_overlap));
    r
}

pub open spec fn matcher_args(
    database: Seq<char>,
    mode: CaptureMode,
    match_overlap: u32,
    frame_count: usize,
) -> Seq<Seq<char>> {
    if mode == CaptureMode::Room && frame_count <= EXHAUSTIVE_FRAME_LIMIT {
        seq![
            "exhaustive_matcher"@,
            "--database_path"@,
            database,
            "--FeatureMatching.use_gpu"@,
            "0"@,
        ]
    } else {
        sequential_matcher_args(database, mode, match_overlap)
    }
}

/// Sequential or exhaustive matching depending on capture mode and frame count.
pub fn matcher_spec(database: &str, mode: CaptureMode, match_overlap: u32, frame_count: usize) -> (r:
    CommandSpec)
    ensures
        r.sidecar@ == "colmap"@,
        args_view(r) == matcher_args(database@, mode, match_overlap, frame_count),
        r.watch_dir is None,
        r.capture_mode == CaptureMode::Object,
{
    if uses_exhaustive(mode, frame_count) {
        exhaustive_matcher_spec(database)
    } else {
        sequential_matcher_spec(database, mode, match_overlap)
    }
}

pub open spec fn mapper_args(
    image_dir: Seq<char>,
    database: Seq<char>,
    sparse_dir: Seq<char>,
    mode: CaptureMode,
) -> Seq<Seq<char>> {
    seq![
        "mapper"@,
        "--database_path"@,
        database,
        "--image_path"@,
        image_dir,
        "--output_path"@,
        sparse_dir,
        "--Mapper.multiple_models"@,
        "0"@,
        "--Mapper.min_model_size"@,
        dec_str(if mode == CaptureMode::Object { 6nat } else { 10nat }),
    ] + if mode == CaptureMode::Outdoor {
        seq!["--Mapper.init_min_tri_angle"@, "8"@]
    } else {
        seq![]
    }
}

/// Incremental mapping into a single model; outdoor scenes accept flatter
/// initial triangulation.
pub fn mapper_spec(image_dir: &str, database: &str, sparse_dir: &str, mode: CaptureMode) -> (r:
    CommandSpec)
    ensures
        r.sidecar@ == "colmap"@,
        args_view(r) == mapper_args(image_dir@, database@, sparse_dir@, mode),
        r.watch_dir is None,
        r.capture_mode == CaptureMode::Object,
{
    let mut args: Vec<String> = vec![
        "mapper".to_owned(),
        "--database_path".to_owned(),
        path_arg(database),
        "--image_path".to_owned(),
        path_arg(image_dir),
        "--output_path".to_owned(),
        path_arg(sparse_dir),
        "--Mapper.multiple_models".to_owned(),
        "0".to_owned(),
        "--Mapper.min_model_size".to_owned(),
        number_arg(min_model_size(mode)),
    ];
    if mode == CaptureMode::Outdoor {
        args.push("--Mapper.init_min_tri_angle".to_owned());
        args.push("8".to_owned());
    }
    let r = CommandSpec::new("colmap", args);
    assert(args_view(r) =~= mapper_args(image_dir@, database@, sparse_dir@, mode));
    r
}

/// Feature extraction, matching, then mapping, each tagged with the capture
/// mode. The maximum image size and the overlap are sanitized first.
pub fn reconstruction_specs(
    image_dir: &str,
    database: &str,
    sparse_dir: &str,
    mode: CaptureMode,
    match_overlap: u32,
    max_image_size: u32,
    frame_count: usize,
) -> (r: Vec<CommandSpec>)
    ensures
        r@.len() == 3,
        forall|k: int|
            0 <= k < 3 ==> (#[trigger] r@[k]).sidecar@ == "colmap"@ && r@[k].capture_mode == mode
                && r@[k].watch_dir is None,
        args_view(r@[0]) == feature_extractor_args(
            image_dir@,
            database@,
            edge_of(sane_max_image_size(max_image_size)),
        ),
        args_view(r@[1]) == matcher_args(database@, mode, match_overlap, frame_count),
        args_view(r@[2]) == mapper_args(image_dir@, database@, sparse_dir@, mode),
{
    let edge = longest_edge(sanitized_max_image_size(max_image_size));
    let extract = feature_extractor_spec(image_dir, database, edge).capture(mode);
    let matcher = matcher_spec(database, mode, match_overlap, frame_count).capture(mode);
    let mapper = mapper_spec(image_dir, database, sparse_dir, mode).capture(mode);
    vec![extract, matcher, mapper]
}

} // verus!

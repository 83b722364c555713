//! Integer pipeline knobs: still format, keyframe mode, the clamp ranges the
//! sidecars survive, and the image-size rules derived from them.
//!
//! The floating-point knobs (frame rate, clip window and the nested
//! keyframe/Brush/viewer groups) are handled outside this crate; the
//! functions here take the integer fields they read as plain values.

use vstd::prelude::*;

verus! {

broadcast use vstd::string::group_string_axioms;

pub const MAX_IMAGE_SIZE_MIN: u32 = 64;
pub const MAX_IMAGE_SIZE_MAX: u32 = 16_384;
pub const TRAIN_STEPS_MIN: u32 = 1;
pub const TRAIN_STEPS_MAX: u32 = 1_000_000;
pub const MATCH_OVERLAP_MIN: u32 = 1;
pub const MATCH_OVERLAP_MAX: u32 = 200;
pub const MAX_SPLATS_MIN: u32 = 1_000;
pub const MAX_SPLATS_MAX: u32 = 100_000_000;
pub const MAX_FRAMES_MIN: u32 = 1;
pub const MAX_FRAMES_MAX: u32 = 50_000;

/// Still format written by FFmpeg. PNG is lossless; JPEG uses the JPEG quality knob.
#[derive(Debug, Clone, Copy, PartialEq, Eq, Structural)]
pub enum FrameFormat {
    Jpg,
    Png,
}

impl Default for FrameFormat {
    fn default() -> (r: Self)
        ensures
            r == FrameFormat::Jpg,
    {
        FrameFormat::Jpg
    }
}

pub open spec fn extension_of(format: FrameFormat) -> Seq<char> {
    match format {
        FrameFormat::Jpg => "jpg"@,
        FrameFormat::Png => "png"@,
    }
}

impl FrameFormat {
    /// File extension of the stills, without the dot.
    pub fn extension(self) -> (r: &'static str)
        ensures
            r@ == extension_of(self),
    {
        match self {
            FrameFormat::Jpg => "jpg",
            FrameFormat::Png => "png",
        }
    }
}

/// How video stills are chosen. Density uses fps plus a frame cap; Change uses picture motion.
#[derive(Debug, Clone, Copy, PartialEq, Eq, Structural)]
pub enum ExtractMode {
    Density,
    Change,
}

impl Default for ExtractMode {
    fn default() -> (r: Self)
        ensures
            r == ExtractMode::Density,
    {
        ExtractMode::Density
    }
}

/// `v` clamped into `lo..=hi`.
pub open spec fn clamp(v: u32, lo: u32, hi: u32) -> u32 {
    if v < lo {
        lo
    } else if v > hi {
        hi
    } else {
        v
    }
}

pub fn clamp_exec(v: u32, lo: u32, hi: u32) -> (r: u32)
    requires
        lo <= hi,
    ensures
        r == clamp(v, lo, hi),
{
    if v < lo {
        lo
    } else if v > hi {
        hi
    } else {
        v
    }
}

/// `0` keeps the source size; other values are clamped to what the sidecars handle.
pub open spec fn sane_max_image_size(n: u32) -> u32 {
    if n == 0 {
        0
    } else {
        clamp(n, MAX_IMAGE_SIZE_MIN, MAX_IMAGE_SIZE_MAX)
    }
}

pub fn sanitized_max_image_size(n: u32) -> (r: u32)
    ensures
        r == sane_max_image_size(n),
{
    if n == 0 {
        0
    } else {
        clamp_exec(n, MAX_IMAGE_SIZE_MIN, MAX_IMAGE_SIZE_MAX)
    }
}

/// Sequential-matching overlap clamped to `MATCH_OVERLAP_MIN..=MATCH_OVERLAP_MAX`.
pub fn sanitized_match_overlap(n: u32) -> (r: u32)
    ensures
        r == clamp(n, MATCH_OVERLAP_MIN, MATCH_OVERLAP_MAX),
{
    clamp_exec(n, MATCH_OVERLAP_MIN, MATCH_OVERLAP_MAX)
}

pub open spec fn edge_of(max_image_size: u32) -> Option<u32> {
    if max_image_size > 0 {
        Some(max_image_size)
    } else {
        None
    }
}

/// Longest edge for FFmpeg scale / COLMAP SIFT / Brush. `None` keeps the source size.
pub fn longest_edge(max_image_size: u32) -> (r: Option<u32>)
    ensures
        r == edge_of(max_image_size),
{
    if max_image_size > 0 {
        Some(max_image_size)
    } else {
        None
    }
}

pub open spec fn resolution_of(max_image_size: u32, cap: u32) -> Option<u32> {
    match edge_of(max_image_size) {
        Some(edge) => Some(
            if cap == 0 || edge <= cap {
                edge
            } else {
                cap
            },
        ),
        None => if cap > 0 {
            Some(cap)
        } else {
            None
        },
    }
}

/// Brush `--max-resolution`: the longest edge, capped by the Brush knob
/// (`0` = no cap). `None` means native (omit the flag).
pub fn train_resolution(max_image_size: u32, train_max_resolution: u32) -> (r: Option<u32>)
    ensures
        r == resolution_of(max_image_size, train_max_resolution),
{
    let cap = train_max_resolution;
    match longest_edge(max_image_size) {
        Some(edge) => Some(
            if cap == 0 || edge <= cap {
                edge
            } else {
                cap
            },
        ),
        None => if cap > 0 {
            Some(cap)
        } else {
            None
        },
    }
}

} // verus!

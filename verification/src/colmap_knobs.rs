//! COLMAP SfM knobs. Named presets fill these from the capture mode.

use vstd::prelude::*;

use crate::capture_mode::CaptureMode;
use crate::settings::{clamp, clamp_exec};

verus! {

broadcast use vstd::string::group_string_axioms;

/// COLMAP camera model string passed to `ImageReader.camera_model`.
#[derive(Debug, Clone, Copy, PartialEq, Eq, Structural)]
pub enum CameraModel {
    SimpleRadial,
    SimplePinhole,
    Pinhole,
    Radial,
    OpenCv,
}

impl Default for CameraModel {
    fn default() -> (r: Self)
        ensures
            r == CameraModel::SimpleRadial,
    {
        CameraModel::SimpleRadial
    }
}

pub open spec fn camera_model_name(m: CameraModel) -> Seq<char> {
    match m {
        CameraModel::SimpleRadial => "SIMPLE_RADIAL"@,
        CameraModel::SimplePinhole => "SIMPLE_PINHOLE"@,
        CameraModel::Pinhole => "PINHOLE"@,
        CameraModel::Radial => "RADIAL"@,
        CameraModel::OpenCv => "OPENCV"@,
    }
}

impl CameraModel {
    pub fn as_colmap(self) -> (r: &'static str)
        ensures
            r@ == camera_model_name(self),
    {
        match self {
            CameraModel::SimpleRadial => "SIMPLE_RADIAL",
            CameraModel::SimplePinhole => "SIMPLE_PINHOLE",
            CameraModel::Pinhole => "PINHOLE",
            CameraModel::Radial => "RADIAL",
            CameraModel::OpenCv => "OPENCV",
        }
    }
}

#[derive(Debug, Clone, Copy, PartialEq, Eq, Structural)]
pub enum ColmapMatcher {
    Sequential,
    Exhaustive,
}

#[derive(Debug, Clone, Copy, PartialEq, Eq, Structural)]
pub enum ColmapMapper {
    Incremental,
    Global,
}

/// Explicit SfM knobs. Missing archive JSON hydrates via [`ColmapKnobs::for_capture`].
#[derive(Debug, Clone, Copy, PartialEq, Eq, Structural)]
pub struct ColmapKnobs {
    pub camera_model: CameraModel,
    pub single_camera: bool,
    pub matcher: ColmapMatcher,
    pub exhaustive_frame_limit: u32,
    pub quadratic_overlap: bool,
    pub min_overlap_floor: u32,
    pub mapper: ColmapMapper,
    pub min_model_size: u32,
    pub init_min_tri_angle: u32,
}

/// The capture-mode profile.
pub open spec fn profile(mode: CaptureMode) -> ColmapKnobs {
    match mode {
        CaptureMode::Object => ColmapKnobs {
            camera_model: CameraModel::SimpleRadial,
            single_camera: true,
            matcher: ColmapMatcher::Sequential,
            exhaustive_frame_limit: 250,
            quadratic_overlap: false,
            min_overlap_floor: 0,
            mapper: ColmapMapper::Incremental,
            min_model_size: 6,
            init_min_tri_angle: 0,
        },
        CaptureMode::Room => ColmapKnobs {
            camera_model: CameraModel::SimpleRadial,
            single_camera: true,
            matcher: ColmapMatcher::Exhaustive,
            exhaustive_frame_limit: 250,
            quadratic_overlap: true,
            min_overlap_floor: 20,
            mapper: ColmapMapper::Global,
            min_model_size: 10,
            init_min_tri_angle: 0,
        },
        CaptureMode::Outdoor => ColmapKnobs {
            camera_model: CameraModel::SimpleRadial,
            single_camera: true,
            matcher: ColmapMatcher::Sequential,
            exhaustive_frame_limit: 250,
            quadratic_overlap: false,
            min_overlap_floor: 20,
            mapper: ColmapMapper::Incremental,
            min_model_size: 10,
            init_min_tri_angle: 8,
        },
    }
}

pub open spec fn at_most(v: u32, hi: u32) -> u32 {
    if v > hi {
        hi
    } else {
        v
    }
}

/// Knobs clamped to ranges COLMAP survives; the choices are kept.
pub open spec fn clamped(k: ColmapKnobs) -> ColmapKnobs {
    ColmapKnobs {
        exhaustive_frame_limit: clamp(k.exhaustive_frame_limit, 2, 50_000),
        min_overlap_floor: at_most(k.min_overlap_floor, 200),
        min_model_size: clamp(k.min_model_size, 2, 10_000),
        init_min_tri_angle: at_most(k.init_min_tri_angle, 90),
        ..k
    }
}

impl ColmapKnobs {
    /// Today's capture-mode heuristics, used when the nested group is absent.
    pub fn for_capture(mode: CaptureMode) -> (r: Self)
        ensures
            r == profile(mode),
    {
        match mode {
            CaptureMode::Object => Self {
                camera_model: CameraModel::SimpleRadial,
                single_camera: true,
                matcher: ColmapMatcher::Sequential,
                exhaustive_frame_limit: 250,
                quadratic_overlap: false,
                min_overlap_floor: 0,
                mapper: ColmapMapper::Incremental,
                min_model_size: 6,
                init_min_tri_angle: 0,
            },
            CaptureMode::Room => Self {
                camera_model: CameraModel::SimpleRadial,
                single_camera: true,
                matcher: ColmapMatcher::Exhaustive,
                exhaustive_frame_limit: 250,
                quadratic_overlap: true,
                min_overlap_floor: 20,
                mapper: ColmapMapper::Global,
                min_model_size: 10,
                init_min_tri_angle: 0,
            },
            CaptureMode::Outdoor => Self {
                camera_model: CameraModel::SimpleRadial,
                single_camera: true,
                matcher: ColmapMatcher::Sequential,
                exhaustive_frame_limit: 250,
                quadratic_overlap: false,
                min_overlap_floor: 20,
                mapper: ColmapMapper::Incremental,
                min_model_size: 10,
                init_min_tri_angle: 8,
            },
        }
    }

    /// Clamps SfM knobs to ranges COLMAP can survive.
    pub fn sanitized(self) -> (r: Self)
        ensures
            r == clamped(self),
    {
        Self {
            camera_model: self.camera_model,
            single_camera: self.single_camera,
            matcher: self.matcher,
            exhaustive_frame_limit: clamp_exec(self.exhaustive_frame_limit, 2, 50_000),
            quadratic_overlap: self.quadratic_overlap,
            min_overlap_floor: if self.min_overlap_floor > 200 {
                200
            } else {
                self.min_overlap_floor
            },
            mapper: self.mapper,
            min_model_size: clamp_exec(self.min_model_size, 2, 10_000),
            init_min_tri_angle: if self.init_min_tri_angle > 90 {
                90
            } else {
                self.init_min_tri_angle
            },
        }
    }
}

/// Clamping is idempotent, and the capture profiles are already in range.
pub proof fn law_sanitize_idempotent(k: ColmapKnobs, mode: CaptureMode)
    ensures
        clamped(clamped(k)) == clamped(k),
        clamped(profile(mode)) == profile(mode),
{
}

} // verus!

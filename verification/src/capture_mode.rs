//! Capture coverage. Named presets still fill COLMAP/viewer knobs from this.

use vstd::prelude::*;

verus! {

/// What the capture covers. Named recipes fill SfM and viewer knobs from this.
#[derive(Debug, Clone, Copy, PartialEq, Eq, Structural)]
pub enum CaptureMode {
    Object,
    Room,
    Outdoor,
}

impl Default for CaptureMode {
    fn default() -> (r: Self)
        ensures
            r == CaptureMode::Object,
    {
        CaptureMode::Object
    }
}

pub open spec fn frames_cap(mode: CaptureMode) -> u32 {
    match mode {
        CaptureMode::Object | CaptureMode::Room => 800,
        CaptureMode::Outdoor => 10_000,
    }
}

impl CaptureMode {
    /// Named-preset video keyframe cap. Custom ignores this and uses `max_frames`.
    pub fn max_frames_cap(self) -> (r: u32)
        ensures
            r == frames_cap(self),
    {
        match self {
            CaptureMode::Object | CaptureMode::Room => 800,
            CaptureMode::Outdoor => 10_000,
        }
    }
}

} // verus!

//! Named shortcuts that fill the pipeline settings.

use vstd::prelude::*;

verus! {

#[derive(Debug, Clone, Copy, PartialEq, Eq, Structural)]
pub enum Preset {
    Fast,
    Balanced,
    Quality,
}

} // verus!

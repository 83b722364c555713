//! Helpers of the COLMAP bundling tool: framework install names, `otool`
//! output and rpath bookkeeping.

pub mod copy;
pub mod framework;
pub mod otool;
pub mod rpath;

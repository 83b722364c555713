//! Verified core of a video-to-Gaussian-splat desktop pipeline: log parsers,
//! command-line builders, knob clamping and path layout.

pub mod text;
pub mod duration;
pub mod colmap_log;
pub mod colmap_pose;
pub mod capture_mode;
pub mod preset;
pub mod settings;
pub mod train_log;
pub mod error;
pub mod paths;
pub mod app_config;
pub mod app_menu;
pub mod log_buffer;
pub mod manifest;
pub mod project;
pub mod sidecar;
pub mod ffmpeg;
pub mod brush;
pub mod colmap_knobs;
pub mod colmap;
pub mod frame_log;
pub mod geo;
pub mod commands;
pub mod colmap_bundle;
pub mod archive;
pub mod pipeline;
pub mod html_export;
pub mod keyframes;

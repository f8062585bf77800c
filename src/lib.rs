//! Size-bounded, silence-aware segmentation of media files and the export
//! pipeline that drives the resulting segments.
//!
//! Times are whole milliseconds (`u64`), sizes are bytes, bitrates are bits
//! per second.

pub mod bitrate;
pub mod silence;
pub mod planner;
pub mod text;
pub mod segment;
pub mod export_queue;
pub mod batch;
pub mod commands;
pub mod settings;
pub mod tools;
pub mod media_kind;
pub mod units;
pub mod parse;
pub mod tool_paths;
pub mod player;
pub mod editing;
pub mod packets;
pub mod export_plan;
pub mod merge;
pub mod filters;
pub mod task;
pub mod project;

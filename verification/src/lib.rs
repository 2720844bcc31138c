//! Batch processing of ripped containers, as far as it can be decided
//! without touching a file or running a tool.
//!
//! Configuration documents are composed through links (`config`), roles are
//! bound to probed tracks (`select`), and each track is taken through a
//! numbered sequence of stages that can be resumed (`filters`). What has to be
//! read, run or written is handed out as plain values for the caller to act
//! on: texts, paths, commands.

pub mod codec;
pub mod command;
pub mod config;
pub mod filters;
pub mod glob;
pub mod input;
pub mod mkv;
pub mod paths;
pub mod select;
pub mod text;
pub mod utils;
pub mod value;

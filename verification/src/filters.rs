//! The transformations of a track, and the sequence they run in.

pub mod avisynth;
pub mod dolby;
pub mod encode;
pub mod extract;
pub mod filter;
pub mod offset;
pub mod pitch;
pub mod script;
pub mod speed;
pub mod tempo;
pub mod vapoursynth;

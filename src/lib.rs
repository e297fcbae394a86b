//! Sprite-atlas animation driven by a ring buffer of audio samples.

pub mod animation;
pub mod atlas;
pub mod audio;
pub mod geometry;
pub mod render;
pub mod control;

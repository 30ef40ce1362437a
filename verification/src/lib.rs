//! A real-time 2D compositing and audio-streaming core.
//!
//! The library turns scene state into plain draw commands and PCM bytes:
//! sprites with modulation state, large tile fields with viewport culling
//! and cache baking, and audio streams with a sample-accurate pull routine.
//! Presentation (windows, textures, audio devices) is left to the caller.

pub mod audio;
pub mod button;
pub mod geom;
pub mod sprite;
pub mod tile_field;
pub mod wav;

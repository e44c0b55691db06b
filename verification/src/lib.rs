//! A music tracker's data model: patterns of notes, the arrangement of a song,
//! musical scales and the project file framing.
pub mod app;
pub mod audio;
pub mod editor;
pub mod keys;
pub mod pattern;
pub mod project;
pub mod scale;
pub mod synth;
pub mod text;

//! What the audio side reads of the project.
pub mod mixer;
pub mod sequencer;

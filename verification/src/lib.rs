//! Geometry, timing and sample handling for a beat-synchronised audio scope.
//!
//! The crate decides what is drawn and when; opening the window, talking to
//! the sound card and uploading meshes is left to the program around it.
//! Coordinates are exact fractions and times are whole milliseconds, so that
//! every contract is a statement about integers.

/// The track made of decoded packets, at playback volume, and its trace.
pub mod audio;
/// The window size, the palette and the tuning of the scope.
pub mod constants;
/// The split of the window into viewports and what is drawn into each.
pub mod frame;
/// The quad that pulses with the cues of the track.
pub mod n1ck;
/// Exact fractions.
pub mod ratio;
/// The scope: a border around a window that scrolls over the samples.
pub mod tom;
/// Vertices, their attributes and meshes.
pub mod vertex;

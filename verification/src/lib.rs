//! Core of a single-window image viewer.
//!
//! Given the listing of a directory and the name of a starting image, the
//! library builds the sorted set of sibling images, resolves the starting
//! index, and maintains the view state (current image, rotation) in response
//! to discrete user intents.  All I/O — reading the directory, decoding
//! images, drawing the window — is left to the surrounding application; the
//! library only ever sees plain values.

pub mod args;
pub mod config;
pub mod imgvwr;
pub mod nav;
pub mod order;
pub mod rotation;
pub mod util;

//! Batch driver for video transcoding: finds the videos under an input
//! folder, gives each a place in a mirrored output folder and a hidden work
//! directory named by a hash of its path, builds the engine configuration of
//! each, and keeps count of how the batch went.
pub mod batch;
pub mod config;
pub mod digits;
pub mod discovery;
pub mod hash;
pub mod paths;

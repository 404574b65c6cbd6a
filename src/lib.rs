//! Conversion of uncompressed AIFF audio into canonical PCM WAV.
//!
//! The library parses the AIFF chunk stream, validates the format it finds,
//! and writes a WAV file whose samples are the AIFF samples with the byte
//! order of every sample reversed (big-endian to little-endian).
pub mod aiff;
pub mod bytes;
pub mod float80;
pub mod laws;
pub mod transcode;
pub mod wav;

pub use wav::aiff_to_wav;

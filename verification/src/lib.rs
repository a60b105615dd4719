//! Sample-level logic of a tool that changes the playback speed of BRSTM
//! streams: channel interleaving, segment extraction for loop previews,
//! PCM WAV framing, the 16-bit little-endian sample exchange format, the
//! command line, and the decode/encode steps that go through the `brstm`
//! crate.

pub mod pcm;
pub mod le_bytes;
pub mod wav;
pub mod atempo;
pub mod brstm_format;
pub mod brstm_io;
pub mod brstm_stream;
pub mod cli;
pub mod report;

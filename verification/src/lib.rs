//! Incremental decoding of RIFF/WAVE audio.
//!
//! A WAVE file is decoded header first and sample by sample, so that it can
//! be played while its bytes still arrive.
//!
//! - [`container`] states the chunk grammar over byte sequences
//!   ([`container::scan_container`]) and holds the decisions that a reader
//!   takes on the bytes it has read: [`check_riff_header`], [`chunk_step`]
//!   and [`parse_format`].
//! - [`sample`] holds the encodings, [`WavSample`]: unsigned 8-bit and
//!   signed 16-bit PCM, and 32-bit floating point.
//! - [`source`] holds [`ByteSource`], the model of a forward-only source of
//!   bytes, and [`MemorySource`], a source over a buffer.
//! - [`streaming_wav`] holds [`StreamingWav`], which opens a container on a
//!   byte source and decodes its samples on demand.
//!
//! A program that reads from the operating system makes the reads itself
//! and takes the three decisions and [`WavSample::from_bytes`] from here.

pub mod container;
pub mod error;
pub mod sample;
pub mod source;
pub mod streaming_wav;
pub mod wire;

pub use container::{check_riff_header, chunk_step, parse_format, ChunkStep, StreamFormat};
pub use error::{Fault, StreamingWavError};
pub use sample::{Float32, WavSample};
pub use source::{ByteSource, MemorySource};
pub use streaming_wav::{StreamingWav, StreamingWavView};

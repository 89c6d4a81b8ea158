//! The faults that end the construction of a stream.

use vstd::prelude::*;

verus! {

/// `std::io::Error`, carried through as an opaque value.
#[verifier::external_type_specification]
#[verifier::external_body]
pub struct ExIoError(std::io::Error);

/// Why a container could not be opened.
#[derive(Debug)]
pub enum StreamingWavError {
    /// The source failed, or ended, before the bytes the container
    /// structure requires were delivered.
    Io(std::io::Error),
    /// The first four bytes are not `RIFF`.
    InvalidRiffFormat,
    /// Bytes 8 to 11 are not `WAVE`.
    InvalidWaveFormat,
    /// The format chunk declares this audio-format code, which is not the
    /// one of the selected encoding.
    UnsupportedAudioFormat(u16),
    /// The format chunk declares this bit depth, which is not the one of
    /// the selected encoding.
    UnsupportedBitsPerSample(u16),
}

/// A [`StreamingWavError`] without the cause that an I/O fault wraps: what
/// contracts can speak of.
pub enum Fault {
    Io,
    InvalidRiffFormat,
    InvalidWaveFormat,
    UnsupportedAudioFormat(u16),
    UnsupportedBitsPerSample(u16),
}

impl View for StreamingWavError {
    type V = Fault;

    open spec fn view(&self) -> Fault {
        match self {
            StreamingWavError::Io(_) => Fault::Io,
            StreamingWavError::InvalidRiffFormat => Fault::InvalidRiffFormat,
            StreamingWavError::InvalidWaveFormat => Fault::InvalidWaveFormat,
            StreamingWavError::UnsupportedAudioFormat(code) => Fault::UnsupportedAudioFormat(*code),
            StreamingWavError::UnsupportedBitsPerSample(bits) => Fault::UnsupportedBitsPerSample(
                *bits,
            ),
        }
    }
}

/// Calls `std::io::Error::from` on `ErrorKind::UnexpectedEof`. Nothing is
/// claimed of the value: to Verus it is opaque.
#[verifier::external_body]
pub(crate) fn unexpected_eof() -> std::io::Error {
    std::io::Error::from(std::io::ErrorKind::UnexpectedEof)
}

/// The I/O fault of bytes that end before what the container requires.
pub(crate) fn truncated() -> (e: StreamingWavError)
    ensures
        e@ == Fault::Io,
{
    StreamingWavError::Io(unexpected_eof())
}

} // verus!

//! The decoded stream: a byte source whose cursor stands in the sample
//! data, and the format that the container declared.

use vstd::prelude::*;
use core::marker::PhantomData;
use std::time::Duration;
use crate::container::{
    check_riff_header,
    chunk_step,
    parse_format,
    riff_verdict,
    scan_chunks,
    scan_container,
    ChunkStep,
    StreamFormat,
    CHUNK_HEADER_LEN,
    RIFF_HEADER_LEN,
};
use crate::error::{Fault, StreamingWavError};
use crate::sample::{after_sample, next_sample, WavSample};
use crate::source::ByteSource;

verus! {

/// A WAVE stream opened for decoding as the encoding `S`, reading from `R`.
///
/// The stream owns its source. Samples come out one at a time, in file
/// order, channels interleaved; there is no way back.
pub struct StreamingWav<S: WavSample, R: ByteSource> {
    reader: R,
    sample_rate: u32,
    channels: u16,
    _sample_type: PhantomData<S>,
}

/// What a [`StreamingWav`] is to its contracts.
pub struct StreamingWavView {
    /// Number of interleaved channels.
    pub channels: u16,
    /// Samples per second and channel.
    pub sample_rate: u32,
    /// The bytes that the source has yet to deliver: the samples not yet
    /// decoded.
    pub remaining: Seq<u8>,
}

impl<S: WavSample, R: ByteSource> View for StreamingWav<S, R> {
    type V = StreamingWavView;

    closed spec fn view(&self) -> StreamingWavView {
        StreamingWavView {
            channels: self.channels,
            sample_rate: self.sample_rate,
            remaining: self.reader.remaining(),
        }
    }
}

/// Reads exactly `n` bytes off `source`. A source that cannot deliver them
/// gives the I/O fault that wraps its failure.
fn fetch<R: ByteSource>(source: &mut R, n: usize) -> (r: Result<Vec<u8>, StreamingWavError>)
    ensures
        r is Ok <==> n <= old(source).remaining().len(),
        r matches Ok(bytes) ==> bytes@ == old(source).remaining().take(n as int)
            && final(source).remaining() == old(source).remaining().skip(n as int),
        r matches Err(e) ==> e@ == Fault::Io && final(source).remaining().len() == 0,
{
    match source.read_exact(n) {
        Ok(bytes) => Ok(bytes),
        Err(cause) => Err(StreamingWavError::Io(cause)),
    }
}

impl<S: WavSample, R: ByteSource> StreamingWav<S, R> {
    /// Opens the container that `reader` delivers.
    ///
    /// Reads the RIFF header and then chunk after chunk until the `data`
    /// chunk's header has been read, so that the next byte of the source is
    /// the first byte of the first sample. The outcome is the one that
    /// [`scan_container`] gives for the bytes of the source. A source that
    /// ends or fails before `data` is reached gives an I/O fault. Without a
    /// `fmt ` chunk before `data`, channel count and sample rate are zero.
    pub fn new(reader: R) -> (r: Result<Self, StreamingWavError>)
        ensures
            match scan_container(S::format_code(), S::bits_per_sample(), reader.remaining()) {
                Ok(found) => r matches Ok(wav) && wav@ == (StreamingWavView {
                    channels: found.format.channels,
                    sample_rate: found.format.sample_rate,
                    remaining: found.samples,
                }),
                Err(fault) => r matches Err(e) && e@ == fault,
            },
    {
        let ghost all = reader.remaining();
        let mut source = reader;
        let riff_header = fetch(&mut source, RIFF_HEADER_LEN)?;
        proof {
            let head = all.take(RIFF_HEADER_LEN as int);
            assert(head.subrange(0, 4) =~= all.subrange(0, 4));
            assert(head.subrange(8, 12) =~= all.subrange(8, 12));
            assert(riff_verdict(head) == riff_verdict(all));
        }
        check_riff_header(riff_header.as_slice())?;
        let mut declared = StreamFormat { channels: 0, sample_rate: 0 };
        loop
            invariant
                all == reader.remaining(),
                scan_chunks(S::format_code(), S::bits_per_sample(), source.remaining(), declared)
                    == scan_container(S::format_code(), S::bits_per_sample(), all),
            decreases source.remaining().len(),
        {
            let chunk_header = fetch(&mut source, CHUNK_HEADER_LEN)?;
            match chunk_step(chunk_header.as_slice())? {
                ChunkStep::Format(size) => {
                    let payload = fetch(&mut source, size as usize)?;
                    declared = parse_format(S::format(), S::bits(), payload.as_slice())?;
                },
                ChunkStep::Samples => {
                    return Ok(
                        StreamingWav {
                            reader: source,
                            sample_rate: declared.sample_rate,
                            channels: declared.channels,
                            _sample_type: PhantomData,
                        },
                    );
                },
                ChunkStep::Skip(padded) => {
                    match source.skip(padded) {
                        Ok(()) => {},
                        Err(cause) => {
                            return Err(StreamingWavError::Io(cause));
                        },
                    }
                },
            }
        }
    }

    /// Decodes the next sample, or returns `None` when the source has no
    /// whole sample left. Nothing tells a clean end from a source that broke
    /// off in the middle of a sample, and reading goes on past the size that
    /// the `data` chunk declared, to the end of the source.
    pub fn next(&mut self) -> (r: Option<S::Sample>)
        ensures
            r == next_sample::<S>(old(self)@.remaining),
            final(self)@ == (StreamingWavView {
                remaining: after_sample::<S>(old(self)@.remaining),
                ..old(self)@
            }),
    {
        S::next(&mut self.reader)
    }

    /// Number of interleaved channels, as the `fmt ` chunk declared it.
    pub fn channels(&self) -> (r: u16)
        ensures
            r == self@.channels,
    {
        self.channels
    }

    /// Samples per second and channel, as the `fmt ` chunk declared it.
    pub fn sample_rate(&self) -> (r: u32)
        ensures
            r == self@.sample_rate,
    {
        self.sample_rate
    }

    /// Number of samples before the format may change: never known.
    pub fn current_frame_len(&self) -> (r: Option<usize>)
        ensures
            r is None,
    {
        None
    }

    /// Length of the whole stream: never known, the source's length is not.
    pub fn total_duration(&self) -> (r: Option<Duration>)
        ensures
            r is None,
    {
        None
    }
}

} // verus!

//! The RIFF/WAVE container: its grammar over byte sequences, and the
//! decisions a reader takes while it walks the chunks.
//!
//! A container is twelve header bytes (`RIFF`, a size that is not looked at,
//! `WAVE`) followed by chunks. A chunk is a four-byte tag, a little-endian
//! 32-bit size and that many bytes of payload. The `fmt ` chunk declares the
//! encoding; the `data` chunk holds the samples; any other chunk is passed
//! over together with the padding byte that follows a payload of odd size.

use vstd::prelude::*;
use crate::error::{truncated, Fault, StreamingWavError};
use crate::wire::{le_u16, le_u32, read_u16_le, read_u32_le};

verus! {

/// ASCII `RIFF`.
pub const RIFF: [u8; 4] = [0x52, 0x49, 0x46, 0x46];

/// ASCII `WAVE`.
pub const WAVE: [u8; 4] = [0x57, 0x41, 0x56, 0x45];

/// ASCII `fmt ` (with the trailing blank).
pub const FMT: [u8; 4] = [0x66, 0x6D, 0x74, 0x20];

/// ASCII `data`.
pub const DATA: [u8; 4] = [0x64, 0x61, 0x74, 0x61];

/// Length of the RIFF header.
pub const RIFF_HEADER_LEN: usize = 12;

/// Length of a chunk header.
pub const CHUNK_HEADER_LEN: usize = 8;

/// The four bytes of `bytes` that start at `at`.
pub open spec fn tag_at(bytes: Seq<u8>, at: int) -> Seq<u8> {
    bytes.subrange(at, at + 4)
}

/// Whether the four bytes at `at` are `tag`.
fn has_tag(bytes: &[u8], at: usize, tag: &[u8; 4]) -> (r: bool)
    requires
        at + 4 <= bytes@.len(),
    ensures
        r == (tag_at(bytes@, at as int) == tag@),
{
    let r = bytes[at] == tag[0] && bytes[at + 1] == tag[1] && bytes[at + 2] == tag[2] && bytes[at
        + 3] == tag[3];
    proof {
        let found = tag_at(bytes@, at as int);
        if r {
            assert(found =~= tag@);
        } else {
            assert(found[0] == bytes@[at as int]);
            assert(found[1] == bytes@[at + 1]);
            assert(found[2] == bytes@[at + 2]);
            assert(found[3] == bytes@[at + 3]);
        }
    }
    r
}

/// What the twelve header bytes say: `Ok` when both markers are in place.
/// Fewer than twelve bytes are the fault of a source that ended early.
pub open spec fn riff_verdict(header: Seq<u8>) -> Result<(), Fault> {
    if header.len() < RIFF_HEADER_LEN {
        Err(Fault::Io)
    } else if tag_at(header, 0) != RIFF@ {
        Err(Fault::InvalidRiffFormat)
    } else if tag_at(header, 8) != WAVE@ {
        Err(Fault::InvalidWaveFormat)
    } else {
        Ok(())
    }
}

/// Checks the RIFF header that a container starts with. Only the first
/// twelve bytes of `header` are looked at; the declared size in bytes 4 to 7
/// is not validated.
pub fn check_riff_header(header: &[u8]) -> (r: Result<(), StreamingWavError>)
    ensures
        match riff_verdict(header@) {
            Ok(()) => r is Ok,
            Err(fault) => r matches Err(e) && e@ == fault,
        },
{
    if header.len() < RIFF_HEADER_LEN {
        Err(truncated())
    } else if !has_tag(header, 0, &RIFF) {
        Err(StreamingWavError::InvalidRiffFormat)
    } else if !has_tag(header, 8, &WAVE) {
        Err(StreamingWavError::InvalidWaveFormat)
    } else {
        Ok(())
    }
}

/// What follows a chunk header.
#[derive(Clone, Copy, Debug, PartialEq, Eq, Structural)]
pub enum ChunkStep {
    /// A `fmt ` chunk: read this many bytes and hand them to
    /// [`parse_format`].
    Format(u32),
    /// The `data` chunk: the next byte of the source is the first byte of
    /// the first sample.
    Samples,
    /// Any other chunk: discard this many bytes, which is the payload and
    /// the padding byte after a payload of odd size.
    Skip(u64),
}

/// The step that the eight bytes of a chunk header call for.
pub open spec fn step_of(header: Seq<u8>) -> ChunkStep
    recommends
        header.len() >= CHUNK_HEADER_LEN,
{
    let size = le_u32(header.subrange(4, 8));
    if tag_at(header, 0) == FMT@ {
        ChunkStep::Format(size)
    } else if tag_at(header, 0) == DATA@ {
        ChunkStep::Samples
    } else {
        ChunkStep::Skip((size + size % 2) as u64)
    }
}

/// Reads a chunk header and says what to do next. Only the first eight
/// bytes of `header` are looked at; fewer are the fault of a source that
/// ended early.
pub fn chunk_step(header: &[u8]) -> (r: Result<ChunkStep, StreamingWavError>)
    ensures
        header@.len() >= CHUNK_HEADER_LEN ==> r == Ok::<ChunkStep, StreamingWavError>(
            step_of(header@),
        ),
        header@.len() < CHUNK_HEADER_LEN ==> (r matches Err(e) && e@ == Fault::Io),
{
    if header.len() < CHUNK_HEADER_LEN {
        return Err(truncated());
    }
    let size = read_u32_le(header, 4);
    if has_tag(header, 0, &FMT) {
        Ok(ChunkStep::Format(size))
    } else if has_tag(header, 0, &DATA) {
        Ok(ChunkStep::Samples)
    } else {
        let padded: u64 = size as u64 + (size % 2) as u64;
        Ok(ChunkStep::Skip(padded))
    }
}

/// What a `fmt ` chunk declares of the stream.
#[derive(Clone, Copy, Debug, PartialEq, Eq, Structural)]
pub struct StreamFormat {
    /// Number of interleaved channels.
    pub channels: u16,
    /// Samples per second and channel.
    pub sample_rate: u32,
}

/// What the payload of a `fmt ` chunk says to a reader that expects the
/// audio-format code `format` and the bit depth `bits`.
///
/// The code stands in bytes 0 and 1, the channel count in 2 and 3, the
/// sample rate in 4 to 7 and the bit depth in 14 and 15. The code is judged
/// first. A payload too short to hold a field that is needed is a fault of
/// the same kind as a source that ended early.
pub open spec fn format_verdict(format: u16, bits: u16, payload: Seq<u8>) -> Result<
    StreamFormat,
    Fault,
> {
    if payload.len() < 2 {
        Err(Fault::Io)
    } else if le_u16(payload.subrange(0, 2)) != format {
        Err(Fault::UnsupportedAudioFormat(le_u16(payload.subrange(0, 2))))
    } else if payload.len() < 16 {
        Err(Fault::Io)
    } else if le_u16(payload.subrange(14, 16)) != bits {
        Err(Fault::UnsupportedBitsPerSample(le_u16(payload.subrange(14, 16))))
    } else {
        Ok(
            StreamFormat {
                channels: le_u16(payload.subrange(2, 4)),
                sample_rate: le_u32(payload.subrange(4, 8)),
            },
        )
    }
}

/// Validates the payload of a `fmt ` chunk against the expected encoding and
/// extracts the channel count and the sample rate. Byte rate and block align
/// (bytes 8 to 13) are not looked at.
pub fn parse_format(format: u16, bits: u16, payload: &[u8]) -> (r: Result<
    StreamFormat,
    StreamingWavError,
>)
    ensures
        match format_verdict(format, bits, payload@) {
            Ok(declared) => r == Ok::<StreamFormat, StreamingWavError>(declared),
            Err(fault) => r matches Err(e) && e@ == fault,
        },
{
    if payload.len() < 2 {
        return Err(truncated());
    }
    let audio_format = read_u16_le(payload, 0);
    if audio_format != format {
        return Err(StreamingWavError::UnsupportedAudioFormat(audio_format));
    }
    if payload.len() < 16 {
        return Err(truncated());
    }
    let channels = read_u16_le(payload, 2);
    let sample_rate = read_u32_le(payload, 4);
    let bits_per_sample = read_u16_le(payload, 14);
    if bits_per_sample != bits {
        return Err(StreamingWavError::UnsupportedBitsPerSample(bits_per_sample));
    }
    Ok(StreamFormat { channels, sample_rate })
}

/// Where a scan that succeeded has arrived.
pub struct Located {
    /// What the last `fmt ` chunk before `data` declared; zero in both
    /// fields when there was none.
    pub format: StreamFormat,
    /// The bytes after the `data` chunk's header: the first of them is the
    /// first byte of the first sample.
    pub samples: Seq<u8>,
}

/// The format of a stream whose `fmt ` chunk has not been seen.
pub open spec fn no_format() -> StreamFormat {
    StreamFormat { channels: 0, sample_rate: 0 }
}

/// Walks the chunks in `rest` up to the `data` chunk. `seen` is what the
/// chunks before `rest` declared.
pub open spec fn scan_chunks(format: u16, bits: u16, rest: Seq<u8>, seen: StreamFormat) -> Result<
    Located,
    Fault,
>
    decreases rest.len(),
{
    if rest.len() < CHUNK_HEADER_LEN {
        Err(Fault::Io)
    } else {
        let body = rest.skip(CHUNK_HEADER_LEN as int);
        match step_of(rest.take(CHUNK_HEADER_LEN as int)) {
            ChunkStep::Format(size) => {
                if body.len() < size {
                    Err(Fault::Io)
                } else {
                    match format_verdict(format, bits, body.take(size as int)) {
                        Ok(declared) => scan_chunks(format, bits, body.skip(size as int), declared),
                        Err(fault) => Err(fault),
                    }
                }
            },
            ChunkStep::Samples => Ok(Located { format: seen, samples: body }),
            ChunkStep::Skip(padded) => {
                if body.len() < padded {
                    Err(Fault::Io)
                } else {
                    scan_chunks(format, bits, body.skip(padded as int), seen)
                }
            },
        }
    }
}

/// What opening the container `bytes` comes to, for a reader that expects
/// the audio-format code `format` and the bit depth `bits`: the declared
/// format and the sample bytes, or the fault that ends the attempt.
pub open spec fn scan_container(format: u16, bits: u16, bytes: Seq<u8>) -> Result<Located, Fault> {
    match riff_verdict(bytes) {
        Ok(()) => scan_chunks(format, bits, bytes.skip(RIFF_HEADER_LEN as int), no_format()),
        Err(fault) => Err(fault),
    }
}

/// A container of at least twelve bytes that does not begin with `RIFF` is
/// refused for that, whatever follows and whatever encoding is expected.
pub proof fn lemma_missing_riff_marker(format: u16, bits: u16, bytes: Seq<u8>)
    requires
        bytes.len() >= RIFF_HEADER_LEN,
        bytes.take(4) != RIFF@,
    ensures
        scan_container(format, bits, bytes) == Err::<Located, Fault>(Fault::InvalidRiffFormat),
{
    assert(bytes.take(4) =~= tag_at(bytes, 0));
}

/// A container that begins with `RIFF` and four more bytes, and then with
/// anything but `WAVE`, is refused for that.
pub proof fn lemma_missing_wave_marker(format: u16, bits: u16, bytes: Seq<u8>)
    requires
        bytes.len() >= RIFF_HEADER_LEN,
        bytes.take(4) == RIFF@,
        bytes.subrange(8, 12) != WAVE@,
    ensures
        scan_container(format, bits, bytes) == Err::<Located, Fault>(Fault::InvalidWaveFormat),
{
    assert(bytes.take(4) =~= tag_at(bytes, 0));
}

/// Where the first chunk of a container is a `fmt ` chunk that is wholly
/// there and declares another audio-format code than the expected one, the
/// container is refused with the code it declares.
pub proof fn lemma_format_code_mismatch(format: u16, bits: u16, bytes: Seq<u8>)
    requires
        riff_verdict(bytes) is Ok,
        bytes.len() >= 22,
        tag_at(bytes, 12) == FMT@,
        le_u32(bytes.subrange(16, 20)) >= 2,
        bytes.len() >= 20 + le_u32(bytes.subrange(16, 20)),
        le_u16(bytes.subrange(20, 22)) != format,
    ensures
        scan_container(format, bits, bytes) == Err::<Located, Fault>(
            Fault::UnsupportedAudioFormat(le_u16(bytes.subrange(20, 22))),
        ),
{
    let rest = bytes.skip(RIFF_HEADER_LEN as int);
    let header = rest.take(CHUNK_HEADER_LEN as int);
    let size = le_u32(bytes.subrange(16, 20));
    let payload = rest.skip(CHUNK_HEADER_LEN as int).take(size as int);
    assert(tag_at(header, 0) =~= tag_at(bytes, 12));
    assert(header.subrange(4, 8) =~= bytes.subrange(16, 20));
    assert(payload.subrange(0, 2) =~= bytes.subrange(20, 22));
}

/// Where the first chunk of a container is a `fmt ` chunk that is wholly
/// there and declares the expected audio-format code but another bit depth
/// than the expected one, the container is refused with the depth it
/// declares.
pub proof fn lemma_bit_depth_mismatch(format: u16, bits: u16, bytes: Seq<u8>)
    requires
        riff_verdict(bytes) is Ok,
        bytes.len() >= 36,
        tag_at(bytes, 12) == FMT@,
        le_u32(bytes.subrange(16, 20)) >= 16,
        bytes.len() >= 20 + le_u32(bytes.subrange(16, 20)),
        le_u16(bytes.subrange(20, 22)) == format,
        le_u16(bytes.subrange(34, 36)) != bits,
    ensures
        scan_container(format, bits, bytes) == Err::<Located, Fault>(
            Fault::UnsupportedBitsPerSample(le_u16(bytes.subrange(34, 36))),
        ),
{
    let rest = bytes.skip(RIFF_HEADER_LEN as int);
    let header = rest.take(CHUNK_HEADER_LEN as int);
    let size = le_u32(bytes.subrange(16, 20));
    let payload = rest.skip(CHUNK_HEADER_LEN as int).take(size as int);
    assert(tag_at(header, 0) =~= tag_at(bytes, 12));
    assert(header.subrange(4, 8) =~= bytes.subrange(16, 20));
    assert(payload.subrange(0, 2) =~= bytes.subrange(20, 22));
    assert(payload.subrange(14, 16) =~= bytes.subrange(34, 36));
}

/// One chunk as it stands in a file: the tag, the four bytes of the size,
/// the payload, and the padding that follows it.
pub open spec fn chunk_bytes(tag: Seq<u8>, size: Seq<u8>, payload: Seq<u8>, padding: Seq<u8>) -> Seq<
    u8,
> {
    tag + size + payload + padding
}

/// A chunk that is neither `fmt ` nor `data` is passed over together with
/// its padding, which is one byte after a payload of odd size and none
/// after one of even size: the chunks behind it are scanned as if it were
/// not there.
pub proof fn lemma_unknown_chunk_is_skipped(
    format: u16,
    bits: u16,
    tag: Seq<u8>,
    size: Seq<u8>,
    payload: Seq<u8>,
    padding: Seq<u8>,
    rest: Seq<u8>,
    seen: StreamFormat,
)
    requires
        tag.len() == 4,
        tag != FMT@,
        tag != DATA@,
        size.len() == 4,
        le_u32(size) == payload.len(),
        padding.len() == payload.len() % 2,
    ensures
        scan_chunks(format, bits, chunk_bytes(tag, size, payload, padding) + rest, seen)
            == scan_chunks(format, bits, rest, seen),
{
    let whole = chunk_bytes(tag, size, payload, padding) + rest;
    let header = whole.take(CHUNK_HEADER_LEN as int);
    let body = whole.skip(CHUNK_HEADER_LEN as int);
    let padded = payload.len() + payload.len() % 2;
    assert(tag_at(header, 0) =~= tag);
    assert(header.subrange(4, 8) =~= size);
    assert(step_of(header) == ChunkStep::Skip(padded as u64));
    assert(body.skip(padded as int) =~= rest);
}

/// An unknown chunk between the RIFF header and the other chunks changes
/// nothing in what opening the container comes to.
pub proof fn lemma_container_ignores_unknown_chunk(
    format: u16,
    bits: u16,
    riff_header: Seq<u8>,
    tag: Seq<u8>,
    size: Seq<u8>,
    payload: Seq<u8>,
    padding: Seq<u8>,
    rest: Seq<u8>,
)
    requires
        riff_header.len() == RIFF_HEADER_LEN,
        tag.len() == 4,
        tag != FMT@,
        tag != DATA@,
        size.len() == 4,
        le_u32(size) == payload.len(),
        padding.len() == payload.len() % 2,
    ensures
        scan_container(
            format,
            bits,
            riff_header + chunk_bytes(tag, size, payload, padding) + rest,
        ) == scan_container(format, bits, riff_header + rest),
{
    let chunk = chunk_bytes(tag, size, payload, padding);
    let with = riff_header + chunk + rest;
    let without = riff_header + rest;
    assert(tag_at(with, 0) =~= tag_at(without, 0));
    assert(tag_at(with, 8) =~= tag_at(without, 8));
    assert(with.skip(RIFF_HEADER_LEN as int) =~= chunk + rest);
    assert(without.skip(RIFF_HEADER_LEN as int) =~= rest);
    lemma_unknown_chunk_is_skipped(format, bits, tag, size, payload, padding, rest, no_format());
}

/// The sample bytes that a scan of chunks arrives at are what stands in
/// `rest` behind some chunk header: a scan consumes whole bytes off the
/// front and nothing else.
pub proof fn lemma_chunk_scan_yields_a_suffix(
    format: u16,
    bits: u16,
    rest: Seq<u8>,
    seen: StreamFormat,
) -> (start: int)
    requires
        scan_chunks(format, bits, rest, seen) is Ok,
    ensures
        CHUNK_HEADER_LEN <= start <= rest.len(),
        scan_chunks(format, bits, rest, seen)->Ok_0.samples == rest.skip(start),
    decreases rest.len(),
{
    let body = rest.skip(CHUNK_HEADER_LEN as int);
    match step_of(rest.take(CHUNK_HEADER_LEN as int)) {
        ChunkStep::Format(size) => {
            let declared = format_verdict(format, bits, body.take(size as int))->Ok_0;
            let inner = lemma_chunk_scan_yields_a_suffix(
                format,
                bits,
                body.skip(size as int),
                declared,
            );
            let start = CHUNK_HEADER_LEN + size + inner;
            assert(body.skip(size as int).skip(inner) =~= rest.skip(start));
            start
        },
        ChunkStep::Samples => CHUNK_HEADER_LEN as int,
        ChunkStep::Skip(padded) => {
            let inner = lemma_chunk_scan_yields_a_suffix(
                format,
                bits,
                body.skip(padded as int),
                seen,
            );
            let start = CHUNK_HEADER_LEN + padded + inner;
            assert(body.skip(padded as int).skip(inner) =~= rest.skip(start));
            start
        },
    }
}

/// The sample bytes of a container that opens are a suffix of the
/// container, and start behind the RIFF header and at least one chunk
/// header.
pub proof fn lemma_samples_are_a_suffix(format: u16, bits: u16, bytes: Seq<u8>) -> (start: int)
    requires
        scan_container(format, bits, bytes) is Ok,
    ensures
        RIFF_HEADER_LEN + CHUNK_HEADER_LEN <= start <= bytes.len(),
        scan_container(format, bits, bytes)->Ok_0.samples == bytes.skip(start),
{
    let rest = bytes.skip(RIFF_HEADER_LEN as int);
    let inner = lemma_chunk_scan_yields_a_suffix(format, bits, rest, no_format());
    let start = RIFF_HEADER_LEN + inner;
    assert(rest.skip(inner) =~= bytes.skip(start));
    start
}

} // verus!

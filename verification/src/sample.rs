//! The sample encodings that a stream can be decoded as.

use vstd::prelude::*;
use crate::source::ByteSource;
use crate::wire::{le_u16, le_u32, read_u16_le, read_u32_le};

verus! {

/// One sample encoding: the RIFF audio-format code and the bit depth that a
/// `fmt ` chunk must declare for it, and how one raw sample is decoded.
///
/// The encoding is chosen by type, before any byte is read.
pub trait WavSample {
    /// What one decoded sample is.
    type Sample;

    /// RIFF audio-format code: 1 for integer PCM, 3 for IEEE floating
    /// point.
    spec fn format_code() -> u16;

    /// Bits per sample.
    spec fn bits_per_sample() -> u16;

    /// A sample takes at least one byte.
    proof fn lemma_at_least_one_byte()
        ensures
            Self::bits_per_sample() >= 8,
    ;

    /// The sample that the raw bytes of one sample stand for.
    spec fn decode(raw: Seq<u8>) -> Self::Sample
        recommends
            raw.len() == Self::bits_per_sample() / 8,
    ;

    /// The audio-format code that a `fmt ` chunk must declare.
    fn format() -> (code: u16)
        ensures
            code == Self::format_code(),
    ;

    /// The bit depth that a `fmt ` chunk must declare.
    fn bits() -> (bits: u16)
        ensures
            bits == Self::bits_per_sample(),
    ;

    /// How many bytes of the source make one sample: an eighth of the bits.
    fn bytes() -> (width: usize)
        ensures
            width == Self::bits_per_sample() / 8,
    {
        (Self::bits() / 8) as usize
    }

    /// Decodes one sample from its raw bytes; `None` unless `raw` is
    /// exactly one sample long.
    fn from_bytes(raw: &[u8]) -> (r: Option<Self::Sample>)
        ensures
            r == (if raw@.len() == Self::bits_per_sample() / 8 {
                Some(Self::decode(raw@))
            } else {
                None
            }),
    ;

    /// Reads and decodes the next sample of `reader`. When fewer bytes than
    /// one sample are left, whether the source is exhausted or has failed,
    /// the result is `None`: a truncated last sample is dropped, never
    /// reported.
    fn next<R: ByteSource>(reader: &mut R) -> (r: Option<Self::Sample>)
        ensures
            r == (if old(reader).remaining().len() >= Self::bits_per_sample() / 8 {
                Some(Self::decode(old(reader).remaining().take(Self::bits_per_sample() as int / 8)))
            } else {
                None
            }),
            final(reader).remaining() == (if old(reader).remaining().len()
                >= Self::bits_per_sample() / 8 {
                old(reader).remaining().skip(Self::bits_per_sample() as int / 8)
            } else {
                Seq::empty()
            }),
    ;
}

/// Bytes per sample of the encoding `S`.
pub open spec fn bytes_per_sample<S: WavSample + ?Sized>() -> nat {
    (S::bits_per_sample() / 8) as nat
}

/// The sample at the front of `remaining`, if a whole one is there.
pub open spec fn next_sample<S: WavSample + ?Sized>(remaining: Seq<u8>) -> Option<S::Sample> {
    if remaining.len() >= bytes_per_sample::<S>() {
        Some(S::decode(remaining.take(bytes_per_sample::<S>() as int)))
    } else {
        None
    }
}

/// What is left of `remaining` once the sample at its front has been asked
/// for: the bytes behind it, or nothing when no whole sample was there.
pub open spec fn after_sample<S: WavSample + ?Sized>(remaining: Seq<u8>) -> Seq<u8> {
    if remaining.len() >= bytes_per_sample::<S>() {
        remaining.skip(bytes_per_sample::<S>() as int)
    } else {
        Seq::empty()
    }
}

/// The value of an unsigned 8-bit PCM sample on the signed 16-bit scale:
/// the midpoint 128 becomes 0, and one step becomes 256.
pub open spec fn widen_u8(byte: u8) -> i16 {
    ((byte as int - 128) * 256) as i16
}

/// The signed 16-bit value with the bit pattern `bits`.
pub open spec fn signed_16(bits: u16) -> i16 {
    if bits < 0x8000 {
        bits as i16
    } else {
        (bits as int - 0x1_0000) as i16
    }
}

/// Unsigned 8-bit PCM, widened to the full signed 16-bit range.
impl WavSample for u8 {
    type Sample = i16;

    open spec fn format_code() -> u16 {
        1
    }

    open spec fn bits_per_sample() -> u16 {
        8
    }

    proof fn lemma_at_least_one_byte() {
    }

    fn format() -> (code: u16) {
        1
    }

    fn bits() -> (bits: u16) {
        8
    }

    open spec fn decode(raw: Seq<u8>) -> i16 {
        widen_u8(raw[0])
    }

    fn from_bytes(raw: &[u8]) -> (r: Option<i16>) {
        if raw.len() != 1 {
            return None;
        }
        Some((raw[0] as i16 - 128) * 256)
    }

    fn next<R: ByteSource>(reader: &mut R) -> (r: Option<i16>) {
        match reader.read_exact(1) {
            Ok(raw) => Self::from_bytes(raw.as_slice()),
            Err(_) => None,
        }
    }
}

/// Signed 16-bit PCM, little-endian.
impl WavSample for i16 {
    type Sample = i16;

    open spec fn format_code() -> u16 {
        1
    }

    open spec fn bits_per_sample() -> u16 {
        16
    }

    proof fn lemma_at_least_one_byte() {
    }

    fn format() -> (code: u16) {
        1
    }

    fn bits() -> (bits: u16) {
        16
    }

    open spec fn decode(raw: Seq<u8>) -> i16 {
        signed_16(le_u16(raw))
    }

    fn from_bytes(raw: &[u8]) -> (r: Option<i16>) {
        if raw.len() != 2 {
            return None;
        }
        assert(raw@.subrange(0, 2) =~= raw@);
        let bits = read_u16_le(raw, 0);
        if bits < 0x8000 {
            Some(bits as i16)
        } else {
            Some((bits as i32 - 0x1_0000) as i16)
        }
    }

    fn next<R: ByteSource>(reader: &mut R) -> (r: Option<i16>) {
        match reader.read_exact(2) {
            Ok(raw) => Self::from_bytes(raw.as_slice()),
            Err(_) => None,
        }
    }
}

/// 32-bit IEEE-754 floating point, little-endian. A decoded sample is the
/// bit pattern of the single-precision number, unchanged.
pub struct Float32;

impl WavSample for Float32 {
    type Sample = u32;

    open spec fn format_code() -> u16 {
        3
    }

    open spec fn bits_per_sample() -> u16 {
        32
    }

    proof fn lemma_at_least_one_byte() {
    }

    fn format() -> (code: u16) {
        3
    }

    fn bits() -> (bits: u16) {
        32
    }

    open spec fn decode(raw: Seq<u8>) -> u32 {
        le_u32(raw)
    }

    fn from_bytes(raw: &[u8]) -> (r: Option<u32>) {
        if raw.len() != 4 {
            return None;
        }
        assert(raw@.subrange(0, 4) =~= raw@);
        Some(read_u32_le(raw, 0))
    }

    fn next<R: ByteSource>(reader: &mut R) -> (r: Option<u32>) {
        match reader.read_exact(4) {
            Ok(raw) => Self::from_bytes(raw.as_slice()),
            Err(_) => None,
        }
    }
}

/// A source that ends in the middle of a sample ends the sequence: the
/// bytes of the broken sample give no sample, and nothing is left behind
/// them.
pub proof fn lemma_truncated_sample_ends_the_sequence<S: WavSample>(remaining: Seq<u8>)
    requires
        remaining.len() < bytes_per_sample::<S>(),
    ensures
        next_sample::<S>(remaining) is None,
        after_sample::<S>(remaining) == Seq::<u8>::empty(),
{
}

/// Once the sequence has ended it stays ended: after a request that gave no
/// sample, the next one gives none either, and leaves the source as it was.
pub proof fn lemma_exhaustion_is_permanent<S: WavSample>(remaining: Seq<u8>)
    requires
        next_sample::<S>(remaining) is None,
    ensures
        next_sample::<S>(after_sample::<S>(remaining)) is None,
        after_sample::<S>(after_sample::<S>(remaining)) == after_sample::<S>(remaining),
{
    S::lemma_at_least_one_byte();
}

/// Every sample that comes out takes exactly its width in bytes off the front of
/// the source.
pub proof fn lemma_sample_takes_its_width<S: WavSample>(remaining: Seq<u8>)
    requires
        next_sample::<S>(remaining) is Some,
    ensures
        after_sample::<S>(remaining).len() + bytes_per_sample::<S>() == remaining.len(),
{
}

} // verus!

use wav_stream::{Float32, MemorySource, StreamingWav, StreamingWavError};

fn chunk(tag: &[u8; 4], payload: &[u8]) -> Vec<u8> {
    let mut bytes = tag.to_vec();
    bytes.extend_from_slice(&(payload.len() as u32).to_le_bytes());
    bytes.extend_from_slice(payload);
    bytes
}

fn fmt_payload(format: u16, channels: u16, rate: u32, bits: u16) -> Vec<u8> {
    let block_align = channels * (bits / 8);
    let mut payload = Vec::new();
    payload.extend_from_slice(&format.to_le_bytes());
    payload.extend_from_slice(&channels.to_le_bytes());
    payload.extend_from_slice(&rate.to_le_bytes());
    payload.extend_from_slice(&(rate * block_align as u32).to_le_bytes());
    payload.extend_from_slice(&block_align.to_le_bytes());
    payload.extend_from_slice(&bits.to_le_bytes());
    payload
}

fn riff_header() -> Vec<u8> {
    let mut bytes = b"RIFF".to_vec();
    bytes.extend_from_slice(&[0x24, 0, 0, 0]);
    bytes.extend_from_slice(b"WAVE");
    bytes
}

fn container(chunks: &[Vec<u8>]) -> Vec<u8> {
    let mut bytes = riff_header();
    for c in chunks {
        bytes.extend_from_slice(c);
    }
    bytes
}

fn pcm16_mono(samples: &[u8]) -> Vec<u8> {
    container(&[chunk(b"fmt ", &fmt_payload(1, 1, 44100, 16)), chunk(b"data", samples)])
}

fn open_i16(bytes: Vec<u8>) -> Result<StreamingWav<i16, MemorySource>, StreamingWavError> {
    StreamingWav::new(MemorySource::new(bytes))
}

fn open_u8(bytes: Vec<u8>) -> Result<StreamingWav<u8, MemorySource>, StreamingWavError> {
    StreamingWav::new(MemorySource::new(bytes))
}

fn open_float(bytes: Vec<u8>) -> Result<StreamingWav<Float32, MemorySource>, StreamingWavError> {
    StreamingWav::new(MemorySource::new(bytes))
}

fn drain_i16(wav: &mut StreamingWav<i16, MemorySource>) -> Vec<i16> {
    let mut out = Vec::new();
    while let Some(sample) = wav.next() {
        out.push(sample);
    }
    out
}

fn is_eof(r: Result<StreamingWav<i16, MemorySource>, StreamingWavError>) -> bool {
    match r {
        Err(StreamingWavError::Io(cause)) => cause.kind() == std::io::ErrorKind::UnexpectedEof,
        _ => false,
    }
}

#[test]
fn minimal_pcm16_mono_yields_its_three_samples() {
    let mut wav = open_i16(pcm16_mono(&[0x00, 0x00, 0xFF, 0x7F, 0x00, 0x80])).unwrap();
    assert_eq!(wav.channels(), 1);
    assert_eq!(wav.sample_rate(), 44100);
    assert_eq!(wav.next(), Some(0));
    assert_eq!(wav.next(), Some(32767));
    assert_eq!(wav.next(), Some(-32768));
    assert_eq!(wav.next(), None);
}

#[test]
fn stereo_metadata_is_taken_from_the_format_chunk() {
    let bytes = container(&[chunk(b"fmt ", &fmt_payload(1, 2, 48000, 16)), chunk(b"data", &[])]);
    let wav = open_i16(bytes).unwrap();
    assert_eq!(wav.channels(), 2);
    assert_eq!(wav.sample_rate(), 48000);
}

#[test]
fn duration_and_frame_length_are_unknown() {
    let wav = open_i16(pcm16_mono(&[1, 0, 2, 0])).unwrap();
    assert_eq!(wav.current_frame_len(), None);
    assert_eq!(wav.total_duration(), None);
}

#[test]
fn missing_riff_marker_is_refused() {
    let mut bytes = pcm16_mono(&[0, 0]);
    bytes[3] = b'X';
    assert!(matches!(open_i16(bytes), Err(StreamingWavError::InvalidRiffFormat)));
}

#[test]
fn missing_riff_marker_is_refused_whatever_follows() {
    let bytes = b"JUNKJUNKJUNKJUNK".to_vec();
    assert!(matches!(open_i16(bytes), Err(StreamingWavError::InvalidRiffFormat)));
    let bytes = vec![0u8; 12];
    assert!(matches!(open_u8(bytes), Err(StreamingWavError::InvalidRiffFormat)));
}

#[test]
fn riff_marker_is_judged_before_wave_marker() {
    let bytes = b"RIFXxxxxWAVX".to_vec();
    assert!(matches!(open_i16(bytes), Err(StreamingWavError::InvalidRiffFormat)));
}

#[test]
fn missing_wave_marker_is_refused() {
    let mut bytes = b"RIFF".to_vec();
    bytes.extend_from_slice(&[1, 2, 3, 4]);
    bytes.extend_from_slice(b"WAVX");
    assert!(matches!(open_i16(bytes), Err(StreamingWavError::InvalidWaveFormat)));
    let mut bytes = pcm16_mono(&[0, 0]);
    bytes[8] = b'w';
    assert!(matches!(open_i16(bytes), Err(StreamingWavError::InvalidWaveFormat)));
}

#[test]
fn declared_riff_size_is_not_validated() {
    let mut bytes = pcm16_mono(&[5, 0]);
    bytes[4..8].copy_from_slice(&[0xFF, 0xFF, 0xFF, 0xFF]);
    let mut wav = open_i16(bytes).unwrap();
    assert_eq!(wav.next(), Some(5));
    let mut bytes = pcm16_mono(&[5, 0]);
    bytes[4..8].copy_from_slice(&[0, 0, 0, 0]);
    let mut wav = open_i16(bytes).unwrap();
    assert_eq!(wav.next(), Some(5));
}

#[test]
fn pcm_code_against_float_encoding_is_refused_with_the_code() {
    let bytes = container(&[chunk(b"fmt ", &fmt_payload(1, 1, 44100, 32)), chunk(b"data", &[])]);
    assert!(matches!(open_float(bytes), Err(StreamingWavError::UnsupportedAudioFormat(1))));
}

#[test]
fn float_code_against_pcm_encoding_is_refused_with_the_code() {
    let bytes = container(&[chunk(b"fmt ", &fmt_payload(3, 1, 44100, 16)), chunk(b"data", &[])]);
    assert!(matches!(open_i16(bytes), Err(StreamingWavError::UnsupportedAudioFormat(3))));
}

#[test]
fn unknown_format_code_is_reported_as_declared() {
    let bytes = container(&[chunk(b"fmt ", &fmt_payload(0xFFFE, 1, 44100, 16))]);
    assert!(matches!(open_i16(bytes), Err(StreamingWavError::UnsupportedAudioFormat(0xFFFE))));
}

#[test]
fn bit_depth_24_against_16_bit_encoding_is_refused_with_the_depth() {
    let bytes = container(&[chunk(b"fmt ", &fmt_payload(1, 1, 44100, 24)), chunk(b"data", &[])]);
    assert!(matches!(open_i16(bytes), Err(StreamingWavError::UnsupportedBitsPerSample(24))));
}

#[test]
fn bit_depth_16_against_8_bit_encoding_is_refused_with_the_depth() {
    let bytes = container(&[chunk(b"fmt ", &fmt_payload(1, 1, 8000, 16)), chunk(b"data", &[])]);
    assert!(matches!(open_u8(bytes), Err(StreamingWavError::UnsupportedBitsPerSample(16))));
}

#[test]
fn format_code_is_judged_before_bit_depth() {
    let bytes = container(&[chunk(b"fmt ", &fmt_payload(3, 1, 44100, 24)), chunk(b"data", &[])]);
    assert!(matches!(open_i16(bytes), Err(StreamingWavError::UnsupportedAudioFormat(3))));
}

#[test]
fn odd_sized_unknown_chunk_is_skipped_with_its_padding_byte() {
    let samples = [0x00, 0x00, 0xFF, 0x7F, 0x00, 0x80];
    let mut junk = chunk(b"JUNK", &[0xAA, 0xBB, 0xCC]);
    junk.push(0);
    let with = container(&[
        junk,
        chunk(b"fmt ", &fmt_payload(1, 1, 44100, 16)),
        chunk(b"data", &samples),
    ]);
    let mut with = open_i16(with).unwrap();
    let mut without = open_i16(pcm16_mono(&samples)).unwrap();
    assert_eq!(with.channels(), without.channels());
    assert_eq!(with.sample_rate(), without.sample_rate());
    assert_eq!(drain_i16(&mut with), vec![0, 32767, -32768]);
    assert_eq!(drain_i16(&mut without), vec![0, 32767, -32768]);
}

#[test]
fn odd_sized_unknown_chunk_without_padding_misaligns_the_scan() {
    let junk = chunk(b"JUNK", &[0xAA, 0xBB, 0xCC]);
    let bytes = container(&[
        junk,
        chunk(b"fmt ", &fmt_payload(1, 1, 44100, 16)),
        chunk(b"data", &[1, 0]),
    ]);
    assert!(open_i16(bytes).is_err());
}

#[test]
fn even_sized_unknown_chunk_is_skipped_without_padding() {
    let bytes = container(&[
        chunk(b"fmt ", &fmt_payload(1, 2, 22050, 16)),
        chunk(b"LIST", &[1, 2, 3, 4]),
        chunk(b"data", &[7, 0, 9, 0]),
    ]);
    let mut wav = open_i16(bytes).unwrap();
    assert_eq!(wav.channels(), 2);
    assert_eq!(wav.sample_rate(), 22050);
    assert_eq!(drain_i16(&mut wav), vec![7, 9]);
}

#[test]
fn empty_unknown_chunk_is_skipped() {
    let bytes = container(&[
        chunk(b"fact", &[]),
        chunk(b"fmt ", &fmt_payload(1, 1, 8000, 16)),
        chunk(b"data", &[3, 0]),
    ]);
    let mut wav = open_i16(bytes).unwrap();
    assert_eq!(drain_i16(&mut wav), vec![3]);
}

#[test]
fn several_unknown_chunks_are_skipped() {
    let mut odd = chunk(b"odd ", &[1]);
    odd.push(0xEE);
    let bytes = container(&[
        odd.clone(),
        chunk(b"even", &[1, 2]),
        chunk(b"fmt ", &fmt_payload(1, 1, 8000, 16)),
        odd,
        chunk(b"data", &[0x34, 0x12]),
    ]);
    let mut wav = open_i16(bytes).unwrap();
    assert_eq!(wav.sample_rate(), 8000);
    assert_eq!(drain_i16(&mut wav), vec![0x1234]);
}

#[test]
fn tags_are_matched_exactly() {
    let bytes = container(&[
        chunk(b"FMT ", &[9, 9]),
        chunk(b"Data", &[9, 9]),
        chunk(b"fmt ", &fmt_payload(1, 1, 8000, 16)),
        chunk(b"data", &[1, 0]),
    ]);
    let mut wav = open_i16(bytes).unwrap();
    assert_eq!(wav.sample_rate(), 8000);
    assert_eq!(drain_i16(&mut wav), vec![1]);
}

#[test]
fn data_before_format_leaves_rate_and_channels_zero() {
    let bytes = container(&[chunk(b"data", &[1, 0, 2, 0])]);
    let mut wav = open_i16(bytes).unwrap();
    assert_eq!(wav.channels(), 0);
    assert_eq!(wav.sample_rate(), 0);
    assert_eq!(drain_i16(&mut wav), vec![1, 2]);
}

#[test]
fn later_format_chunk_replaces_the_earlier_one() {
    let bytes = container(&[
        chunk(b"fmt ", &fmt_payload(1, 1, 8000, 16)),
        chunk(b"fmt ", &fmt_payload(1, 2, 96000, 16)),
        chunk(b"data", &[]),
    ]);
    let wav = open_i16(bytes).unwrap();
    assert_eq!(wav.channels(), 2);
    assert_eq!(wav.sample_rate(), 96000);
}

#[test]
fn format_chunk_with_extension_bytes_is_accepted() {
    let mut payload = fmt_payload(1, 1, 11025, 16);
    payload.extend_from_slice(&[0, 0]);
    let bytes = container(&[chunk(b"fmt ", &payload), chunk(b"data", &[2, 0])]);
    let mut wav = open_i16(bytes).unwrap();
    assert_eq!(wav.sample_rate(), 11025);
    assert_eq!(drain_i16(&mut wav), vec![2]);
}

#[test]
fn odd_sized_format_chunk_is_not_padded() {
    let mut payload = fmt_payload(1, 1, 11025, 16);
    payload.push(0);
    let bytes = container(&[chunk(b"fmt ", &payload), chunk(b"data", &[2, 0])]);
    let mut wav = open_i16(bytes).unwrap();
    assert_eq!(drain_i16(&mut wav), vec![2]);
}

#[test]
fn byte_rate_and_block_align_are_not_validated() {
    let mut payload = fmt_payload(1, 1, 44100, 16);
    for b in &mut payload[8..14] {
        *b = 0xFF;
    }
    let bytes = container(&[chunk(b"fmt ", &payload), chunk(b"data", &[])]);
    let wav = open_i16(bytes).unwrap();
    assert_eq!(wav.channels(), 1);
    assert_eq!(wav.sample_rate(), 44100);
}

#[test]
fn empty_source_is_an_io_fault() {
    assert!(is_eof(open_i16(Vec::new())));
}

#[test]
fn short_riff_header_is_an_io_fault_even_without_the_marker() {
    assert!(is_eof(open_i16(b"RIFF".to_vec())));
    assert!(is_eof(open_i16(b"RIFX".to_vec())));
    assert!(is_eof(open_i16(b"RIFFxxxxWAV".to_vec())));
}

#[test]
fn header_without_chunks_is_an_io_fault() {
    assert!(is_eof(open_i16(riff_header())));
}

#[test]
fn cut_chunk_header_is_an_io_fault() {
    let mut bytes = riff_header();
    bytes.extend_from_slice(b"fmt \x10\x00");
    assert!(is_eof(open_i16(bytes)));
}

#[test]
fn cut_format_payload_is_an_io_fault() {
    let mut bytes = container(&[chunk(b"fmt ", &fmt_payload(1, 1, 44100, 16))]);
    bytes.truncate(12 + 8 + 10);
    assert!(is_eof(open_i16(bytes)));
}

#[test]
fn source_without_data_chunk_is_an_io_fault() {
    let bytes = container(&[chunk(b"fmt ", &fmt_payload(1, 1, 44100, 16)), chunk(b"LIST", &[1, 2])]);
    assert!(is_eof(open_i16(bytes)));
}

#[test]
fn unknown_chunk_larger_than_the_source_is_an_io_fault() {
    let mut bytes = riff_header();
    bytes.extend_from_slice(b"JUNK");
    bytes.extend_from_slice(&[0xFF, 0xFF, 0xFF, 0xFF]);
    bytes.extend_from_slice(&[1, 2, 3]);
    assert!(is_eof(open_i16(bytes)));
}

#[test]
fn format_chunk_too_short_for_its_fields_is_an_io_fault() {
    let payload = fmt_payload(1, 1, 44100, 16);
    let bytes = container(&[chunk(b"fmt ", &payload[..14]), chunk(b"data", &[])]);
    assert!(is_eof(open_i16(bytes)));
    let bytes = container(&[chunk(b"fmt ", &payload[..1]), chunk(b"data", &[])]);
    assert!(is_eof(open_i16(bytes)));
    let bytes = container(&[chunk(b"fmt ", &[]), chunk(b"data", &[])]);
    assert!(is_eof(open_i16(bytes)));
}

#[test]
fn short_format_chunk_with_wrong_code_reports_the_code() {
    let payload = fmt_payload(3, 1, 44100, 16);
    let bytes = container(&[chunk(b"fmt ", &payload[..2]), chunk(b"data", &[])]);
    assert!(matches!(open_i16(bytes), Err(StreamingWavError::UnsupportedAudioFormat(3))));
}

#[test]
fn eight_bit_midpoint_maps_to_zero() {
    let bytes = container(&[chunk(b"fmt ", &fmt_payload(1, 1, 8000, 8)), chunk(b"data", &[0x80])]);
    let mut wav = open_u8(bytes).unwrap();
    assert_eq!(wav.next(), Some(0));
    assert_eq!(wav.next(), None);
}

#[test]
fn eight_bit_samples_span_the_sixteen_bit_range() {
    let bytes = container(&[
        chunk(b"fmt ", &fmt_payload(1, 1, 8000, 8)),
        chunk(b"data", &[0, 1, 127, 129, 255]),
    ]);
    let mut wav = open_u8(bytes).unwrap();
    assert_eq!(wav.next(), Some(-32768));
    assert_eq!(wav.next(), Some(-32512));
    assert_eq!(wav.next(), Some(-256));
    assert_eq!(wav.next(), Some(256));
    assert_eq!(wav.next(), Some(32512));
    assert_eq!(wav.next(), None);
}

#[test]
fn float_samples_keep_their_bit_pattern() {
    let mut samples = Vec::new();
    samples.extend_from_slice(&1.0f32.to_le_bytes());
    samples.extend_from_slice(&(-0.5f32).to_le_bytes());
    samples.extend_from_slice(&[0x78, 0x56, 0x34, 0x12]);
    let bytes = container(&[chunk(b"fmt ", &fmt_payload(3, 2, 48000, 32)), chunk(b"data", &samples)]);
    let mut wav = open_float(bytes).unwrap();
    assert_eq!(wav.channels(), 2);
    assert_eq!(wav.sample_rate(), 48000);
    assert_eq!(wav.next(), Some(0x3F80_0000));
    assert_eq!(wav.next().map(f32::from_bits), Some(-0.5f32));
    assert_eq!(wav.next(), Some(0x1234_5678));
    assert_eq!(wav.next(), None);
}

#[test]
fn trailing_byte_of_a_broken_sample_ends_the_sequence_silently() {
    let mut wav = open_i16(pcm16_mono(&[0x01, 0x00, 0x7F])).unwrap();
    assert_eq!(wav.next(), Some(1));
    assert_eq!(wav.next(), None);
}

#[test]
fn broken_float_sample_ends_the_sequence_silently() {
    let bytes = container(&[
        chunk(b"fmt ", &fmt_payload(3, 1, 48000, 32)),
        chunk(b"data", &[0, 0, 0x80, 0x3F, 1, 2, 3]),
    ]);
    let mut wav = open_float(bytes).unwrap();
    assert_eq!(wav.next(), Some(0x3F80_0000));
    assert_eq!(wav.next(), None);
    assert_eq!(wav.next(), None);
}

#[test]
fn exhaustion_is_permanent() {
    let mut wav = open_i16(pcm16_mono(&[0x01, 0x00, 0x02, 0x00, 0x03])).unwrap();
    assert_eq!(wav.next(), Some(1));
    assert_eq!(wav.next(), Some(2));
    for _ in 0..10 {
        assert_eq!(wav.next(), None);
    }
}

#[test]
fn empty_data_chunk_yields_no_sample() {
    let mut wav = open_i16(pcm16_mono(&[])).unwrap();
    assert_eq!(wav.next(), None);
    assert_eq!(wav.next(), None);
}

#[test]
fn decoding_goes_on_past_the_declared_data_size() {
    let mut bytes = pcm16_mono(&[1, 0]);
    bytes.extend_from_slice(&[2, 0, 3, 0]);
    let mut wav = open_i16(bytes).unwrap();
    assert_eq!(drain_i16(&mut wav), vec![1, 2, 3]);
}

#[test]
fn declared_data_size_is_not_validated() {
    let mut bytes = container(&[chunk(b"fmt ", &fmt_payload(1, 1, 44100, 16))]);
    bytes.extend_from_slice(b"data");
    bytes.extend_from_slice(&[0xFF, 0xFF, 0xFF, 0xFF]);
    bytes.extend_from_slice(&[4, 0]);
    let mut wav = open_i16(bytes).unwrap();
    assert_eq!(drain_i16(&mut wav), vec![4]);
}

#[test]
fn chunks_after_data_are_read_as_samples() {
    let bytes = container(&[
        chunk(b"fmt ", &fmt_payload(1, 1, 44100, 16)),
        chunk(b"data", &[1, 0]),
        chunk(b"LIST", &[]),
    ]);
    let mut wav = open_i16(bytes).unwrap();
    assert_eq!(
        drain_i16(&mut wav),
        vec![1, i16::from_le_bytes(*b"LI"), i16::from_le_bytes(*b"ST"), 0, 0]
    );
}

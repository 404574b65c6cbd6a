use aiff_wav::aiff::{parse_aiff, ConvertError};
use aiff_wav::float80::read_float80_u32;
use aiff_wav::transcode::{swap_window_24, transcode_samples, BitDepth};
use aiff_wav::aiff_to_wav;
use aiff_wav::wav::build_header;
use aiff_wav::aiff::CommChunk;

const RATE_8000: [u8; 10] = [0x40, 0x0B, 0xFA, 0, 0, 0, 0, 0, 0, 0];
const RATE_44100: [u8; 10] = [0x40, 0x0E, 0xAC, 0x44, 0, 0, 0, 0, 0, 0];

fn chunk(id: &[u8; 4], body: &[u8]) -> Vec<u8> {
    let mut c = id.to_vec();
    c.extend_from_slice(&(body.len() as u32).to_be_bytes());
    c.extend_from_slice(body);
    c
}

fn comm_body(channels: u16, frames: u32, bits: u16, rate: [u8; 10]) -> Vec<u8> {
    let mut b = channels.to_be_bytes().to_vec();
    b.extend_from_slice(&frames.to_be_bytes());
    b.extend_from_slice(&bits.to_be_bytes());
    b.extend_from_slice(&rate);
    b
}

fn ssnd_body(samples: &[u8]) -> Vec<u8> {
    let mut b = vec![0u8; 8];
    b.extend_from_slice(samples);
    b
}

fn form(chunks: &[Vec<u8>]) -> Vec<u8> {
    let body: Vec<u8> = chunks.concat();
    let mut f = b"FORM".to_vec();
    f.extend_from_slice(&(body.len() as u32 + 4).to_be_bytes());
    f.extend_from_slice(b"AIFF");
    f.extend_from_slice(&body);
    f
}

fn aiff(channels: u16, frames: u32, bits: u16, rate: [u8; 10], samples: &[u8]) -> Vec<u8> {
    form(&[
        chunk(b"COMM", &comm_body(channels, frames, bits, rate)),
        chunk(b"SSND", &ssnd_body(samples)),
    ])
}

fn le16(b: &[u8], at: usize) -> u16 {
    u16::from_le_bytes([b[at], b[at + 1]])
}

fn le32(b: &[u8], at: usize) -> u32 {
    u32::from_le_bytes([b[at], b[at + 1], b[at + 2], b[at + 3]])
}

fn reversed_per_sample(s: &[u8], w: usize) -> Vec<u8> {
    s.chunks(w).flat_map(|c| c.iter().rev().copied()).collect()
}

#[test]
fn mono_16_bit_scenario() {
    let input = aiff(1, 2, 16, RATE_8000, &[0x01, 0x02, 0x03, 0x04]);
    let wav = aiff_to_wav(&input).unwrap();
    assert_eq!(wav.len(), 48);
    assert_eq!(&wav[44..], &[0x02, 0x01, 0x04, 0x03]);
    assert_eq!(&wav[0..4], b"RIFF");
    assert_eq!(le32(&wav, 4), 40);
    assert_eq!(&wav[8..12], b"WAVE");
    assert_eq!(&wav[12..16], b"fmt ");
    assert_eq!(le32(&wav, 16), 16);
    assert_eq!(le16(&wav, 20), 1);
    assert_eq!(le16(&wav, 22), 1);
    assert_eq!(le32(&wav, 24), 8000);
    assert_eq!(le32(&wav, 28), 16000);
    assert_eq!(le16(&wav, 32), 2);
    assert_eq!(le16(&wav, 34), 16);
    assert_eq!(&wav[36..40], b"data");
    assert_eq!(le32(&wav, 40), 4);
}

#[test]
fn stereo_header_rates() {
    let samples: Vec<u8> = (0..40u8).collect();
    let wav = aiff_to_wav(&aiff(2, 10, 16, RATE_44100, &samples)).unwrap();
    assert_eq!(wav.len(), 40 + 44);
    assert_eq!(le32(&wav, 24), 44100);
    assert_eq!(le32(&wav, 28), 176400);
    assert_eq!(le16(&wav, 32), 4);
    assert_eq!(le16(&wav, 34), 16);
    assert_eq!(le32(&wav, 40), 40);
}

#[test]
fn round_trip_all_depths() {
    for (bits, frames) in [(8u16, 37u32), (16, 37), (24, 37), (32, 37), (24, 48)] {
        let w = bits as usize / 8;
        let samples: Vec<u8> = (0..frames as usize * 2 * w).map(|i| (i * 7 + 3) as u8).collect();
        let wav = aiff_to_wav(&aiff(2, frames, bits, RATE_44100, &samples)).unwrap();
        assert_eq!(wav.len(), samples.len() + 44);
        assert_eq!(reversed_per_sample(&wav[44..], w), samples);
        assert_eq!(wav[44..].to_vec(), reversed_per_sample(&samples, w));
    }
}

#[test]
fn eight_bit_is_copied() {
    let samples: Vec<u8> = (0..21u8).collect();
    let wav = aiff_to_wav(&aiff(1, 21, 8, RATE_8000, &samples)).unwrap();
    assert_eq!(&wav[44..], &samples[..]);
}

#[test]
fn thirty_two_bit_reversed() {
    let samples = [1u8, 2, 3, 4, 5, 6, 7, 8];
    let wav = aiff_to_wav(&aiff(1, 2, 32, RATE_8000, &samples)).unwrap();
    assert_eq!(&wav[44..], &[4, 3, 2, 1, 8, 7, 6, 5]);
}

#[test]
fn twenty_four_bit_seams() {
    let src: Vec<u8> = (100..148u8).collect();
    let mut dst = vec![0u8; 50];
    swap_window_24(&src, 0, &mut dst, 1);
    assert_eq!(dst[0], 0);
    assert_eq!(dst[49], 0);
    for g in 0..16 {
        let i = &src[3 * g..3 * g + 3];
        let o = &dst[1 + 3 * g..1 + 3 * g + 3];
        assert_eq!(o, &[i[2], i[1], i[0]]);
    }
}

#[test]
fn twenty_four_bit_blocks_and_tail() {
    let samples: Vec<u8> = (0..102u8).collect();
    let wav = aiff_to_wav(&aiff(1, 34, 24, RATE_8000, &samples)).unwrap();
    for g in 0..34 {
        let i = &samples[3 * g..3 * g + 3];
        let o = &wav[44 + 3 * g..44 + 3 * g + 3];
        assert_eq!(o, &[i[2], i[1], i[0]]);
    }
}

#[test]
fn transcode_leaves_other_bytes() {
    let src = [9u8, 1, 2, 3, 4, 9];
    let mut dst = vec![7u8; 8];
    transcode_samples(&src, 1, 4, BitDepth::Sixteen, &mut dst, 2);
    assert_eq!(dst, vec![7, 7, 2, 1, 4, 3, 7, 7]);
}

#[test]
fn ssnd_size_mismatch_rejected() {
    let mut body = vec![0, 0, 0, 4, 0, 0, 0, 0];
    body.extend_from_slice(&[0xAA; 4]);
    body.extend_from_slice(&[1, 2, 3, 4]);
    let input = form(&[
        chunk(b"COMM", &comm_body(1, 2, 16, RATE_8000)),
        chunk(b"SSND", &body),
    ]);
    assert_eq!(aiff_to_wav(&input), Err(ConvertError::UnsupportedSsndLayout));
}

#[test]
fn twelve_bit_rejected() {
    let input = aiff(1, 2, 12, RATE_8000, &[1, 2, 3]);
    assert_eq!(aiff_to_wav(&input), Err(ConvertError::UnsupportedBitDepth));
}

#[test]
fn missing_ssnd_rejected() {
    let input = form(&[chunk(b"COMM", &comm_body(1, 0, 16, RATE_8000))]);
    assert_eq!(aiff_to_wav(&input), Err(ConvertError::MalformedContainer));
}

#[test]
fn missing_comm_rejected() {
    let input = form(&[chunk(b"SSND", &ssnd_body(&[]))]);
    assert_eq!(aiff_to_wav(&input), Err(ConvertError::MalformedContainer));
}

#[test]
fn truncated_chunk_header_rejected() {
    let mut input = aiff(1, 2, 16, RATE_8000, &[1, 2, 3, 4]);
    input.extend_from_slice(&[0x41, 0x42, 0x43]);
    assert_eq!(aiff_to_wav(&input), Err(ConvertError::MalformedContainer));
}

#[test]
fn truncated_comm_rejected() {
    let mut input = form(&[chunk(b"SSND", &ssnd_body(&[]))]);
    input.extend_from_slice(b"COMM");
    input.extend_from_slice(&18u32.to_be_bytes());
    input.extend_from_slice(&[0, 1, 0, 0]);
    assert_eq!(parse_aiff(&input), Err(ConvertError::MalformedContainer));
}

#[test]
fn short_ssnd_rejected() {
    let input = form(&[
        chunk(b"COMM", &comm_body(1, 0, 16, RATE_8000)),
        chunk(b"SSND", &[0, 0, 0, 0]),
    ]);
    assert_eq!(aiff_to_wav(&input), Err(ConvertError::MalformedContainer));
}

#[test]
fn samples_past_end_rejected() {
    let mut input = aiff(1, 2, 16, RATE_8000, &[1, 2, 3, 4]);
    input.truncate(input.len() - 1);
    assert_eq!(aiff_to_wav(&input), Err(ConvertError::MalformedContainer));
}

#[test]
fn other_chunks_skipped_and_last_comm_wins() {
    let input = form(&[
        chunk(b"COMM", &comm_body(2, 9, 32, RATE_44100)),
        chunk(b"NAME", b"song"),
        chunk(b"COMM", &comm_body(1, 2, 16, RATE_8000)),
        chunk(b"SSND", &ssnd_body(&[1, 2, 3, 4])),
    ]);
    let layout = parse_aiff(&input).unwrap();
    assert_eq!(layout.comm.channels, 1);
    assert_eq!(layout.comm.sample_rate, 8000);
    assert_eq!(layout.ssnd.data_len, 4);
    assert_eq!(layout.ssnd.body_start, 12 + 26 + 12 + 26 + 8);
    let wav = aiff_to_wav(&input).unwrap();
    assert_eq!(&wav[44..], &[2, 1, 4, 3]);
}

#[test]
fn extended_rate_truncation() {
    assert_eq!(read_float80_u32(&RATE_44100, 0), 44100);
    assert_eq!(read_float80_u32(&RATE_8000, 0), 8000);
    let half = [0x3F, 0xFE, 0x80, 0, 0, 0, 0, 0, 0, 0];
    assert_eq!(read_float80_u32(&half, 0), 0);
    let fraction = [0x40, 0x0E, 0xAC, 0x44, 0x80, 0, 0, 0, 0, 0];
    assert_eq!(read_float80_u32(&fraction, 0), 44100);
    let negative = [0xC0, 0x0E, 0xAC, 0x44, 0, 0, 0, 0, 0, 0];
    assert_eq!(read_float80_u32(&negative, 0), 0);
    let huge = [0x40, 0x40, 0x80, 0, 0, 0, 0, 0, 0, 0];
    assert_eq!(read_float80_u32(&huge, 0), u32::MAX);
    let zero = [0x7F, 0xFF, 0, 0, 0, 0, 0, 0, 0, 0];
    assert_eq!(read_float80_u32(&zero, 0), 0);
    let top = [0x40, 0x1E, 0xFF, 0xFF, 0xFF, 0xFF, 0, 0, 0, 0];
    assert_eq!(read_float80_u32(&top, 0), u32::MAX);
}

#[test]
fn bit_depths() {
    assert_eq!(BitDepth::from_bits(8), Some(BitDepth::Eight));
    assert_eq!(BitDepth::from_bits(24), Some(BitDepth::TwentyFour));
    assert_eq!(BitDepth::from_bits(12), None);
    assert_eq!(BitDepth::ThirtyTwo.sample_bytes(), 4);
    assert_eq!(BitDepth::Sixteen.bits(), 16);
}

#[test]
fn header_wraps_oversized_fields() {
    let c = CommChunk { channels: 0xFFFF, sample_frames: 1, bits_per_sample: 32, sample_rate: 0xFFFF_FFFF };
    let h = build_header(c, 0xFFFF_FFF0);
    assert_eq!(h.len(), 44);
    assert_eq!(le32(&h, 4), 0xFFFF_FFF0u32.wrapping_add(36));
    let rate = 0xFFFF_FFFFu64 * 0xFFFF * 32 / 8;
    assert_eq!(le32(&h, 28), rate as u32);
    assert_eq!(le16(&h, 32), (0xFFFFu32 * 4) as u16);
}

#[test]
fn truncated_trailing_body_rejected() {
    let mut input = aiff(1, 2, 16, RATE_8000, &[1, 2, 3, 4]);
    assert_eq!(input.len(), 58);
    input.extend_from_slice(b"APPL");
    input.extend_from_slice(&4u32.to_be_bytes());
    assert_eq!(parse_aiff(&input), Err(ConvertError::MalformedContainer));
    assert_eq!(aiff_to_wav(&input), Err(ConvertError::MalformedContainer));
}

#[test]
fn exact_trailing_chunk_accepted() {
    let mut input = aiff(1, 2, 16, RATE_8000, &[1, 2, 3, 4]);
    input.extend_from_slice(b"APPL");
    input.extend_from_slice(&0u32.to_be_bytes());
    let wav = aiff_to_wav(&input).unwrap();
    assert_eq!(&wav[44..], &[2, 1, 4, 3]);
}

#[test]
fn ssnd_mismatch_reported_before_bit_depth() {
    let input = aiff(1, 2, 12, RATE_8000, &[1, 2, 3, 4, 5]);
    assert_eq!(aiff_to_wav(&input), Err(ConvertError::UnsupportedSsndLayout));
}

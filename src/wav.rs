//! The canonical 44-byte-header PCM WAV file and the whole conversion.
use vstd::arithmetic::div_mod::lemma_mod_multiples_vanish;
use vstd::prelude::*;
use crate::aiff::{AiffLayout, CommChunk, ConvertError, layout_of, parse_aiff};
use crate::bytes::{le16_bytes, le32_bytes, push_le16, push_le32, push_tag};
use crate::transcode::{BitDepth, depth_of_bits, reverse_samples, transcode_samples};

verus! {

/// Size of the WAV header: `RIFF` chunk header and form type, `fmt ` chunk,
/// `data` chunk header.
pub const WAV_HEADER_LEN: usize = 44;

/// The `RIFF` chunk identifier.
pub const RIFF_TAG: [u8; 4] = [0x52, 0x49, 0x46, 0x46];

/// The `WAVE` form type.
pub const WAVE_TAG: [u8; 4] = [0x57, 0x41, 0x56, 0x45];

/// The `fmt ` chunk identifier.
pub const FMT_TAG: [u8; 4] = [0x66, 0x6D, 0x74, 0x20];

/// The `data` chunk identifier.
pub const DATA_TAG: [u8; 4] = [0x64, 0x61, 0x74, 0x61];

/// Body size of the `fmt ` chunk.
pub const FMT_BODY_LEN: u32 = 16;

/// Format tag of integer PCM.
pub const PCM_FORMAT: u16 = 1;

/// Sample bytes that the `COMM` chunk `c` describes.
pub open spec fn total_sample_bytes(c: CommChunk) -> int {
    c.sample_frames * c.channels * c.bits_per_sample / 8
}

/// Bytes per second of audio.
pub open spec fn byte_rate(c: CommChunk) -> int {
    c.sample_rate * c.channels * c.bits_per_sample / 8
}

/// Bytes per frame of audio.
pub open spec fn block_align(c: CommChunk) -> int {
    c.channels * c.bits_per_sample / 8
}

/// The WAV header for the format `c` and `total` sample bytes. A field too
/// small for its value holds the value's low bits.
#[verifier::opaque]
pub open spec fn wav_header(c: CommChunk, total: int) -> Seq<u8> {
    RIFF_TAG@ + le32_bytes((total + 36) % 0x1_0000_0000) + WAVE_TAG@ + FMT_TAG@ + le32_bytes(
        16,
    ) + le16_bytes(1) + le16_bytes(c.channels as int) + le32_bytes(c.sample_rate as int)
        + le32_bytes(byte_rate(c) % 0x1_0000_0000) + le16_bytes(block_align(c) % 0x1_0000)
        + le16_bytes(c.bits_per_sample as int) + DATA_TAG@ + le32_bytes(total)
}

/// The WAV file for the AIFF file `d` whose chunks are `l`, or why there is none.
pub open spec fn wav_from_layout(d: Seq<u8>, l: AiffLayout) -> Result<Seq<u8>, ConvertError> {
    let total = total_sample_bytes(l.comm);
    let start = l.ssnd.body_start + 8;
    if total != l.ssnd.data_len {
        Err(ConvertError::UnsupportedSsndLayout)
    } else {
        match depth_of_bits(l.comm.bits_per_sample) {
            None => Err(ConvertError::UnsupportedBitDepth),
            Some(depth) => {
                if start + total > d.len() {
                    Err(ConvertError::MalformedContainer)
                } else {
                    Ok(
                        wav_header(l.comm, total) + reverse_samples(
                            d.subrange(start, start + total),
                            depth.width(),
                        ),
                    )
                }
            },
        }
    }
}

/// The WAV file for the AIFF file `d`, or why there is none.
pub open spec fn wav_of(d: Seq<u8>) -> Result<Seq<u8>, ConvertError> {
    match layout_of(d) {
        Err(e) => Err(e),
        Ok(l) => wav_from_layout(d, l),
    }
}

/// The bytes of a conversion's result.
pub open spec fn result_bytes(r: Result<Vec<u8>, ConvertError>) -> Result<Seq<u8>, ConvertError> {
    match r {
        Ok(v) => Ok(v@),
        Err(e) => Err(e),
    }
}

/// Builds the 44-byte WAV header for the format `c` and `total` sample bytes.
pub fn build_header(c: CommChunk, total: u32) -> (r: Vec<u8>)
    ensures
        r@ == wav_header(c, total as int),
{
    let rate = c.sample_rate as u64;
    let channels = c.channels as u64;
    let bits = c.bits_per_sample as u64;
    assert(rate * channels * bits < 0x1_0000_0000 * 0x1_0000 * 0x1_0000) by (nonlinear_arith)
        requires
            rate < 0x1_0000_0000,
            channels < 0x1_0000,
            bits < 0x1_0000,
    ;
    assert(rate * channels < 0x1_0000_0000 * 0x1_0000) by (nonlinear_arith)
        requires
            rate < 0x1_0000_0000,
            channels < 0x1_0000,
    ;
    assert(channels * bits < 0x1_0000 * 0x1_0000) by (nonlinear_arith)
        requires
            channels < 0x1_0000,
            bits < 0x1_0000,
    ;
    let rate_bytes = rate * channels * bits / 8;
    let align = channels * bits / 8;
    let mut h: Vec<u8> = Vec::new();
    push_tag(&mut h, &RIFF_TAG);
    push_le32(&mut h, ((total as u64 + 36) % 0x1_0000_0000) as u32);
    push_tag(&mut h, &WAVE_TAG);
    push_tag(&mut h, &FMT_TAG);
    push_le32(&mut h, FMT_BODY_LEN);
    push_le16(&mut h, PCM_FORMAT);
    push_le16(&mut h, c.channels);
    push_le32(&mut h, c.sample_rate);
    push_le32(&mut h, (rate_bytes % 0x1_0000_0000) as u32);
    push_le16(&mut h, (align % 0x1_0000) as u16);
    push_le16(&mut h, c.bits_per_sample);
    push_tag(&mut h, &DATA_TAG);
    push_le32(&mut h, total);
    assert(h@ =~= wav_header(c, total as int)) by {
        reveal(wav_header);
    }
    h
}

/// Converts the AIFF file `d`, whose chunks are `l`, into a WAV file: checks
/// that the `SSND` length matches `COMM`, then the bit depth, then that the
/// samples lie within `d`.
pub fn encode_wav(d: &[u8], l: AiffLayout) -> (r: Result<Vec<u8>, ConvertError>)
    ensures
        result_bytes(r) == wav_from_layout(d@, l),
{
    let frames = l.comm.sample_frames as u64;
    let channels = l.comm.channels as u64;
    let bits = l.comm.bits_per_sample as u64;
    assert(frames * channels < 0x1_0000_0000 * 0x1_0000) by (nonlinear_arith)
        requires
            frames < 0x1_0000_0000,
            channels < 0x1_0000,
    ;
    assert(frames * channels * bits < 0x1_0000_0000 * 0x1_0000 * 0x1_0000) by (nonlinear_arith)
        requires
            frames < 0x1_0000_0000,
            channels < 0x1_0000,
            bits < 0x1_0000,
    ;
    let total = frames * channels * bits / 8;
    if total != l.ssnd.data_len as u64 {
        return Err(ConvertError::UnsupportedSsndLayout);
    }
    let depth = match BitDepth::from_bits(l.comm.bits_per_sample) {
        Some(depth) => depth,
        None => return Err(ConvertError::UnsupportedBitDepth),
    };
    let w = depth.sample_bytes() as u64;
    proof {
        let a = frames * channels;
        assert(total == w * a + 0) by (nonlinear_arith)
            requires
                bits == 8 * w,
                total == frames * channels * bits / 8,
                a == frames * channels,
        ;
        lemma_mod_multiples_vanish(a, 0, w as int);
    }
    let total = l.ssnd.data_len as usize;
    if l.ssnd.body_start > d.len() || d.len() - l.ssnd.body_start < 8
        || d.len() - l.ssnd.body_start - 8 < total {
        return Err(ConvertError::MalformedContainer);
    }
    let start = l.ssnd.body_start + 8;
    let mut out = build_header(l.comm, l.ssnd.data_len);
    let ghost header = out@;
    assert(header.len() == 44) by {
        reveal(wav_header);
    }
    let mut k: usize = 0;
    while k < total
        invariant
            k <= total,
            out@.len() == WAV_HEADER_LEN + k,
            out@.subrange(0, 44) == header,
            header.len() == 44,
        decreases total - k,
    {
        out.push(0);
        assert(out@.subrange(0, 44) =~= header);
        k += 1;
    }
    transcode_samples(d, start, total, depth, &mut out, WAV_HEADER_LEN);
    assert(out@.subrange(0, 44) =~= header);
    assert(out@ =~= out@.subrange(0, 44) + out@.subrange(44, 44 + total as int));
    Ok(out)
}

/// Converts an AIFF file into a WAV file with the same channels, rate, depth
/// and samples, the bytes of every sample in little-endian order.
pub fn aiff_to_wav(aiff_data: &[u8]) -> (r: Result<Vec<u8>, ConvertError>)
    ensures
        result_bytes(r) == wav_of(aiff_data@),
{
    match parse_aiff(aiff_data) {
        Ok(l) => encode_wav(aiff_data, l),
        Err(e) => Err(e),
    }
}

} // verus!

//! Properties that relate the parts of a conversion.
use vstd::prelude::*;
use crate::aiff::{CommChunk, ConvertError, layout_of};
use crate::bytes::{le16, le32, le16_bytes, le32_bytes, lemma_le16_round_trip, lemma_le32_round_trip};
use crate::transcode::{depth_of_bits, lemma_reverse_twice, reverse_samples};
use crate::wav::{block_align, byte_rate, total_sample_bytes, wav_header, wav_of};

verus! {

/// Reversing the bytes of every sample of a WAV payload once more gives back
/// the sample bytes of the AIFF file, and the payload is all that follows the
/// 44-byte header.
pub proof fn lemma_round_trip(d: Seq<u8>)
    requires
        wav_of(d) is Ok,
    ensures
        ({
            let l = layout_of(d)->Ok_0;
            let w = depth_of_bits(l.comm.bits_per_sample)->Some_0.width();
            let total = total_sample_bytes(l.comm);
            let start = l.ssnd.body_start + 8;
            let out = wav_of(d)->Ok_0;
            &&& out.len() == 44 + total
            &&& reverse_samples(out.subrange(44, out.len() as int), w) == d.subrange(
                start,
                start + total,
            )
        }),
{
    let l = layout_of(d)->Ok_0;
    let w = depth_of_bits(l.comm.bits_per_sample)->Some_0.width();
    let total = total_sample_bytes(l.comm);
    let start = l.ssnd.body_start + 8;
    let out = wav_of(d)->Ok_0;
    let samples = d.subrange(start, start + total);
    assert(total == total_sample_bytes(l.comm));
    assert(samples.len() as int % w == 0) by {
        assert(samples.len() == l.comm.sample_frames * l.comm.channels * w) by (nonlinear_arith)
            requires
                samples.len() == total,
                total == l.comm.sample_frames * l.comm.channels * l.comm.bits_per_sample / 8,
                l.comm.bits_per_sample == 8 * w,
        ;
        vstd::arithmetic::div_mod::lemma_mod_multiples_vanish(
            l.comm.sample_frames * l.comm.channels,
            0,
            w,
        );
        assert(samples.len() == w * (l.comm.sample_frames * l.comm.channels) + 0) by (
        nonlinear_arith)
            requires
                samples.len() == l.comm.sample_frames * l.comm.channels * w,
        ;
    }
    lemma_header_sizes(l.comm, total);
    assert(out.subrange(44, out.len() as int) =~= reverse_samples(samples, w));
    lemma_reverse_twice(samples, w);
}

proof fn lemma_read_le16(s: Seq<u8>, at: int, v: int)
    requires
        0 <= at,
        at + 2 <= s.len(),
        0 <= v,
        s.subrange(at, at + 2) == le16_bytes(v),
    ensures
        le16(s, at) == v % 0x1_0000,
{
    assert(le16_bytes(v) =~= le16_bytes(v % 0x1_0000)) by {
        assert(v % 0x1_0000 % 0x100 == v % 0x100) by (nonlinear_arith)
            requires
                0 <= v,
        ;
        assert(v % 0x1_0000 / 0x100 % 0x100 == v / 0x100 % 0x100) by (nonlinear_arith)
            requires
                0 <= v,
        ;
    }
    lemma_le16_round_trip(v % 0x1_0000);
    assert(s[at] == le16_bytes(v)[0] && s[at + 1] == le16_bytes(v)[1]);
}

proof fn lemma_read_le32(s: Seq<u8>, at: int, v: int)
    requires
        0 <= at,
        at + 4 <= s.len(),
        0 <= v < 0x1_0000_0000,
        s.subrange(at, at + 4) == le32_bytes(v),
    ensures
        le32(s, at) == v,
{
    lemma_le32_round_trip(v);
    assert(s[at] == le32_bytes(v)[0] && s[at + 1] == le32_bytes(v)[1]);
    assert(s[at + 2] == le32_bytes(v)[2] && s[at + 3] == le32_bytes(v)[3]);
}

proof fn lemma_header_sizes(c: CommChunk, total: int)
    ensures
        wav_header(c, total).len() == 44,
        wav_header(c, total).subrange(4, 8) == le32_bytes((total + 36) % 0x1_0000_0000),
        wav_header(c, total).subrange(40, 44) == le32_bytes(total),
{
    reveal(wav_header);
    assert(wav_header(c, total).subrange(4, 8) =~= le32_bytes((total + 36) % 0x1_0000_0000));
    assert(wav_header(c, total).subrange(40, 44) =~= le32_bytes(total));
}

proof fn lemma_header_format(c: CommChunk, total: int)
    ensures
        wav_header(c, total).subrange(20, 22) == le16_bytes(1),
        wav_header(c, total).subrange(22, 24) == le16_bytes(c.channels as int),
        wav_header(c, total).subrange(24, 28) == le32_bytes(c.sample_rate as int),
        wav_header(c, total).subrange(34, 36) == le16_bytes(c.bits_per_sample as int),
{
    reveal(wav_header);
    assert(wav_header(c, total).subrange(20, 22) =~= le16_bytes(1));
    assert(wav_header(c, total).subrange(22, 24) =~= le16_bytes(c.channels as int));
    assert(wav_header(c, total).subrange(24, 28) =~= le32_bytes(c.sample_rate as int));
    assert(wav_header(c, total).subrange(34, 36) =~= le16_bytes(c.bits_per_sample as int));
}

proof fn lemma_header_rates(c: CommChunk, total: int)
    ensures
        wav_header(c, total).subrange(28, 32) == le32_bytes(byte_rate(c) % 0x1_0000_0000),
        wav_header(c, total).subrange(32, 34) == le16_bytes(block_align(c) % 0x1_0000),
{
    reveal(wav_header);
    assert(wav_header(c, total).subrange(28, 32) =~= le32_bytes(byte_rate(c) % 0x1_0000_0000));
    assert(wav_header(c, total).subrange(32, 34) =~= le16_bytes(block_align(c) % 0x1_0000));
}

proof fn lemma_rates_nonnegative(c: CommChunk)
    ensures
        byte_rate(c) >= 0,
        block_align(c) >= 0,
{
    let r = c.sample_rate as int;
    let n = c.channels as int;
    let b = c.bits_per_sample as int;
    assert(r * n * b >= 0 && n * b >= 0) by (nonlinear_arith)
        requires
            r >= 0,
            n >= 0,
            b >= 0,
    ;
}

proof fn lemma_header_reads(c: CommChunk, total: int)
    requires
        0 <= total < 0x1_0000_0000,
    ensures
        ({
            let h = wav_header(c, total);
            &&& h.len() == 44
            &&& le32(h, 4) == (total + 36) % 0x1_0000_0000
            &&& le16(h, 20) == 1
            &&& le16(h, 22) == c.channels
            &&& le32(h, 24) == c.sample_rate
            &&& le32(h, 28) == byte_rate(c) % 0x1_0000_0000
            &&& le16(h, 32) == block_align(c) % 0x1_0000
            &&& le16(h, 34) == c.bits_per_sample
            &&& le32(h, 40) == total
        }),
{
    let h = wav_header(c, total);
    lemma_rates_nonnegative(c);
    lemma_header_sizes(c, total);
    lemma_header_format(c, total);
    lemma_header_rates(c, total);
    lemma_read_le32(h, 4, (total + 36) % 0x1_0000_0000);
    lemma_read_le16(h, 20, 1);
    lemma_read_le16(h, 22, c.channels as int);
    lemma_read_le32(h, 24, c.sample_rate as int);
    lemma_read_le32(h, 28, byte_rate(c) % 0x1_0000_0000);
    lemma_read_le16(h, 32, block_align(c) % 0x1_0000);
    lemma_read_le16(h, 34, c.bits_per_sample as int);
    lemma_read_le32(h, 40, total);
}

/// The header of every WAV file produced states the format of the AIFF file:
/// PCM format tag, channel count, truncated sample rate, byte rate, block
/// align, bits per sample and the sample byte count; the file is 44 bytes
/// longer than its samples. A field holds its value wherever the value fits.
pub proof fn lemma_header_fields(d: Seq<u8>)
    requires
        wav_of(d) is Ok,
    ensures
        ({
            let c = layout_of(d)->Ok_0.comm;
            let total = total_sample_bytes(c);
            let out = wav_of(d)->Ok_0;
            &&& out.len() == total + 44
            &&& (out.len() - 8 < 0x1_0000_0000 ==> le32(out, 4) == out.len() - 8)
            &&& le16(out, 20) == 1
            &&& le16(out, 22) == c.channels
            &&& le32(out, 24) == c.sample_rate
            &&& (byte_rate(c) < 0x1_0000_0000 ==> le32(out, 28) == byte_rate(c))
            &&& (block_align(c) < 0x1_0000 ==> le16(out, 32) == block_align(c))
            &&& le16(out, 34) == c.bits_per_sample
            &&& le32(out, 40) == total
        }),
{
    let l = layout_of(d)->Ok_0;
    let c = l.comm;
    let total = total_sample_bytes(c);
    let out = wav_of(d)->Ok_0;
    let h = wav_header(c, total);
    assert(total == l.ssnd.data_len);
    lemma_header_reads(c, total);
    assert(forall|i: int| 0 <= i < 44 ==> out[i] == h[i]);
}

/// A readable file whose `SSND` chunk declares a sample length other than
/// the one its `COMM` chunk implies is refused as an unsupported `SSND`
/// layout, whatever its bit depth.
pub proof fn lemma_ssnd_mismatch_rejected(d: Seq<u8>)
    requires
        layout_of(d) is Ok,
        total_sample_bytes(layout_of(d)->Ok_0.comm) != layout_of(d)->Ok_0.ssnd.data_len,
    ensures
        wav_of(d) == Err::<Seq<u8>, ConvertError>(ConvertError::UnsupportedSsndLayout),
{
}

/// A readable file whose `SSND` length matches its `COMM` chunk and whose
/// bits-per-sample field is not 8, 16, 24 or 32 (such as 12) is refused as
/// an unsupported bit depth.
pub proof fn lemma_bit_depth_rejected(d: Seq<u8>)
    requires
        layout_of(d) is Ok,
        total_sample_bytes(layout_of(d)->Ok_0.comm) == layout_of(d)->Ok_0.ssnd.data_len,
        depth_of_bits(layout_of(d)->Ok_0.comm.bits_per_sample) is None,
    ensures
        wav_of(d) == Err::<Seq<u8>, ConvertError>(ConvertError::UnsupportedBitDepth),
{
}

} // verus!

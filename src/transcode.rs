//! Byte-order reversal of PCM samples, big-endian to little-endian.
//!
//! The sample block is processed in fixed windows: 16 bytes for 8-, 16- and
//! 32-bit samples and 48 bytes for 24-bit samples, each window rearranged by a
//! fixed permutation table. Bytes after the last whole window are reversed one
//! sample at a time.
use vstd::arithmetic::div_mod::{lemma_fundamental_div_mod, lemma_mod_multiples_vanish};
use vstd::prelude::*;

verus! {

/// Sample widths that the converter supports.
#[derive(Clone, Copy, Debug, PartialEq, Eq, Structural)]
pub enum BitDepth {
    Eight,
    Sixteen,
    TwentyFour,
    ThirtyTwo,
}

/// The depth named by a bits-per-sample field, if it is supported.
pub open spec fn depth_of_bits(bits: u16) -> Option<BitDepth> {
    if bits == 8 {
        Some(BitDepth::Eight)
    } else if bits == 16 {
        Some(BitDepth::Sixteen)
    } else if bits == 24 {
        Some(BitDepth::TwentyFour)
    } else if bits == 32 {
        Some(BitDepth::ThirtyTwo)
    } else {
        None
    }
}

impl BitDepth {
    /// Bytes per sample.
    pub open spec fn width(self) -> int {
        match self {
            BitDepth::Eight => 1,
            BitDepth::Sixteen => 2,
            BitDepth::TwentyFour => 3,
            BitDepth::ThirtyTwo => 4,
        }
    }

    /// Bytes processed by one window of the permutation.
    pub open spec fn window(self) -> int {
        match self {
            BitDepth::TwentyFour => 48,
            _ => 16,
        }
    }

    /// The depth for a bits-per-sample field; `None` for an unsupported one.
    pub fn from_bits(bits: u16) -> (r: Option<BitDepth>)
        ensures
            r == depth_of_bits(bits),
    {
        match bits {
            8 => Some(BitDepth::Eight),
            16 => Some(BitDepth::Sixteen),
            24 => Some(BitDepth::TwentyFour),
            32 => Some(BitDepth::ThirtyTwo),
            _ => None,
        }
    }

    /// Bytes per sample.
    pub fn sample_bytes(&self) -> (r: usize)
        ensures
            r == self.width(),
    {
        match self {
            BitDepth::Eight => 1,
            BitDepth::Sixteen => 2,
            BitDepth::TwentyFour => 3,
            BitDepth::ThirtyTwo => 4,
        }
    }

    /// Bits per sample.
    pub fn bits(&self) -> (r: u16)
        ensures
            r == 8 * self.width(),
            depth_of_bits(r) == Some(*self),
    {
        match self {
            BitDepth::Eight => 8,
            BitDepth::Sixteen => 16,
            BitDepth::TwentyFour => 24,
            BitDepth::ThirtyTwo => 32,
        }
    }
}

/// Position, within the same `w`-byte sample, of the byte that lands at `i`
/// when the sample's byte order is reversed.
pub open spec fn reversed_index(i: int, w: int) -> int {
    i - i % w + (w - 1 - i % w)
}

/// `s` with the bytes of every `w`-byte sample reversed.
pub open spec fn reverse_samples(s: Seq<u8>, w: int) -> Seq<u8> {
    Seq::new(s.len(), |i: int| s[reversed_index(i, w)])
}

/// Window of 16-bit samples: the two bytes of each sample trade places.
pub const SWAP_PAIRS: [u8; 16] = [1, 0, 3, 2, 5, 4, 7, 6, 9, 8, 11, 10, 13, 12, 15, 14];

/// Window of 32-bit samples: the four bytes of each sample are reversed.
pub const REVERSE_QUADS: [u8; 16] = [3, 2, 1, 0, 7, 6, 5, 4, 11, 10, 9, 8, 15, 14, 13, 12];

/// First 16 bytes of a 48-byte window of 24-bit samples. The sample that
/// straddles into the second part keeps its first byte at the last lane; the
/// seam swap moves it.
pub const TRIPLES_FIRST: [u8; 16] = [2, 1, 0, 5, 4, 3, 8, 7, 6, 11, 10, 9, 14, 13, 12, 15];

/// Middle 16 bytes of a 48-byte window of 24-bit samples. Lanes 1 and 14 stay
/// in place for the two seam swaps.
pub const TRIPLES_SECOND: [u8; 16] = [0, 1, 4, 3, 2, 7, 6, 5, 10, 9, 8, 13, 12, 11, 14, 15];

/// Last 16 bytes of a 48-byte window of 24-bit samples. Lane 0 stays in place
/// for the second seam swap.
pub const TRIPLES_THIRD: [u8; 16] = [0, 3, 2, 1, 6, 5, 4, 9, 8, 7, 12, 11, 10, 15, 14, 13];

/// Window position of the first seam swap; its partner is two bytes on.
pub const FIRST_SEAM: usize = 15;

/// Window position of the second seam swap; its partner is two bytes on.
pub const SECOND_SEAM: usize = 30;

proof fn lemma_lane_cases(j: int)
    requires
        0 <= j < 16,
    ensures
        j == 0 || j == 1 || j == 2 || j == 3 || j == 4 || j == 5 || j == 6 || j == 7 || j == 8
            || j == 9 || j == 10 || j == 11 || j == 12 || j == 13 || j == 14 || j == 15,
{
}

proof fn lemma_tables()
    ensures
        forall|j: int| 0 <= j < 16 ==> SWAP_PAIRS@[j] == reversed_index(j, 2),
        forall|j: int| 0 <= j < 16 ==> REVERSE_QUADS@[j] == reversed_index(j, 4),
        forall|j: int| 0 <= j < 16 && j != 15 ==> TRIPLES_FIRST@[j] == reversed_index(j, 3),
        forall|j: int|
            0 <= j < 16 && j != 1 && j != 14 ==> 16 + TRIPLES_SECOND@[j] == reversed_index(
                16 + j,
                3,
            ),
        forall|j: int| 0 < j < 16 ==> 32 + TRIPLES_THIRD@[j] == reversed_index(32 + j, 3),
        TRIPLES_FIRST@[15] == 15,
        TRIPLES_SECOND@[1] == 1,
        TRIPLES_SECOND@[14] == 14,
        TRIPLES_THIRD@[0] == 0,
{
    assert forall|j: int| 0 <= j < 16 implies {
        &&& SWAP_PAIRS@[j] == reversed_index(j, 2)
        &&& REVERSE_QUADS@[j] == reversed_index(j, 4)
        &&& (j != 15 ==> TRIPLES_FIRST@[j] == reversed_index(j, 3))
        &&& (j != 1 && j != 14 ==> 16 + TRIPLES_SECOND@[j] == reversed_index(16 + j, 3))
        &&& (j != 0 ==> 32 + TRIPLES_THIRD@[j] == reversed_index(32 + j, 3))
    } by {
        lemma_lane_cases(j);
    }
}

/// Writes `dst[to + j] = src[from + table[j]]` for the 16 lanes of a window.
fn permute_window(src: &[u8], from: usize, table: &[u8; 16], dst: &mut Vec<u8>, to: usize)
    requires
        from + 16 <= src.len(),
        to + 16 <= old(dst).len(),
        forall|j: int| 0 <= j < 16 ==> table@[j] < 16,
    ensures
        final(dst)@.len() == old(dst)@.len(),
        forall|j: int| 0 <= j < 16 ==> final(dst)@[to + j] == src@[from + table@[j]],
        forall|i: int|
            0 <= i < old(dst)@.len() && !(to <= i < to + 16) ==> final(dst)@[i] == old(dst)@[i],
{
    let mut j: usize = 0;
    while j < 16
        invariant
            j <= 16,
            from + 16 <= src.len(),
            to + 16 <= dst.len(),
            forall|k: int| 0 <= k < 16 ==> table@[k] < 16,
            dst@.len() == old(dst)@.len(),
            forall|k: int| 0 <= k < j ==> dst@[to + k] == src@[from + table@[k]],
            forall|i: int|
                0 <= i < old(dst)@.len() && !(to <= i < to + j) ==> dst@[i] == old(dst)@[i],
        decreases 16 - j,
    {
        dst.set(to + j, src[from + table[j] as usize]);
        j += 1;
    }
}

/// Exchanges the bytes at `a` and `b`: the seam correction of 24-bit windows.
fn swap_seam(dst: &mut Vec<u8>, a: usize, b: usize)
    requires
        a < old(dst).len(),
        b < old(dst).len(),
    ensures
        final(dst)@ == old(dst)@.update(a as int, old(dst)@[b as int]).update(
            b as int,
            old(dst)@[a as int],
        ),
{
    let x = dst[a];
    let y = dst[b];
    dst.set(a, y);
    dst.set(b, x);
}

/// Copies a 16-byte window of 8-bit samples, which have no byte order.
pub fn copy_window_8(src: &[u8], from: usize, dst: &mut Vec<u8>, to: usize)
    requires
        from + 16 <= src.len(),
        to + 16 <= old(dst).len(),
    ensures
        final(dst)@.len() == old(dst)@.len(),
        forall|j: int|
            0 <= j < 16 ==> #[trigger] final(dst)@[to + j] == src@[from + reversed_index(j, 1)],
        forall|i: int|
            0 <= i < old(dst)@.len() && !(to <= i < to + 16) ==> final(dst)@[i] == old(dst)@[i],
{
    let mut j: usize = 0;
    while j < 16
        invariant
            j <= 16,
            from + 16 <= src.len(),
            to + 16 <= dst.len(),
            dst@.len() == old(dst)@.len(),
            forall|k: int| 0 <= k < j ==> #[trigger] dst@[to + k] == src@[from + reversed_index(k, 1)],
            forall|i: int|
                0 <= i < old(dst)@.len() && !(to <= i < to + j) ==> dst@[i] == old(dst)@[i],
        decreases 16 - j,
    {
        assert(reversed_index(j as int, 1) == j);
        dst.set(to + j, src[from + j]);
        j += 1;
    }
}

/// Reverses the eight 16-bit samples of a 16-byte window.
pub fn swap_window_16(src: &[u8], from: usize, dst: &mut Vec<u8>, to: usize)
    requires
        from + 16 <= src.len(),
        to + 16 <= old(dst).len(),
    ensures
        final(dst)@.len() == old(dst)@.len(),
        forall|j: int|
            0 <= j < 16 ==> final(dst)@[to + j] == src@[from + reversed_index(j, 2)],
        forall|i: int|
            0 <= i < old(dst)@.len() && !(to <= i < to + 16) ==> final(dst)@[i] == old(dst)@[i],
{
    proof {
        lemma_tables();
    }
    permute_window(src, from, &SWAP_PAIRS, dst, to);
}

/// Reverses the four 32-bit samples of a 16-byte window.
pub fn swap_window_32(src: &[u8], from: usize, dst: &mut Vec<u8>, to: usize)
    requires
        from + 16 <= src.len(),
        to + 16 <= old(dst).len(),
    ensures
        final(dst)@.len() == old(dst)@.len(),
        forall|j: int|
            0 <= j < 16 ==> final(dst)@[to + j] == src@[from + reversed_index(j, 4)],
        forall|i: int|
            0 <= i < old(dst)@.len() && !(to <= i < to + 16) ==> final(dst)@[i] == old(dst)@[i],
{
    proof {
        lemma_tables();
    }
    permute_window(src, from, &REVERSE_QUADS, dst, to);
}

/// Reverses the sixteen 24-bit samples of a 48-byte window: three 16-byte
/// permutations, each followed by a swap across the seam it closes.
pub fn swap_window_24(src: &[u8], from: usize, dst: &mut Vec<u8>, to: usize)
    requires
        from + 48 <= src.len(),
        to + 48 <= old(dst).len(),
    ensures
        final(dst)@.len() == old(dst)@.len(),
        forall|j: int|
            0 <= j < 48 ==> final(dst)@[to + j] == src@[from + reversed_index(j, 3)],
        forall|i: int|
            0 <= i < old(dst)@.len() && !(to <= i < to + 48) ==> final(dst)@[i] == old(dst)@[i],
{
    proof {
        lemma_tables();
    }
    permute_window(src, from, &TRIPLES_FIRST, dst, to);
    let ghost d1 = dst@;
    permute_window(src, from + 16, &TRIPLES_SECOND, dst, to + 16);
    let ghost d2 = dst@;
    swap_seam(dst, to + FIRST_SEAM, to + FIRST_SEAM + 2);
    let ghost d3 = dst@;
    permute_window(src, from + 32, &TRIPLES_THIRD, dst, to + 32);
    let ghost d4 = dst@;
    swap_seam(dst, to + SECOND_SEAM, to + SECOND_SEAM + 2);
    assert forall|j: int| 0 <= j < 48 implies #[trigger] dst@[to + j] == src@[from
        + reversed_index(j, 3)] by {
        lemma_tables();
        let p = to + j;
        if j < 16 {
            if j == 15 {
                assert(dst@[p] == d2[to + 17]);
                assert(d2[to + 17] == src@[from + 16 + TRIPLES_SECOND@[1]]);
            } else {
                assert(dst@[p] == d1[p]);
                assert(d1[p] == src@[from + TRIPLES_FIRST@[j]]);
            }
        } else if j < 32 {
            if j == 17 {
                assert(dst@[p] == d1[to + 15]);
                assert(d1[to + 15] == src@[from + TRIPLES_FIRST@[15]]);
            } else if j == 30 {
                assert(dst@[p] == d4[to + 32]);
                assert(d4[to + 32] == src@[from + 32 + TRIPLES_THIRD@[0]]);
            } else {
                assert(dst@[p] == d2[p]);
                assert(d2[p] == src@[from + 16 + TRIPLES_SECOND@[j - 16]]);
            }
        } else {
            if j == 32 {
                assert(dst@[p] == d3[to + 30]);
                assert(d3[to + 30] == src@[from + 16 + TRIPLES_SECOND@[14]]);
            } else {
                assert(dst@[p] == d4[p]);
                assert(d4[p] == src@[from + 32 + TRIPLES_THIRD@[j - 32]]);
            }
        }
    }
}

proof fn lemma_rev_shift(b: int, j: int, w: int)
    requires
        0 < w,
        0 <= b,
        0 <= j,
        b % w == 0,
    ensures
        reversed_index(b + j, w) == b + reversed_index(j, w),
{
    lemma_fundamental_div_mod(b, w);
    lemma_mod_multiples_vanish(b / w, j, w);
}

proof fn lemma_rev_in_range(i: int, w: int, n: int)
    requires
        0 < w,
        0 <= i < n,
        n % w == 0,
    ensures
        0 <= reversed_index(i, w) < n,
        reversed_index(i, w) - reversed_index(i, w) % w == i - i % w,
{
    lemma_fundamental_div_mod(i, w);
    lemma_fundamental_div_mod(n, w);
    let q = i / w;
    let k = n / w;
    assert(q < k) by (nonlinear_arith)
        requires
            i == w * q + i % w,
            n == w * k,
            0 <= i % w < w,
            i < n,
            0 < w,
    ;
    assert(w * q + w <= w * k) by (nonlinear_arith)
        requires
            q < k,
            0 < w,
    ;
    lemma_mod_multiples_vanish(q, w - 1 - i % w, w);
    assert((w - 1 - i % w) % w == w - 1 - i % w) by (nonlinear_arith)
        requires
            0 <= w - 1 - i % w < w,
    ;
}

proof fn lemma_mod_sum_zero(a: int, b: int, w: int)
    requires
        0 < w,
        a % w == 0,
        b % w == 0,
    ensures
        (a + b) % w == 0,
{
    lemma_fundamental_div_mod(a, w);
    lemma_fundamental_div_mod(b, w);
    assert(a + b == w * (a / w + b / w)) by (nonlinear_arith)
        requires
            a == w * (a / w),
            b == w * (b / w),
    ;
    lemma_mod_multiples_vanish(a / w + b / w, 0, w);
}

/// Writes the `len` sample bytes at `src[start..]` into `dst[out..]` with
/// the bytes of every sample of `depth` reversed. Nothing else in `dst`
/// changes.
pub fn transcode_samples(
    src: &[u8],
    start: usize,
    len: usize,
    depth: BitDepth,
    dst: &mut Vec<u8>,
    out: usize,
)
    requires
        start + len <= src.len(),
        out + len <= old(dst).len(),
        len as int % depth.width() == 0,
    ensures
        final(dst)@.len() == old(dst)@.len(),
        final(dst)@.subrange(out as int, out + len) == reverse_samples(
            src@.subrange(start as int, start + len),
            depth.width(),
        ),
        forall|i: int|
            0 <= i < old(dst)@.len() && !(out <= i < out + len) ==> final(dst)@[i] == old(
                dst,
            )@[i],
{
    let w = depth.sample_bytes();
    let window: usize = match depth {
        BitDepth::TwentyFour => 48,
        _ => 16,
    };
    assert(window % w == 0) by {
        if depth == BitDepth::Eight {
        } else if depth == BitDepth::Sixteen {
        } else if depth == BitDepth::TwentyFour {
        } else {
        }
    }
    let mut done: usize = 0;
    while len - done >= window
        invariant
            done <= len,
            done as int % (w as int) == 0,
            w == depth.width(),
            window % w == 0,
            window == depth.window(),
            start + len <= src.len(),
            out + len <= dst.len(),
            dst@.len() == old(dst)@.len(),
            forall|p: int|
                0 <= p < done ==> #[trigger] dst@[out + p] == src@[start + reversed_index(
                    p,
                    w as int,
                )],
            forall|i: int|
                0 <= i < old(dst)@.len() && !(out <= i < out + done) ==> dst@[i] == old(dst)@[i],
        decreases len - done,
    {
        let ghost before = dst@;
        match depth {
            BitDepth::Eight => copy_window_8(src, start + done, dst, out + done),
            BitDepth::Sixteen => swap_window_16(src, start + done, dst, out + done),
            BitDepth::TwentyFour => swap_window_24(src, start + done, dst, out + done),
            BitDepth::ThirtyTwo => swap_window_32(src, start + done, dst, out + done),
        }
        assert forall|p: int| 0 <= p < done + window implies #[trigger] dst@[out + p]
            == src@[start + reversed_index(p, w as int)] by {
            if p >= done {
                lemma_rev_shift(done as int, p - done, w as int);
                assert(dst@[out + done + (p - done)] == src@[start + done + reversed_index(
                    p - done,
                    w as int,
                )]);
            } else {
                assert(dst@[out + p] == before[out + p]);
            }
        }
        proof {
            lemma_mod_sum_zero(done as int, window as int, w as int);
        }
        done = done + window;
    }
    while done < len
        invariant
            done <= len,
            w == depth.width(),
            len as int % (w as int) == 0,
            start + len <= src.len(),
            out + len <= dst.len(),
            dst@.len() == old(dst)@.len(),
            forall|p: int|
                0 <= p < done ==> #[trigger] dst@[out + p] == src@[start + reversed_index(
                    p,
                    w as int,
                )],
            forall|i: int|
                0 <= i < old(dst)@.len() && !(out <= i < out + done) ==> dst@[i] == old(dst)@[i],
        decreases len - done,
    {
        proof {
            lemma_rev_in_range(done as int, w as int, len as int);
        }
        let r = done % w;
        let from = done - r + (w - 1 - r);
        dst.set(out + done, src[start + from]);
        done = done + 1;
    }
    let ghost expected = reverse_samples(src@.subrange(start as int, start + len), w as int);
    assert forall|p: int| 0 <= p < len implies #[trigger] dst@.subrange(
        out as int,
        out + len,
    )[p] == expected[p] by {
        lemma_rev_in_range(p, w as int, len as int);
        assert(dst@[out + p] == src@[start + reversed_index(p, w as int)]);
    }
    assert(dst@.subrange(out as int, out + len) =~= expected);
}

/// Reversing the bytes of every sample twice gives back the original bytes.
pub proof fn lemma_reverse_twice(s: Seq<u8>, w: int)
    requires
        0 < w,
        s.len() as int % w == 0,
    ensures
        reverse_samples(reverse_samples(s, w), w) == s,
{
    let r = reverse_samples(s, w);
    assert forall|i: int| 0 <= i < s.len() implies #[trigger] reverse_samples(r, w)[i] == s[i] by {
        lemma_rev_in_range(i, w, s.len() as int);
        let k = reversed_index(i, w);
        lemma_rev_in_range(k, w, s.len() as int);
    }
    assert(reverse_samples(r, w) =~= s);
}

} // verus!

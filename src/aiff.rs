//! The AIFF chunk stream: a 12-byte `FORM` header followed by chunks, each an
//! identifier, a big-endian body size and the body.
use vstd::prelude::*;
use crate::bytes::{be16, be32, read_be16, read_be32};
use crate::float80::{read_float80_u32, trunc_u32};

verus! {

/// Why a conversion was refused.
#[derive(Clone, Copy, Debug, PartialEq, Eq, Structural)]
pub enum ConvertError {
    /// The buffer is too short for a chunk header, for the body that a chunk
    /// header claims, for the `COMM` fields or for the sample data; or a
    /// `COMM` or `SSND` chunk is missing.
    MalformedContainer,
    /// The `SSND` sample length differs from the one that `COMM` implies.
    UnsupportedSsndLayout,
    /// The bits-per-sample field is not 8, 16, 24 or 32.
    UnsupportedBitDepth,
}

/// The fields of a `COMM` chunk.
#[derive(Clone, Copy, Debug, PartialEq, Eq, Structural)]
pub struct CommChunk {
    pub channels: u16,
    pub sample_frames: u32,
    pub bits_per_sample: u16,
    /// The extended-precision sample rate truncated to an integer.
    pub sample_rate: u32,
}

/// Where an `SSND` chunk stands and how many sample bytes it declares.
#[derive(Clone, Copy, Debug, PartialEq, Eq, Structural)]
pub struct SsndChunk {
    /// The body size less the eight bytes of the `offset` and `blockSize` fields.
    pub data_len: u32,
    /// Offset of the chunk body in the file; the samples start 8 bytes later.
    pub body_start: usize,
}

/// The last `COMM` and `SSND` chunks of a file.
#[derive(Clone, Copy, Debug, PartialEq, Eq, Structural)]
pub struct AiffLayout {
    pub comm: CommChunk,
    pub ssnd: SsndChunk,
}

/// Offset of the first chunk, after `FORM`, the form size and `AIFF`.
pub const FIRST_CHUNK: usize = 12;

/// Size of a chunk header: identifier and body size.
pub const CHUNK_HEADER: usize = 8;

/// Bytes from the start of a `COMM` chunk to the end of its sample rate.
pub const COMM_EXTENT: usize = 26;

/// The identifier `COMM` read as a big-endian integer.
pub const COMM_ID: u32 = 0x434F_4D4D;

/// The identifier `SSND` read as a big-endian integer.
pub const SSND_ID: u32 = 0x5353_4E44;

/// The `COMM` fields of the chunk that starts at `off`.
pub open spec fn comm_at(d: Seq<u8>, off: int) -> CommChunk {
    CommChunk {
        channels: be16(d, off + 8) as u16,
        sample_frames: be32(d, off + 10) as u32,
        bits_per_sample: be16(d, off + 14) as u16,
        sample_rate: trunc_u32(d, off + 16) as u32,
    }
}

/// Scans the chunks from `off` to the end of `d`, starting from the chunks
/// seen so far; a later chunk of a kind replaces an earlier one.
pub open spec fn scan(
    d: Seq<u8>,
    off: int,
    comm: Option<CommChunk>,
    ssnd: Option<SsndChunk>,
) -> Result<(Option<CommChunk>, Option<SsndChunk>), ConvertError>
    decreases d.len() - off,
{
    if off >= d.len() {
        Ok((comm, ssnd))
    } else if off + 8 > d.len() {
        Err(ConvertError::MalformedContainer)
    } else {
        let id = be32(d, off);
        let size = be32(d, off + 4);
        if id == COMM_ID && off + 26 > d.len() {
            Err(ConvertError::MalformedContainer)
        } else if id == SSND_ID && size < 8 {
            Err(ConvertError::MalformedContainer)
        } else {
            let c = if id == COMM_ID {
                Some(comm_at(d, off))
            } else {
                comm
            };
            let s = if id == SSND_ID {
                Some(SsndChunk { data_len: (size - 8) as u32, body_start: (off + 8) as usize })
            } else {
                ssnd
            };
            if off + 8 + size > d.len() {
                Err(ConvertError::MalformedContainer)
            } else if off + 8 + size == d.len() {
                Ok((c, s))
            } else {
                scan(d, off + 8 + size, c, s)
            }
        }
    }
}

/// The layout of the AIFF file `d`, or why it cannot be read.
pub open spec fn layout_of(d: Seq<u8>) -> Result<AiffLayout, ConvertError> {
    match scan(d, 12, None, None) {
        Err(e) => Err(e),
        Ok((Some(comm), Some(ssnd))) => Ok(AiffLayout { comm, ssnd }),
        Ok(_) => Err(ConvertError::MalformedContainer),
    }
}

/// Reads the `COMM` fields of the chunk that starts at `off`.
fn read_comm(d: &[u8], off: usize) -> (r: CommChunk)
    requires
        off + 26 <= d.len(),
    ensures
        r == comm_at(d@, off as int),
{
    CommChunk {
        channels: read_be16(d, off + 8),
        sample_frames: read_be32(d, off + 10),
        bits_per_sample: read_be16(d, off + 14),
        sample_rate: read_float80_u32(d, off + 16),
    }
}

/// Scans the chunk stream of an AIFF file for its `COMM` and `SSND` chunks.
pub fn parse_aiff(d: &[u8]) -> (r: Result<AiffLayout, ConvertError>)
    ensures
        r == layout_of(d@),
{
    let len = d.len();
    let mut off: usize = FIRST_CHUNK;
    let mut comm: Option<CommChunk> = None;
    let mut ssnd: Option<SsndChunk> = None;
    while off < len
        invariant
            len == d.len(),
            scan(d@, off as int, comm, ssnd) == scan(d@, 12, None, None),
        decreases len - off,
    {
        if len - off < CHUNK_HEADER {
            return Err(ConvertError::MalformedContainer);
        }
        let id = read_be32(d, off);
        let size = read_be32(d, off + 4);
        if id == COMM_ID {
            if len - off < COMM_EXTENT {
                return Err(ConvertError::MalformedContainer);
            }
            comm = Some(read_comm(d, off));
        }
        if id == SSND_ID {
            if size < 8 {
                return Err(ConvertError::MalformedContainer);
            }
            ssnd = Some(SsndChunk { data_len: size - 8, body_start: off + CHUNK_HEADER });
        }
        if size as usize > len - off - CHUNK_HEADER {
            return Err(ConvertError::MalformedContainer);
        }
        off = off + CHUNK_HEADER + size as usize;
    }
    assert(scan(d@, off as int, comm, ssnd) == Ok::<_, ConvertError>((comm, ssnd)));
    match (comm, ssnd) {
        (Some(c), Some(s)) => Ok(AiffLayout { comm: c, ssnd: s }),
        _ => Err(ConvertError::MalformedContainer),
    }
}

} // verus!

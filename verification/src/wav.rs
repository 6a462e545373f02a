//! A PCM WAV decoder.
//!
//! The container is a RIFF file: a 12-byte preamble followed by
//! chunks, each an id, a little-endian size and a body (padded to an
//! even length). The `fmt ` chunk carries the encoding, the `data`
//! chunk the interleaved samples. Parsing is specified by a
//! functional mirror (`spec_wav_parse`) over the byte sequence, and
//! each decoded sample equals `wav_amp_at` of the bytes.
//!
//! Supported encodings: integer PCM at 8, 16, 24 or 32 bits, and
//! 32-bit IEEE float, with 1 or 2 channels. Anything else fails fast
//! at open time with a typed error.

use vstd::prelude::*;

use crate::sample_ops::{amp_of_f32_bits, amp_from_f32_bits};
use crate::{Channels, DecodeError};

verus! {

/// Whether the samples are integer PCM or IEEE float.
#[derive(Copy, Clone, PartialEq, Eq, Structural, Debug)]
pub enum SampleKind {
    Int,
    Float,
}

/// What a parsed WAV header says about the data chunk.
#[derive(Copy, Clone, PartialEq, Eq, Structural, Debug)]
pub struct WavInfo {
    /// Integer PCM or IEEE float samples.
    pub kind: SampleKind,
    /// Channel layout embedded in the header.
    pub channels: Channels,
    /// Sample rate in Hz embedded in the header; always positive.
    pub sample_rate: u32,
    /// Bit depth of one sample.
    pub bits: u16,
    /// Offset of the first data byte.
    pub data_start: usize,
    /// Number of whole samples in the data chunk.
    pub n_samples: usize,
}

/// The 16-bit little-endian unsigned value at offset `i`.
pub open spec fn le16(b: Seq<u8>, i: int) -> int {
    b[i] + 0x100 * b[i + 1]
}

/// The 32-bit little-endian unsigned value at offset `i`.
pub open spec fn le32(b: Seq<u8>, i: int) -> int {
    b[i] + 0x100 * b[i + 1] + 0x1_0000 * b[i + 2] + 0x100_0000 * b[i + 3]
}

/// Sign-extend a 16-bit unsigned value.
pub open spec fn sext16(v: int) -> int {
    if v >= 0x8000 {
        v - 0x1_0000
    } else {
        v
    }
}

/// Sign-extend a 24-bit unsigned value.
pub open spec fn sext24(v: int) -> int {
    if v >= 0x80_0000 {
        v - 0x100_0000
    } else {
        v
    }
}

/// Sign-extend a 32-bit unsigned value.
pub open spec fn sext32(v: int) -> int {
    if v >= 0x8000_0000 {
        v - 0x1_0000_0000
    } else {
        v
    }
}

/// Walk the chunk list from `off` looking for id `c0 c1 c2 c3`;
/// return the body offset and size of the first match. A chunk whose
/// recorded size overruns the buffer ends the walk.
pub open spec fn spec_find_chunk(b: Seq<u8>, off: int, c0: u8, c1: u8, c2: u8, c3: u8) -> Option<
    (int, int),
>
    decreases b.len() - off,
{
    if off < 0 || off + 8 > b.len() {
        None
    } else {
        let size = le32(b, off + 4);
        if size > b.len() - off - 8 {
            None
        } else if b[off] == c0 && b[off + 1] == c1 && b[off + 2] == c2 && b[off + 3] == c3 {
            Some((off + 8, size))
        } else if size % 2 == 1 && off + 8 + size == b.len() {
            None
        } else {
            spec_find_chunk(b, off + 8 + size + (size % 2), c0, c1, c2, c3)
        }
    }
}

/// The number of container bytes of one sample of `bits` depth.
pub open spec fn spec_bytes_per_sample(bits: int) -> int {
    bits / 8
}

/// The tail shared by the two known subformat identifiers of an
/// extended format chunk, following the two bytes that carry the
/// format tag itself.
pub open spec fn subformat_guid_ok(b: Seq<u8>, o: int) -> bool {
    b[o] == 0 && b[o + 1] == 0 && b[o + 2] == 0 && b[o + 3] == 0 && b[o + 4] == 0x10 && b[o + 5]
        == 0 && b[o + 6] == 0x80 && b[o + 7] == 0 && b[o + 8] == 0 && b[o + 9] == 0xAA && b[o + 10]
        == 0 && b[o + 11] == 0x38 && b[o + 12] == 0x9B && b[o + 13] == 0x71
}

/// What parsing a WAV byte buffer yields: the embedded encoding and
/// the location of the sample data, or the reason it is rejected.
pub open spec fn spec_wav_parse(b: Seq<u8>) -> Result<WavInfo, DecodeError> {
    if b.len() < 12 || b[0] != 0x52 || b[1] != 0x49 || b[2] != 0x46 || b[3] != 0x46 || b[8] != 0x57
        || b[9] != 0x41 || b[10] != 0x56 || b[11] != 0x45 {
        // not "RIFF....WAVE"
        Err(DecodeError::MalformedContainer)
    } else {
        match spec_find_chunk(b, 12, 0x66, 0x6D, 0x74, 0x20) {
            None => Err(DecodeError::MalformedContainer),
            Some((fo, fs)) => {
                if fs < 16 {
                    Err(DecodeError::MalformedContainer)
                } else {
                    let tag0 = le16(b, fo);
                    let ch = le16(b, fo + 2);
                    let rate = le32(b, fo + 4);
                    let block = le16(b, fo + 12);
                    let bits = le16(b, fo + 14);
                    // an extended chunk carries the true tag in its
                    // subformat identifier
                    if tag0 == 0xFFFE && (fs < 40 || le16(b, fo + 16) != 22) {
                        Err(DecodeError::MalformedContainer)
                    } else if tag0 == 0xFFFE && (!subformat_guid_ok(b, fo + 26) || (le16(b, fo + 18)
                        != 0 && le16(b, fo + 18) != bits)) {
                        Err(DecodeError::UnsupportedFormat)
                    } else {
                    let tag = if tag0 == 0xFFFE {
                        le16(b, fo + 24)
                    } else {
                        tag0
                    };
                    if tag != 1 && tag != 3 {
                        Err(DecodeError::UnsupportedFormat)
                    } else if ch != 1 && ch != 2 {
                        Err(DecodeError::UnsupportedFormat)
                    } else if (tag == 1 && bits != 8 && bits != 16 && bits != 24 && bits != 32) || (
                    tag == 3 && bits != 32) {
                        Err(DecodeError::UnsupportedFormat)
                    } else if rate == 0 || block != spec_bytes_per_sample(bits) * ch {
                        Err(DecodeError::MalformedContainer)
                    } else {
                        match spec_find_chunk(b, 12, 0x64, 0x61, 0x74, 0x61) {
                            None => Err(DecodeError::MalformedContainer),
                            Some((dof, ds)) => Ok(
                                WavInfo {
                                    kind: if tag == 3 {
                                        SampleKind::Float
                                    } else {
                                        SampleKind::Int
                                    },
                                    channels: if ch == 2 {
                                        Channels::Stereo
                                    } else {
                                        Channels::Mono
                                    },
                                    sample_rate: rate as u32,
                                    bits: bits as u16,
                                    data_start: dof as usize,
                                    n_samples: (ds / spec_bytes_per_sample(bits)) as usize,
                                },
                            ),
                        }
                    }
                    }
                }
            },
        }
    }
}

/// The canonical amplitude of sample `k` of the data chunk: the PCM
/// value at its byte offset, sign-extended and scaled so that the
/// format's full scale maps to `AMP_ONE`.
pub open spec fn wav_amp_at(b: Seq<u8>, info: WavInfo, k: int) -> i64 {
    let o = info.data_start + k * spec_bytes_per_sample(info.bits as int);
    if info.kind is Float {
        amp_of_f32_bits(le32(b, o) as u32)
    } else if info.bits == 8 {
        // 8-bit WAV samples are stored unsigned with midpoint 128
        ((b[o] - 128) * 0x200_0000) as i64
    } else if info.bits == 16 {
        (sext16(le16(b, o)) * 0x2_0000) as i64
    } else if info.bits == 24 {
        (sext24(le16(b, o) + 0x1_0000 * b[o + 2]) * 0x200) as i64
    } else {
        (sext32(le32(b, o)) * 2) as i64
    }
}

/// The whole sample sequence the data chunk holds.
pub open spec fn wav_amps(b: Seq<u8>, info: WavInfo) -> Seq<i64> {
    Seq::new(info.n_samples as nat, |k: int| wav_amp_at(b, info, k))
}

/// A decoder positioned inside the data chunk of a parsed WAV buffer.
pub struct WavDecoder {
    /// The whole container, already resident in memory.
    pub data: Vec<u8>,
    /// The parse of `data`'s header.
    pub info: WavInfo,
    /// Index of the next sample to decode.
    pub pos: usize,
}

impl WavDecoder {
    /// The decoder indeed holds the parse of its own buffer, and its
    /// position lies within the data chunk.
    pub open spec fn wf(self) -> bool {
        &&& spec_wav_parse(self.data@) == Ok::<WavInfo, DecodeError>(self.info)
        &&& self.pos <= self.info.n_samples
        &&& self.info.data_start + self.info.n_samples * spec_bytes_per_sample(
            self.info.bits as int,
        ) <= self.data@.len()
        &&& 1 <= spec_bytes_per_sample(self.info.bits as int) <= 4
        &&& self.info.sample_rate >= 1
    }

    /// The samples this decoder has yet to yield.
    pub open spec fn remaining(self) -> Seq<i64> {
        wav_amps(self.data@, self.info).skip(self.pos as int)
    }

    /// Parse the header of a WAV byte buffer and stand ready to
    /// decode its data chunk sample by sample.
    pub fn new(data: Vec<u8>) -> (r: Result<WavDecoder, DecodeError>)
        ensures
            match r {
                Ok(d) => spec_wav_parse(data@) == Ok::<WavInfo, DecodeError>(d.info) && d.data@
                    == data@ && d.pos == 0 && d.wf(),
                Err(e) => spec_wav_parse(data@) == Err::<WavInfo, DecodeError>(e),
            },
    {
        if data.len() < 12 {
            return Err(DecodeError::MalformedContainer);
        }
        if !(data[0] == 0x52 && data[1] == 0x49 && data[2] == 0x46 && data[3] == 0x46 && data[8]
            == 0x57 && data[9] == 0x41 && data[10] == 0x56 && data[11] == 0x45) {
            return Err(DecodeError::MalformedContainer);
        }
        let fmt = match find_chunk(&data, 12, 0x66, 0x6D, 0x74, 0x20) {
            Some(c) => c,
            None => {
                return Err(DecodeError::MalformedContainer);
            },
        };
        let (fo, fs) = fmt;
        if fs < 16 {
            return Err(DecodeError::MalformedContainer);
        }
        let tag0: u32 = read_le16(&data, fo);
        let ch: u32 = read_le16(&data, fo + 2);
        let rate: u32 = read_le32(&data, fo + 4);
        let block: u32 = read_le16(&data, fo + 12);
        let bits: u32 = read_le16(&data, fo + 14);
        if tag0 == 0xFFFE && (fs < 40 || read_le16(&data, fo + 16) != 22) {
            return Err(DecodeError::MalformedContainer);
        }
        if tag0 == 0xFFFE {
            let valid: u32 = read_le16(&data, fo + 18);
            if !check_subformat_guid(&data, fo + 26) || (valid != 0 && valid != bits) {
                return Err(DecodeError::UnsupportedFormat);
            }
        }
        let tag: u32 = if tag0 == 0xFFFE {
            read_le16(&data, fo + 24)
        } else {
            tag0
        };
        if tag != 1 && tag != 3 {
            return Err(DecodeError::UnsupportedFormat);
        }
        if ch != 1 && ch != 2 {
            return Err(DecodeError::UnsupportedFormat);
        }
        if (tag == 1 && bits != 8 && bits != 16 && bits != 24 && bits != 32) || (tag == 3 && bits
            != 32) {
            return Err(DecodeError::UnsupportedFormat);
        }
        let bps: u32 = bits / 8;
        if rate == 0 || block != bps * ch {
            return Err(DecodeError::MalformedContainer);
        }
        let dat = match find_chunk(&data, 12, 0x64, 0x61, 0x74, 0x61) {
            Some(c) => c,
            None => {
                return Err(DecodeError::MalformedContainer);
            },
        };
        let (dof, ds) = dat;
        let info = WavInfo {
            kind: if tag == 3 {
                SampleKind::Float
            } else {
                SampleKind::Int
            },
            channels: if ch == 2 {
                Channels::Stereo
            } else {
                Channels::Mono
            },
            sample_rate: rate,
            bits: bits as u16,
            data_start: dof,
            n_samples: ds / (bps as usize),
        };
        proof {
            assert(info.data_start + info.n_samples * spec_bytes_per_sample(info.bits as int)
                <= self_data_view_len(&data)) by {
                assert(ds / (bps as usize) * (bps as int) <= ds) by (nonlinear_arith)
                    requires bps >= 1;
            }
        }
        Ok(WavDecoder { data, info, pos: 0 })
    }

    /// The sample rate embedded in the container header.
    pub fn sample_rate(&self) -> (r: u32)
        ensures
            r == self.info.sample_rate,
    {
        self.info.sample_rate
    }

    /// The channel layout embedded in the container header.
    pub fn channels(&self) -> (r: Channels)
        ensures
            r == self.info.channels,
    {
        self.info.channels
    }

    /// Decode the next sample, or report exhaustion at the end of the
    /// data chunk.
    pub fn next(&mut self) -> (r: Option<i64>)
        requires
            old(self).wf(),
        ensures
            final(self).wf(),
            final(self).info == old(self).info,
            final(self).data@ == old(self).data@,
            old(self).remaining().len() > 0 ==> r == Some(old(self).remaining()[0])
                && final(self).remaining() == old(self).remaining().skip(1),
            old(self).remaining().len() == 0 ==> r is None && *final(self) == *old(self),
    {
        if self.pos >= self.info.n_samples {
            proof {
                assert(old(self).remaining().len() == 0);
            }
            return None;
        }
        let ghost pre = *self;
        let n: usize = self.data.len();
        let bps: usize = (self.info.bits / 8) as usize;
        proof {
            assert(self.pos * bps + bps <= self.info.n_samples * bps) by (nonlinear_arith)
                requires self.pos < self.info.n_samples && bps >= 1;
            assert(self.info.data_start + self.pos * bps + bps <= n);
        }
        let o: usize = self.info.data_start + self.pos * bps;
        let v: i64 = if matches!(self.info.kind, SampleKind::Float) {
            amp_from_f32_bits(read_le32(&self.data, o))
        } else if self.info.bits == 8 {
            let b0: u8 = self.data[o];
            (b0 as i64 - 128) * 0x200_0000
        } else if self.info.bits == 16 {
            let u: u32 = read_le16(&self.data, o);
            let sv: i64 = if u >= 0x8000 {
                u as i64 - 0x1_0000
            } else {
                u as i64
            };
            sv * 0x2_0000
        } else if self.info.bits == 24 {
            let u: u32 = read_le16(&self.data, o) + 0x1_0000 * (self.data[o + 2] as u32);
            let sv: i64 = if u >= 0x80_0000 {
                u as i64 - 0x100_0000
            } else {
                u as i64
            };
            sv * 0x200
        } else {
            let u: u32 = read_le32(&self.data, o);
            let sv: i64 = if u >= 0x8000_0000 {
                u as i64 - 0x1_0000_0000
            } else {
                u as i64
            };
            sv * 2
        };
        self.pos = self.pos + 1;
        proof {
            assert(v == wav_amp_at(pre.data@, pre.info, pre.pos as int));
            assert(pre.remaining()[0] == wav_amps(pre.data@, pre.info)[pre.pos as int]);
            assert(self.remaining() =~= pre.remaining().skip(1));
        }
        Some(v)
    }
}

/// The length of the decoder's byte buffer, named so the constructor
/// can speak of it while the vector is partly moved.
pub open spec fn self_data_view_len(data: &Vec<u8>) -> int {
    data@.len() as int
}

/// Check the shared tail of a subformat identifier.
fn check_subformat_guid(data: &Vec<u8>, o: usize) -> (r: bool)
    requires
        o + 14 <= data@.len(),
    ensures
        r == subformat_guid_ok(data@, o as int),
{
    let n: usize = data.len();
    assert(o + 14 <= n);
    data[o] == 0 && data[o + 1] == 0 && data[o + 2] == 0 && data[o + 3] == 0 && data[o + 4] == 0x10
        && data[o + 5] == 0 && data[o + 6] == 0x80 && data[o + 7] == 0 && data[o + 8] == 0 && data[o
        + 9] == 0xAA && data[o + 10] == 0 && data[o + 11] == 0x38 && data[o + 12] == 0x9B && data[o
        + 13] == 0x71
}

/// Read the 16-bit little-endian value at `o`.
fn read_le16(data: &Vec<u8>, o: usize) -> (r: u32)
    requires
        o + 2 <= data@.len(),
    ensures
        r == le16(data@, o as int),
        r < 0x1_0000,
{
    let n: usize = data.len();
    assert(o + 2 <= n);
    data[o] as u32 + 0x100 * (data[o + 1] as u32)
}

/// Read the 32-bit little-endian value at `o`.
fn read_le32(data: &Vec<u8>, o: usize) -> (r: u32)
    requires
        o + 4 <= data@.len(),
    ensures
        r == le32(data@, o as int),
{
    let n: usize = data.len();
    assert(o + 4 <= n);
    data[o] as u32 + 0x100 * (data[o + 1] as u32) + 0x1_0000 * (data[o + 2] as u32) + 0x100_0000
        * (data[o + 3] as u32)
}

/// Walk the chunk list from `off` looking for id `c0 c1 c2 c3`.
fn find_chunk(data: &Vec<u8>, off: usize, c0: u8, c1: u8, c2: u8, c3: u8) -> (r: Option<
    (usize, usize),
>)
    ensures
        match r {
            Some((bo, bs)) => spec_find_chunk(data@, off as int, c0, c1, c2, c3) == Some(
                (bo as int, bs as int),
            ) && bo + bs <= data@.len() && bo >= 8,
            None => spec_find_chunk(data@, off as int, c0, c1, c2, c3) is None,
        },
    decreases data@.len() - off,
{
    if data.len() < 8 || off > data.len() - 8 {
        return None;
    }
    let size32: u32 = read_le32(data, off + 4);
    let size: usize = size32 as usize;
    if size > data.len() - off - 8 {
        return None;
    }
    if data[off] == c0 && data[off + 1] == c1 && data[off + 2] == c2 && data[off + 3] == c3 {
        return Some((off + 8, size));
    }
    if size % 2 == 1 && off + 8 + size == data.len() {
        return None;
    }
    find_chunk(data, off + 8 + size + (size % 2), c0, c1, c2, c3)
}

} // verus!

//! An Ogg/Vorbis decoder built over the lewton codec.
//!
//! The codec itself is outside this crate: the stream reader and its
//! error type are declared opaquely and every call goes through a
//! trusted wrapper. The decoder around them is verified: it drains
//! one decompressed packet at a time, latches exhaustion once the
//! stream reports its end, and skips corrupt packets (bounded, so a
//! persistently failing stream ends instead of spinning).

use vstd::prelude::*;

use crate::sample_ops::amp_of_i16;
use crate::sample_ops::amp_from_i16;
use crate::{Channels, DecodeError};

verus! {

/// How many consecutive corrupt or empty packets are skipped before
/// the stream is treated as ended.
pub const MAX_PACKET_SKIPS: u32 = 1024;

#[verifier::external_type_specification]
#[verifier::external_body]
pub struct ExVorbisError(lewton::VorbisError);

/// The identification header values a stream embeds: what the codec
/// reports about a buffer it accepts.
#[derive(Copy, Clone, PartialEq, Eq, Structural, Debug)]
pub struct OggIdent {
    /// The `audio_sample_rate` field of the identification header.
    pub sample_rate: u32,
    /// The `audio_channels` field of the identification header.
    pub channels: u8,
}

/// What opening an Ogg/Vorbis byte buffer yields: nothing when the
/// codec rejects the stream, otherwise the identification header's
/// sample rate and channel count. Opening an in-memory buffer is a
/// function of its bytes alone.
pub uninterp spec fn ogg_open_of(data: Seq<u8>) -> Option<OggIdent>;

/// The codec's stream reader, held opaquely: its generic bounds name
/// traits Verus does not know, so the declaration form is refused and
/// the reader lives behind this handle instead.
#[verifier::external_body]
pub struct OggReaderHandle {
    inner: lewton::inside_ogg::OggStreamReader<std::io::Cursor<Vec<u8>>>,
}

/// Relies on lewton's `OggStreamReader::new`: reads the Ogg/Vorbis
/// identification, comment and setup headers from the in-memory
/// buffer, failing on a malformed stream, and exposes the public
/// `ident_hdr` fields of the reader it builds.
#[verifier::external_body]
fn ogg_open(data: Vec<u8>) -> (r: Result<(OggReaderHandle, u32, u8), lewton::VorbisError>)
    ensures
        match r {
            Ok((handle, rate, channels)) => ogg_open_of(data@) == Some(
                OggIdent { sample_rate: rate, channels },
            ),
            Err(_) => ogg_open_of(data@) is None,
        },
{
    match lewton::inside_ogg::OggStreamReader::new(std::io::Cursor::new(data)) {
        Ok(inner) => {
            let rate = inner.ident_hdr.audio_sample_rate;
            let channels = inner.ident_hdr.audio_channels;
            Ok((OggReaderHandle { inner }, rate, channels))
        },
        Err(e) => Err(e),
    }
}

/// Relies on lewton's `read_dec_packet_itl`: decompresses the next
/// audio packet into interleaved 16-bit samples; `Ok(None)` once the
/// end of the stream is reached, `Err` on a corrupt packet.
#[verifier::external_body]
fn ogg_read_packet(r: &mut OggReaderHandle) -> (res: Result<
    Option<Vec<i16>>,
    lewton::VorbisError,
>) {
    r.inner.read_dec_packet_itl()
}

/// A decoder that lazily drains decompressed packets of an Ogg/Vorbis
/// stream.
pub struct OggDecoder {
    /// The codec's reader over the in-memory buffer.
    reader: OggReaderHandle,
    /// Sample rate the identification header reported; always positive.
    sample_rate: u32,
    /// Channel layout the identification header reported.
    channels: Channels,
    /// The decompressed packet currently being drained.
    chunk: Vec<i16>,
    /// Index of the next sample within `chunk`.
    pos: usize,
    /// Whether the stream has reported its end; once set, no pull
    /// yields a sample again.
    done: bool,
}

impl OggDecoder {
    /// Positions stay inside the buffered chunk and the reported rate
    /// is usable as a resampler ratio.
    pub closed spec fn wf(self) -> bool {
        &&& self.pos <= self.chunk@.len()
        &&& self.sample_rate >= 1
        &&& self.done ==> self.pos == self.chunk@.len()
    }

    /// The samples of the buffered chunk not yet yielded, in canonical
    /// amplitude.
    pub closed spec fn buffered(self) -> Seq<i64> {
        self.chunk@.skip(self.pos as int).map(|i: int, s: i16| amp_of_i16(s))
    }

    /// Whether the stream may still yield samples past the buffer.
    pub closed spec fn may_continue(self) -> bool {
        !self.done
    }

    /// The sample rate the identification header embeds.
    pub closed spec fn spec_sample_rate(self) -> u32 {
        self.sample_rate
    }

    /// The channel layout the identification header embeds.
    pub closed spec fn spec_channels(self) -> Channels {
        self.channels
    }

    /// Open an Ogg/Vorbis byte buffer: read its headers, fail fast on
    /// malformation, and report the embedded rate and channel layout.
    /// Success is owed exactly when the codec accepts the stream and
    /// its header carries a usable rate and layout; the decoder then
    /// reports the header's values.
    pub fn new(data: Vec<u8>) -> (r: Result<OggDecoder, DecodeError>)
        ensures
            match r {
                Ok(d) => match ogg_open_of(data@) {
                    Some(ident) => ident.sample_rate >= 1 && (ident.channels == 1
                        || ident.channels == 2) && d.wf() && d.buffered().len() == 0
                        && d.may_continue() && d.spec_sample_rate() == ident.sample_rate
                        && d.spec_channels() == (if ident.channels == 1 {
                        Channels::Mono
                    } else {
                        Channels::Stereo
                    }),
                    None => false,
                },
                Err(e) => match ogg_open_of(data@) {
                    None => e is MalformedStream,
                    Some(ident) => if ident.sample_rate == 0 {
                        e is MalformedStream
                    } else if ident.channels != 1 && ident.channels != 2 {
                        e is UnsupportedFormat
                    } else {
                        false
                    },
                },
            },
    {
        let (reader, sample_rate, raw_channels) = match ogg_open(data) {
            Ok(opened) => opened,
            Err(_) => {
                return Err(DecodeError::MalformedStream);
            },
        };
        if sample_rate == 0 {
            return Err(DecodeError::MalformedStream);
        }
        let channels = match Channels::try_from(raw_channels as u32) {
            Ok(c) => c,
            Err(_) => {
                return Err(DecodeError::UnsupportedFormat);
            },
        };
        Ok(
            OggDecoder {
                reader,
                sample_rate,
                channels,
                chunk: Vec::new(),
                pos: 0,
                done: false,
            },
        )
    }

    /// The sample rate embedded in the stream's header.
    pub fn sample_rate(&self) -> (r: u32)
        ensures
            r == self.spec_sample_rate(),
    {
        self.sample_rate
    }

    /// The channel layout embedded in the stream's header.
    pub fn channels(&self) -> (r: Channels)
        ensures
            r == self.spec_channels(),
    {
        self.channels
    }

    /// Yield the next sample: drain the buffered chunk, then ask the
    /// codec for further packets, skipping corrupt ones. Exhaustion
    /// latches: once the stream ends, every later pull yields nothing.
    pub fn next(&mut self) -> (r: Option<i64>)
        requires
            old(self).wf(),
        ensures
            final(self).wf(),
            final(self).spec_sample_rate() == old(self).spec_sample_rate(),
            final(self).spec_channels() == old(self).spec_channels(),
            old(self).buffered().len() > 0 ==> r == Some(old(self).buffered()[0]) && final(
                self).buffered() == old(self).buffered().skip(1) && final(self).may_continue()
                == old(self).may_continue(),
            !old(self).may_continue() && old(self).buffered().len() == 0 ==> r is None
                && *final(self) == *old(self),
            r is None ==> !final(self).may_continue() && final(self).buffered().len() == 0,
    {
        if self.done {
            proof {
                assert(old(self).buffered().len() == 0);
            }
            return None;
        }
        if self.pos < self.chunk.len() {
            let ghost pre = *self;
            let v = amp_from_i16(self.chunk[self.pos]);
            self.pos = self.pos + 1;
            proof {
                assert(pre.buffered()[0] == amp_of_i16(pre.chunk@[pre.pos as int]));
                assert(self.buffered() =~= pre.buffered().skip(1));
            }
            return Some(v);
        }
        proof {
            assert(old(self).buffered().len() == 0);
        }
        let mut skips: u32 = 0;
        while skips < MAX_PACKET_SKIPS
            invariant
                self.pos <= self.chunk@.len(),
                self.sample_rate == old(self).sample_rate,
                self.channels == old(self).channels,
                self.sample_rate >= 1,
                !self.done,
                old(self).buffered().len() == 0,
                old(self).may_continue(),
            decreases MAX_PACKET_SKIPS - skips,
        {
            match ogg_read_packet(&mut self.reader) {
                Ok(Some(samples)) => {
                    if samples.len() > 0 {
                        let v = amp_from_i16(samples[0]);
                        self.chunk = samples;
                        self.pos = 1;
                        return Some(v);
                    }
                    // an empty packet: drain on, but bounded
                    skips = skips + 1;
                },
                Ok(None) => {
                    // end of stream: exhaustion latches here
                    self.done = true;
                    self.chunk = Vec::new();
                    self.pos = 0;
                    return None;
                },
                Err(_) => {
                    // a corrupt packet is skipped, not fatal
                    skips = skips + 1;
                },
            }
        }
        // persistently corrupt: treat the stream as ended
        self.done = true;
        self.chunk = Vec::new();
        self.pos = 0;
        None
    }
}

} // verus!

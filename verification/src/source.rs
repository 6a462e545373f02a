//! The composable pull-based sample sequence.
//!
//! A `Source` is one unit of pullable audio: a decoder or buffer at
//! the bottom, wrapped by zero or more one-way pipeline stages
//! (resamplers and channel converters). Stages are constructed, never
//! mutated in place, and never unwrapped. Its model is the pair of
//! `loaded()` — the samples the source is certain to yield next — and
//! `may_continue()` — whether more may follow them; a source with
//! nothing loaded that cannot continue is exhausted, and exhaustion
//! latches: every later pull yields nothing.

use vstd::prelude::*;

use crate::interp::{Frame, LinearState, SincState, InterpState, spec_interp_frame, SINC_BUFFER_SIZE};
use crate::ogg::{OggDecoder, ogg_open_of};
use crate::sample_ops::{sat_add, spec_sat_add};
use crate::wav::{WavDecoder, wav_amps, spec_wav_parse};
use crate::{Channels, DecodeError, SampleFormat};

verus! {

/// Every sample of `s` twice in a row: what duplicating a mono
/// sequence into both stereo channels yields.
pub open spec fn dup_each(s: Seq<i64>) -> Seq<i64> {
    Seq::new(2 * s.len(), |i: int| s[i / 2])
}

/// Stereo frames collapsed to mono: the saturating sum of each left
/// and right pair. When the sequence is complete (`may` false) and a
/// frame is missing its right sample, that sample counts as
/// equilibrium, so the odd tail passes through.
pub open spec fn stm_seq(s: Seq<i64>, may: bool) -> Seq<i64> {
    let pairs = Seq::new(s.len() / 2, |i: int| spec_sat_add(s[2 * i], s[2 * i + 1]));
    if !may && s.len() % 2 == 1 {
        pairs.push(s.last())
    } else {
        pairs
    }
}

/// Whether two sources sit in the same stage variant. Pulling never
/// rebuilds a stage, so this is invariant under `next`.
pub open spec fn same_variant(a: Source, b: Source) -> bool {
    match (a.reader, b.reader) {
        (SourceReader::Wav(_), SourceReader::Wav(_)) => true,
        (SourceReader::Ogg(_), SourceReader::Ogg(_)) => true,
        (SourceReader::Buffer(_, _), SourceReader::Buffer(_, _)) => true,
        (SourceReader::Chain(_, _), SourceReader::Chain(_, _)) => true,
        (SourceReader::MonoResampler(_), SourceReader::MonoResampler(_)) => true,
        (SourceReader::StereoResampler(_), SourceReader::StereoResampler(_)) => true,
        (SourceReader::MonoToStereo(_, _), SourceReader::MonoToStereo(_, _)) => true,
        (SourceReader::StereoToMono(_), SourceReader::StereoToMono(_)) => true,
        _ => false,
    }
}

/// The frame standing at offset `o` of an interleaved sequence.
pub open spec fn frame_at(s: Seq<i64>, o: int, ch: Channels) -> Frame {
    Frame {
        c0: s[o],
        c1: if ch == Channels::Stereo {
            s[o + 1]
        } else {
            0i64
        },
    }
}

/// The stage a `Source`'s samples come from.
pub enum SourceReader {
    /// A PCM WAV decoder over a resident byte buffer.
    Wav(WavDecoder),
    /// An Ogg/Vorbis decoder over a resident byte buffer.
    Ogg(OggDecoder),
    /// An in-memory sample sequence and the index of its next sample.
    Buffer(Vec<i64>, usize),
    /// Two sources played back to back.
    Chain(Box<Source>, Box<Source>),
    /// A rate converter over a mono source.
    MonoResampler(Resampler),
    /// A rate converter over a stereo source.
    StereoResampler(Resampler),
    /// A mono source whose every sample is emitted twice, with the
    /// cached second copy of the sample mid-frame.
    MonoToStereo(Box<Source>, Option<i64>),
    /// A stereo source whose frames are summed to mono.
    StereoToMono(Box<Source>),
}

/// A sample-rate converter: pulls frames from the source beneath it
/// into an interpolator and emits frames at the target rate. The
/// fractional read position is the exact rational `num / to_rate`,
/// advanced by `from_rate / to_rate` per emitted frame.
pub struct Resampler {
    /// The source being resampled.
    pub inner: Box<Source>,
    /// The rate of the source beneath, in Hz.
    pub from_rate: u32,
    /// The rate this stage emits at, in Hz.
    pub to_rate: u32,
    /// Numerator of the fractional position, over `to_rate`.
    pub num: u64,
    /// The interpolator the build-time quality flag selected.
    pub interp: InterpState,
    /// Whether the source beneath has been seen exhausted.
    pub inner_done: bool,
    /// The second channel of an emitted stereo frame, waiting to be
    /// pulled.
    pub pending: Option<i64>,
}

/// The fields of a freshly built resampler over `inner0`: position
/// at the start, nothing done or pending, and the interpolator seeded
/// per the quality flag — a sinc ring at equilibrium over the
/// untouched source, or a linear interpolator holding the source's
/// first two frames (stated where the source's content is known).
pub open spec fn resampler_fields(rs: Resampler, inner0: Source, to: u32, high_quality: bool) -> bool {
    let ch = inner0.spec_channels();
    let w: int = if ch == Channels::Stereo {
        2
    } else {
        1
    };
    &&& rs.from_rate == inner0.spec_sample_rate()
    &&& rs.to_rate == to
    &&& rs.num == 0
    &&& !rs.inner_done
    &&& rs.pending is None
    &&& same_variant(*rs.inner, inner0)
    &&& if high_quality {
        &&& (match rs.interp {
            InterpState::Sinc(st) => st.idx == 0 && st.ring@ == Seq::new(
                SINC_BUFFER_SIZE as nat,
                |i: int| Frame { c0: 0i64, c1: 0i64 },
            ),
            _ => false,
        })
        &&& *rs.inner == inner0
    } else {
        match rs.interp {
            InterpState::Linear(st) => {
                &&& inner0.loaded().len() >= 2 * w ==> st.left == frame_at(inner0.loaded(), 0, ch)
                    && st.right == frame_at(inner0.loaded(), w, ch) && rs.inner.loaded()
                    == inner0.loaded().skip(2 * w) && rs.inner.may_continue()
                    == inner0.may_continue()
                &&& inner0.exhausted() ==> st.left == (Frame { c0: 0i64, c1: 0i64 }) && st.right
                    == (Frame { c0: 0i64, c1: 0i64 }) && rs.inner.exhausted()
            },
            _ => false,
        }
    }
}

/// A freshly built resampler stage toward rate `to` over `inner0`:
/// the variant matching the layout, with `resampler_fields` pinned.
pub open spec fn resampler_stage(r: Source, inner0: Source, to: u32, high_quality: bool) -> bool {
    &&& r.spec_sample_rate() == to
    &&& r.spec_channels() == inner0.spec_channels()
    &&& match r.reader {
        SourceReader::MonoResampler(rs) => inner0.spec_channels() == Channels::Mono
            && resampler_fields(rs, inner0, to, high_quality),
        SourceReader::StereoResampler(rs) => inner0.spec_channels() == Channels::Stereo
            && resampler_fields(rs, inner0, to, high_quality),
        _ => false,
    }
}

/// One unit of pullable audio: a processing stage with its canonical
/// sample rate and channel layout.
pub struct Source {
    /// The stage the samples come from.
    pub reader: SourceReader,
    /// The rate this source emits at, in Hz.
    pub sample_rate: u32,
    /// The layout this source emits.
    pub channels: Channels,
}

impl Source {
    /// How many stages stand above the bottom decoder or buffer.
    /// Every pull preserves it, which bounds the recursion of `next`.
    pub open spec fn depth(self) -> nat
        decreases self,
    {
        match self.reader {
            SourceReader::Wav(_) => 0,
            SourceReader::Ogg(_) => 0,
            SourceReader::Buffer(_, _) => 0,
            SourceReader::Chain(a, b) => 1 + if a.depth() >= b.depth() {
                a.depth()
            } else {
                b.depth()
            },
            SourceReader::MonoResampler(rs) => 1 + rs.inner.depth(),
            SourceReader::StereoResampler(rs) => 1 + rs.inner.depth(),
            SourceReader::MonoToStereo(inner, _) => 1 + inner.depth(),
            SourceReader::StereoToMono(inner) => 1 + inner.depth(),
        }
    }

    /// The sample rate this source emits at.
    pub open spec fn spec_sample_rate(self) -> u32 {
        self.sample_rate
    }

    /// The channel layout this source emits.
    pub open spec fn spec_channels(self) -> Channels {
        self.channels
    }

    /// Internal consistency: each stage sits on a source of the rate
    /// and layout it expects, and positions stay in bounds.
    pub open spec fn wf(self) -> bool
        decreases self,
    {
        self.sample_rate >= 1 && match self.reader {
            SourceReader::Wav(d) => d.wf() && self.sample_rate == d.info.sample_rate
                && self.channels == d.info.channels,
            SourceReader::Ogg(d) => d.wf() && self.sample_rate == d.spec_sample_rate()
                && self.channels == d.spec_channels(),
            SourceReader::Buffer(data, pos) => pos <= data@.len(),
            SourceReader::Chain(a, b) => a.wf() && b.wf() && a.spec_sample_rate()
                == self.sample_rate && b.spec_sample_rate() == self.sample_rate && a.spec_channels()
                == self.channels && b.spec_channels() == self.channels,
            SourceReader::MonoResampler(rs) => rs.inner.wf() && rs.inner.spec_channels()
                == Channels::Mono && self.channels == Channels::Mono && rs.inner.spec_sample_rate()
                == rs.from_rate && self.sample_rate == rs.to_rate && rs.to_rate >= 1
                && rs.from_rate >= 1 && rs.num <= rs.to_rate + rs.from_rate && rs.interp.wf()
                && rs.pending is None,
            SourceReader::StereoResampler(rs) => rs.inner.wf() && rs.inner.spec_channels()
                == Channels::Stereo && self.channels == Channels::Stereo
                && rs.inner.spec_sample_rate() == rs.from_rate && self.sample_rate == rs.to_rate
                && rs.to_rate >= 1 && rs.from_rate >= 1 && rs.num <= rs.to_rate + rs.from_rate
                && rs.interp.wf(),
            SourceReader::MonoToStereo(inner, _) => inner.wf() && inner.spec_channels()
                == Channels::Mono && self.channels == Channels::Stereo && inner.spec_sample_rate()
                == self.sample_rate,
            SourceReader::StereoToMono(inner) => inner.wf() && inner.spec_channels()
                == Channels::Stereo && self.channels == Channels::Mono && inner.spec_sample_rate()
                == self.sample_rate,
        }
    }

    /// The samples this source is certain to yield next, in order.
    pub open spec fn loaded(self) -> Seq<i64>
        decreases self,
    {
        match self.reader {
            SourceReader::Wav(d) => d.remaining(),
            SourceReader::Ogg(d) => d.buffered(),
            SourceReader::Buffer(data, pos) => data@.skip(pos as int),
            SourceReader::Chain(a, b) => if a.may_continue() {
                a.loaded()
            } else {
                a.loaded() + b.loaded()
            },
            SourceReader::MonoResampler(rs) => match rs.pending {
                Some(v) => seq![v],
                None => seq![],
            },
            SourceReader::StereoResampler(rs) => match rs.pending {
                Some(v) => seq![v],
                None => seq![],
            },
            SourceReader::MonoToStereo(inner, cache) => match cache {
                Some(v) => seq![v] + dup_each(inner.loaded()),
                None => dup_each(inner.loaded()),
            },
            SourceReader::StereoToMono(inner) => stm_seq(inner.loaded(), inner.may_continue()),
        }
    }

    /// Whether samples beyond `loaded()` may still appear.
    pub open spec fn may_continue(self) -> bool
        decreases self,
    {
        match self.reader {
            SourceReader::Wav(_) => false,
            SourceReader::Ogg(d) => d.may_continue(),
            SourceReader::Buffer(_, _) => false,
            SourceReader::Chain(a, b) => a.may_continue() || b.may_continue(),
            SourceReader::MonoResampler(rs) => !rs.inner_done,
            SourceReader::StereoResampler(rs) => !rs.inner_done,
            SourceReader::MonoToStereo(inner, _) => inner.may_continue(),
            SourceReader::StereoToMono(inner) => inner.may_continue(),
        }
    }

    /// Out of samples for good: nothing loaded and nothing to come.
    pub open spec fn exhausted(self) -> bool {
        !self.may_continue() && self.loaded().len() == 0
    }

    /// Wrap an in-memory sample sequence as a source. This is the
    /// sequence-valued stage that concatenation and synthesized audio
    /// use.
    pub fn from_iterator(samples: Vec<SampleFormat>, sample_rate: u32, channels: Channels) -> (r: Source)
        requires
            sample_rate >= 1,
        ensures
            r.wf(),
            r.spec_sample_rate() == sample_rate,
            r.spec_channels() == channels,
            r.loaded() == samples@,
            !r.may_continue(),
            r.depth() == 0,
    {
        let r = Source { reader: SourceReader::Buffer(samples, 0), sample_rate, channels };
        proof {
            assert(r.loaded() =~= samples@);
        }
        r
    }

    /// Decode a PCM WAV byte buffer: the source yields exactly the
    /// samples of its data chunk, at the rate and layout the header
    /// embeds.
    pub fn from_wav(data: Vec<u8>) -> (r: Result<Source, DecodeError>)
        ensures
            match r {
                Ok(s) => {
                    &&& s.wf()
                    &&& match spec_wav_parse(data@) {
                        Ok(info) => s.spec_sample_rate() == info.sample_rate && s.spec_channels()
                            == info.channels && s.loaded() == wav_amps(data@, info)
                            && !s.may_continue(),
                        Err(_) => false,
                    }
                    &&& s.depth() == 0
                },
                Err(e) => spec_wav_parse(data@) == Err::<crate::wav::WavInfo, DecodeError>(e),
            },
    {
        let d = WavDecoder::new(data)?;
        let sample_rate = d.sample_rate();
        let channels = d.channels();
        if sample_rate == 0 {
            // the parse already rejects a zero rate; unreachable, but
            // spelled out so well-formedness is immediate
            return Err(DecodeError::MalformedContainer);
        }
        let r = Source { reader: SourceReader::Wav(d), sample_rate, channels };
        proof {
            assert(r.loaded() =~= wav_amps(data@, r.reader->Wav_0.info));
        }
        Ok(r)
    }

    /// Open an Ogg/Vorbis byte buffer: the source yields the decoded
    /// packets lazily, at the rate and layout the stream's header
    /// embeds. Opening succeeds exactly when the codec accepts the
    /// stream and its header carries a usable rate and layout.
    pub fn from_ogg(data: Vec<u8>) -> (r: Result<Source, DecodeError>)
        ensures
            match r {
                Ok(s) => match ogg_open_of(data@) {
                    Some(ident) => ident.sample_rate >= 1 && (ident.channels == 1
                        || ident.channels == 2) && s.wf() && s.loaded().len() == 0
                        && s.may_continue() && s.depth() == 0 && s.spec_sample_rate()
                        == ident.sample_rate && s.spec_channels() == (if ident.channels == 1 {
                        Channels::Mono
                    } else {
                        Channels::Stereo
                    }),
                    None => false,
                },
                Err(e) => match ogg_open_of(data@) {
                    None => e is MalformedStream,
                    Some(ident) => if ident.sample_rate == 0 {
                        e is MalformedStream
                    } else if ident.channels != 1 && ident.channels != 2 {
                        e is UnsupportedFormat
                    } else {
                        false
                    },
                },
            },
    {
        let d = OggDecoder::new(data)?;
        let sample_rate = d.sample_rate();
        let channels = d.channels();
        Ok(Source { reader: SourceReader::Ogg(d), sample_rate, channels })
    }

    /// Open a tagged asset with the decoder its container format
    /// calls for. Text assets are not audio.
    pub fn new(asset: &crate::assets::Asset) -> (r: Result<Source, DecodeError>)
        requires
            !(asset is Txt),
        ensures
            match r {
                Ok(s) => {
                    &&& s.wf()
                    &&& asset is Wav ==> match spec_wav_parse(asset->Wav_0@) {
                        Ok(info) => s.spec_sample_rate() == info.sample_rate && s.spec_channels()
                            == info.channels && s.loaded() == wav_amps(asset->Wav_0@, info)
                            && !s.may_continue(),
                        Err(_) => false,
                    }
                    &&& asset is Ogg ==> match ogg_open_of(asset->Ogg_0@) {
                        Some(ident) => ident.sample_rate >= 1 && (ident.channels == 1
                            || ident.channels == 2) && s.loaded().len() == 0 && s.may_continue()
                            && s.spec_sample_rate() == ident.sample_rate && s.spec_channels() == (
                        if ident.channels == 1 {
                            Channels::Mono
                        } else {
                            Channels::Stereo
                        }),
                        None => false,
                    }
                },
                Err(e) => {
                    &&& asset is Wav ==> spec_wav_parse(asset->Wav_0@) == Err::<
                        crate::wav::WavInfo,
                        DecodeError,
                    >(e)
                    &&& asset is Ogg ==> match ogg_open_of(asset->Ogg_0@) {
                        None => e is MalformedStream,
                        Some(ident) => if ident.sample_rate == 0 {
                            e is MalformedStream
                        } else if ident.channels != 1 && ident.channels != 2 {
                            e is UnsupportedFormat
                        } else {
                            false
                        },
                    }
                },
            },
    {
        match asset {
            crate::assets::Asset::Wav(data) => Source::from_wav(slice_to_vec(data)),
            crate::assets::Asset::Ogg(data) => Source::from_ogg(slice_to_vec(data)),
            crate::assets::Asset::Txt(_) => unreached(),
        }
    }

    /// The sample rate this source emits at.
    pub fn sample_rate(&self) -> (r: u32)
        ensures
            r == self.spec_sample_rate(),
    {
        self.sample_rate
    }

    /// The channel layout this source emits.
    pub fn channels(&self) -> (r: Channels)
        ensures
            r == self.spec_channels(),
    {
        self.channels
    }

    /// Play `self`, then `other`: one continuous sequence. The two
    /// must already agree on rate and layout; chaining mismatched
    /// sources is a programming error, so it is required away.
    pub fn chain(self, other: Source) -> (r: Source)
        requires
            self.wf(),
            other.wf(),
            self.spec_sample_rate() == other.spec_sample_rate(),
            self.spec_channels() == other.spec_channels(),
        ensures
            r.wf(),
            r.spec_sample_rate() == self.spec_sample_rate(),
            r.spec_channels() == self.spec_channels(),
            r.loaded() == if self.may_continue() {
                self.loaded()
            } else {
                self.loaded() + other.loaded()
            },
            r.may_continue() == (self.may_continue() || other.may_continue()),
    {
        let sample_rate = self.sample_rate;
        let channels = self.channels;
        Source {
            reader: SourceReader::Chain(Box::new(self), Box::new(other)),
            sample_rate,
            channels,
        }
    }
}

impl Source {
    /// Pull one sample. Yields the next loaded sample when one is
    /// known; yields nothing exactly when the source is exhausted,
    /// and exhaustion latches. Rate, layout and stage depth never
    /// change across a pull.
    #[verifier::loop_isolation(false)]
    pub fn next(&mut self) -> (r: Option<SampleFormat>)
        requires
            old(self).wf(),
        ensures
            final(self).wf(),
            final(self).spec_sample_rate() == old(self).spec_sample_rate(),
            final(self).spec_channels() == old(self).spec_channels(),
            final(self).depth() == old(self).depth(),
            old(self).loaded().len() > 0 ==> r == Some(old(self).loaded()[0])
                && final(self).loaded() == old(self).loaded().skip(1)
                && final(self).may_continue() == old(self).may_continue(),
            old(self).exhausted() ==> r is None,
            r is None ==> final(self).exhausted(),
            same_variant(*final(self), *old(self)),
            // a rate converter's emitted sample is exactly its
            // interpolator's output at the position it advanced to
            match final(self).reader {
                SourceReader::MonoResampler(rs) => (old(self).loaded().len() == 0 && r is Some)
                    ==> rs.from_rate <= rs.num && r->Some_0 == spec_interp_frame(
                    rs.interp,
                    rs.num - rs.from_rate,
                    rs.to_rate as int,
                ).c0,
                SourceReader::StereoResampler(rs) => (old(self).loaded().len() == 0 && r is Some)
                    ==> rs.from_rate <= rs.num && r->Some_0 == spec_interp_frame(
                    rs.interp,
                    rs.num - rs.from_rate,
                    rs.to_rate as int,
                ).c0 && rs.pending == Some(
                    spec_interp_frame(rs.interp, rs.num - rs.from_rate, rs.to_rate as int).c1,
                ),
                _ => true,
            },
        decreases old(self).depth(),
    {
        let ghost pre = *self;
        match &mut self.reader {
            SourceReader::Wav(d) => {
                let r = d.next();
                r
            },
            SourceReader::Ogg(d) => {
                let r = d.next();
                r
            },
            SourceReader::Buffer(data, pos) => {
                if *pos < data.len() {
                    let v = data[*pos];
                    *pos = *pos + 1;
                    proof {
                        assert(data@.skip(*pos as int) =~= pre.loaded().skip(1));
                    }
                    Some(v)
                } else {
                    None
                }
            },
            SourceReader::Chain(a, b) => {
                let ghost a0 = *pre.reader->Chain_0;
                let ghost b0 = *pre.reader->Chain_1;
                let ra = a.next();
                match ra {
                    Some(v) => {
                        proof {
                            if pre.loaded().len() > 0 {
                                if !a0.may_continue() {
                                    assert(pre.loaded()[0] == a0.loaded()[0]);
                                    assert(a.loaded() + b0.loaded() =~= pre.loaded().skip(1));
                                }
                            }
                        }
                        Some(v)
                    },
                    None => {
                        let rb = b.next();
                        proof {
                            if pre.loaded().len() > 0 {
                                // `a` yielded nothing, so it was exhausted
                                assert(!a0.may_continue() && a0.loaded().len() == 0);
                                assert(pre.loaded() =~= b0.loaded());
                                if b0.loaded().len() > 0 {
                                    assert(a.loaded() + b.loaded() =~= pre.loaded().skip(1));
                                }
                            }
                        }
                        rb
                    },
                }
            },
            SourceReader::MonoToStereo(inner, cache) => {
                let ghost i0 = *pre.reader->MonoToStereo_0;
                if let Some(v) = *cache {
                    *cache = None;
                    proof {
                        assert(pre.loaded()[0] == v);
                        assert(dup_each(i0.loaded()) =~= pre.loaded().skip(1));
                    }
                    Some(v)
                } else {
                    match inner.next() {
                        Some(s) => {
                            *cache = Some(s);
                            proof {
                                if i0.loaded().len() > 0 {
                                    assert(pre.loaded()[0] == i0.loaded()[0]);
                                    assert(seq![s] + dup_each(inner.loaded())
                                        =~= pre.loaded().skip(1));
                                }
                            }
                            Some(s)
                        },
                        None => {
                            proof {
                                assert(dup_each(inner.loaded()).len() == 0);
                            }
                            None
                        },
                    }
                }
            },
            SourceReader::StereoToMono(inner) => {
                let ghost i0 = *pre.reader->StereoToMono_0;
                match inner.next() {
                    None => {
                        proof {
                            assert(stm_seq(inner.loaded(), inner.may_continue()).len() == 0);
                        }
                        None
                    },
                    Some(l) => {
                        let ghost i1 = **inner;
                        let rr = inner.next();
                        let right: i64 = match rr {
                            Some(x) => x,
                            None => 0,
                        };
                        let out = sat_add(l, right);
                        proof {
                            if i0.loaded().len() >= 2 {
                                assert(l == i0.loaded()[0]);
                                assert(i1.loaded() == i0.loaded().skip(1));
                                assert(i1.loaded().len() >= 1);
                                assert(right == i0.loaded()[1]);
                                assert(pre.loaded()[0] == spec_sat_add(i0.loaded()[0], i0.loaded()[1]));
                                assert(stm_seq(inner.loaded(), inner.may_continue())
                                    =~= pre.loaded().skip(1)) by {
                                    assert(inner.loaded() =~= i0.loaded().skip(2));
                                }
                            } else if i0.loaded().len() == 1 && !i0.may_continue() {
                                assert(l == i0.loaded()[0]);
                                assert(i1.loaded().len() == 0 && !i1.may_continue());
                                assert(rr is None);
                                assert(right == 0);
                                assert(out == i0.loaded()[0]);
                                assert(pre.loaded() =~= seq![i0.loaded()[0]]);
                                assert(stm_seq(inner.loaded(), inner.may_continue())
                                    =~= pre.loaded().skip(1));
                            }
                        }
                        Some(out)
                    },
                }
            },
            SourceReader::MonoResampler(rs) => {
                if rs.inner_done {
                    return None;
                }
                let ghost d0 = rs.inner.depth();
                let ghost from0 = rs.from_rate;
                let den: u64 = rs.to_rate as u64;
                while rs.num >= den
                    invariant
                        rs.inner.wf(),
                        rs.inner.spec_channels() == Channels::Mono,
                        rs.inner.spec_sample_rate() == rs.from_rate,
                        rs.inner.depth() == d0,
                        d0 < pre.depth(),
                        rs.interp.wf(),
                        !rs.inner_done,
                        rs.pending is None,
                        den == rs.to_rate,
                        rs.from_rate == from0,
                        rs.to_rate >= 1,
                        rs.from_rate >= 1,
                        rs.num <= rs.to_rate + rs.from_rate,
                    decreases rs.num,
                {
                    let s0 = match rs.inner.next() {
                        Some(s) => s,
                        None => {
                            rs.inner_done = true;
                            return None;
                        },
                    };
                    let f = Frame { c0: s0, c1: 0 };
                    match &mut rs.interp {
                        InterpState::Linear(st) => st.push(f),
                        InterpState::Sinc(st) => st.push(f),
                    }
                    rs.num = rs.num - den;
                }
                let f = match &rs.interp {
                    InterpState::Linear(st) => st.interpolate(rs.num, den),
                    InterpState::Sinc(st) => st.interpolate(rs.num, den),
                };
                rs.num = rs.num + rs.from_rate as u64;
                Some(f.c0)
            },
            SourceReader::StereoResampler(rs) => {
                if let Some(v) = rs.pending {
                    rs.pending = None;
                    return Some(v);
                }
                if rs.inner_done {
                    return None;
                }
                let ghost d0 = rs.inner.depth();
                let ghost from0 = rs.from_rate;
                let den: u64 = rs.to_rate as u64;
                while rs.num >= den
                    invariant
                        rs.inner.wf(),
                        rs.inner.spec_channels() == Channels::Stereo,
                        rs.inner.spec_sample_rate() == rs.from_rate,
                        rs.inner.depth() == d0,
                        d0 < pre.depth(),
                        rs.interp.wf(),
                        !rs.inner_done,
                        rs.pending is None,
                        den == rs.to_rate,
                        rs.from_rate == from0,
                        rs.to_rate >= 1,
                        rs.from_rate >= 1,
                        rs.num <= rs.to_rate + rs.from_rate,
                    decreases rs.num,
                {
                    let s0 = match rs.inner.next() {
                        Some(s) => s,
                        None => {
                            rs.inner_done = true;
                            return None;
                        },
                    };
                    let s1 = match rs.inner.next() {
                        Some(s) => s,
                        None => {
                            // a frame missing its second channel is dropped
                            rs.inner_done = true;
                            return None;
                        },
                    };
                    let f = Frame { c0: s0, c1: s1 };
                    match &mut rs.interp {
                        InterpState::Linear(st) => st.push(f),
                        InterpState::Sinc(st) => st.push(f),
                    }
                    rs.num = rs.num - den;
                }
                let f = match &rs.interp {
                    InterpState::Linear(st) => st.interpolate(rs.num, den),
                    InterpState::Sinc(st) => st.interpolate(rs.num, den),
                };
                rs.num = rs.num + rs.from_rate as u64;
                rs.pending = Some(f.c1);
                Some(f.c0)
            },
        }
    }
}

impl Source {
    /// Convert the channel layout, when a target is given and
    /// differs: a mono source is wrapped so that every sample is
    /// emitted twice (one per stereo channel), a stereo source so
    /// that each frame's channels are summed. A matching or absent
    /// target leaves the source untouched.
    pub fn with_channels(self, channels: Option<Channels>) -> (r: Source)
        requires
            self.wf(),
        ensures
            r.wf(),
            r.spec_sample_rate() == self.spec_sample_rate(),
            match channels {
                None => r == self,
                Some(c) => {
                    &&& r.spec_channels() == c
                    &&& c == self.spec_channels() ==> r == self
                    &&& (self.spec_channels() == Channels::Mono && c == Channels::Stereo)
                        ==> r.loaded() == dup_each(self.loaded()) && r.may_continue()
                        == self.may_continue() && (match r.reader {
                        SourceReader::MonoToStereo(inner, cache) => *inner == self
                            && cache is None,
                        _ => false,
                    })
                    &&& (self.spec_channels() == Channels::Stereo && c == Channels::Mono)
                        ==> r.loaded() == stm_seq(self.loaded(), self.may_continue())
                        && r.may_continue() == self.may_continue() && (match r.reader {
                        SourceReader::StereoToMono(inner) => *inner == self,
                        _ => false,
                    })
                },
            },
    {
        let sample_rate = self.sample_rate;
        match channels {
            None => self,
            Some(c) => {
                match (self.channels, c) {
                    (Channels::Stereo, Channels::Stereo) => self,
                    (Channels::Mono, Channels::Mono) => self,
                    (Channels::Mono, Channels::Stereo) => Source {
                        reader: SourceReader::MonoToStereo(Box::new(self), None),
                        sample_rate,
                        channels: c,
                    },
                    (Channels::Stereo, Channels::Mono) => Source {
                        reader: SourceReader::StereoToMono(Box::new(self)),
                        sample_rate,
                        channels: c,
                    },
                }
            },
        }
    }

    /// Convert the sample rate, when a target is given, is usable
    /// (nonzero) and differs: the source is wrapped in the resampler
    /// variant matching its layout, driven by the ratio of the two
    /// rates. A matching, absent or zero target leaves the source
    /// untouched — in particular, converting to the rate the source
    /// already has elides the stage.
    pub fn with_sample_rate(self, sample_rate: Option<u32>) -> (r: Source)
        requires
            self.wf(),
        ensures
            r.wf(),
            r.spec_channels() == self.spec_channels(),
            match sample_rate {
                None => r == self,
                Some(t) => {
                    &&& (t == 0 || t == self.spec_sample_rate()) ==> r == self
                    &&& t >= 1 ==> r.spec_sample_rate() == t
                    &&& (t >= 1 && t != self.spec_sample_rate()) ==> resampler_stage(
                        r,
                        self,
                        t,
                        crate::HIGH_QUALITY_INTERPOLATION,
                    )
                },
            },
    {
        match sample_rate {
            None => self,
            Some(t) => {
                if t == 0 {
                    self
                } else if t == self.sample_rate() {
                    self
                } else {
                    self.into_resampler(t, crate::HIGH_QUALITY_INTERPOLATION)
                }
            },
        }
    }

    /// Wrap the source in a resampler toward `sample_rate`, with the
    /// interpolation algorithm chosen by the quality flag: a
    /// windowed-sinc ring seeded at equilibrium, or a linear
    /// interpolator seeded from the source's first two frames.
    pub fn into_resampler(self, sample_rate: u32, high_quality: bool) -> (r: Source)
        requires
            self.wf(),
            sample_rate >= 1,
        ensures
            r.wf(),
            r.spec_sample_rate() == sample_rate,
            r.spec_channels() == self.spec_channels(),
            r.loaded().len() == 0,
            resampler_stage(r, self, sample_rate, high_quality),
    {
        let ghost pre = self;
        let from_rate = self.sample_rate;
        let channels = self.channels;
        let mut inner = self;
        let interp = if high_quality {
            InterpState::Sinc(SincState::new())
        } else {
            let left = pull_frame(&mut inner);
            let right = pull_frame(&mut inner);
            proof {
                let w: int = if pre.spec_channels() == Channels::Stereo {
                    2
                } else {
                    1
                };
                if pre.loaded().len() >= 2 * w {
                    assert(inner.loaded() =~= pre.loaded().skip(2 * w));
                }
            }
            InterpState::Linear(LinearState::new(left, right))
        };
        let rs = Resampler {
            inner: Box::new(inner),
            from_rate,
            to_rate: sample_rate,
            num: 0,
            interp,
            inner_done: false,
            pending: None,
        };
        match channels {
            Channels::Mono => Source {
                reader: SourceReader::MonoResampler(rs),
                sample_rate,
                channels,
            },
            Channels::Stereo => Source {
                reader: SourceReader::StereoResampler(rs),
                sample_rate,
                channels,
            },
        }
    }

    /// Canonicalize against a device: convert layout and rate to the
    /// sink's, ordering the two stages by cost. When the device has
    /// fewer channels than the source, the layout is collapsed first
    /// so the resampler works on fewer channels; otherwise the rate
    /// is converted first so duplicated channels are not interpolated
    /// twice.
    pub fn canonicalize<S: crate::sink::Sink>(self, sink: &S) -> (r: Source)
        requires
            self.wf(),
        ensures
            r.wf(),
            match sink.spec_channels() {
                Some(c) => r.spec_channels() == c,
                None => r.spec_channels() == self.spec_channels(),
            },
            match sink.spec_sample_rate() {
                Some(t) => r.spec_sample_rate() == t,
                None => r.spec_sample_rate() == self.spec_sample_rate(),
            },
            // nothing to convert: the source passes through untouched
            ((match sink.spec_channels() {
                Some(c) => c == self.spec_channels(),
                None => true,
            }) && (match sink.spec_sample_rate() {
                Some(t) => t == self.spec_sample_rate(),
                None => true,
            })) ==> r == self,
            // a layout-only conversion carries the audio through the
            // channel converter
            (match sink.spec_sample_rate() {
                Some(t) => t == self.spec_sample_rate(),
                None => true,
            }) ==> {
                &&& (self.spec_channels() == Channels::Mono && sink.spec_channels() == Some(
                    Channels::Stereo,
                )) ==> r.loaded() == dup_each(self.loaded()) && r.may_continue()
                    == self.may_continue()
                &&& (self.spec_channels() == Channels::Stereo && sink.spec_channels() == Some(
                    Channels::Mono,
                )) ==> r.loaded() == stm_seq(self.loaded(), self.may_continue())
                    && r.may_continue() == self.may_continue()
            },
            // both conversions: the stages nest in cost order — the
            // layout collapse sits beneath the resampler when the
            // device has fewer channels, and the duplication sits
            // above it when it has more
            match (sink.spec_channels(), sink.spec_sample_rate()) {
                (Some(c), Some(t)) => (c != self.spec_channels() && t >= 1 && t
                    != self.spec_sample_rate()) ==> (if self.spec_channels() == Channels::Stereo {
                    match r.reader {
                        SourceReader::MonoResampler(rs) => rs.to_rate == t && rs.from_rate
                            == self.spec_sample_rate() && rs.num == 0 && !rs.inner_done && (
                        match rs.inner.reader {
                            SourceReader::StereoToMono(_) => true,
                            _ => false,
                        }) && (crate::HIGH_QUALITY_INTERPOLATION ==> (match rs.inner.reader {
                            SourceReader::StereoToMono(orig) => *orig == self,
                            _ => false,
                        })),
                        _ => false,
                    }
                } else {
                    match r.reader {
                        SourceReader::MonoToStereo(mid, cache) => cache is None
                            && resampler_stage(*mid, self, t, crate::HIGH_QUALITY_INTERPOLATION),
                        _ => false,
                    }
                }),
                _ => true,
            },
    {
        let sink_channels = crate::sink::Sink::channels(sink);
        let device_has_fewer: bool = match (&sink_channels, self.channels()) {
            (Some(Channels::Mono), Channels::Stereo) => true,
            _ => false,
        };
        if device_has_fewer {
            // collapsing first is cheaper: the resampler then runs on
            // fewer channels per frame
            self.with_channels(sink_channels).with_sample_rate(crate::sink::Sink::sample_rate(sink))
        } else {
            // duplicating after resampling avoids interpolating what
            // will become two identical channels
            self.with_sample_rate(crate::sink::Sink::sample_rate(sink)).with_channels(sink_channels)
        }
    }
}

/// Pull one frame from a source: its next `channel count` samples,
/// with equilibrium standing in for whatever the source no longer
/// yields.
fn pull_frame(src: &mut Source) -> (f: Frame)
    requires
        old(src).wf(),
    ensures
        final(src).wf(),
        final(src).spec_sample_rate() == old(src).spec_sample_rate(),
        final(src).spec_channels() == old(src).spec_channels(),
        final(src).depth() == old(src).depth(),
        same_variant(*final(src), *old(src)),
        old(src).spec_channels() == Channels::Mono ==> {
            &&& f.c1 == 0
            &&& old(src).loaded().len() >= 1 ==> f.c0 == old(src).loaded()[0] && final(
                src).loaded() == old(src).loaded().skip(1) && final(src).may_continue() == old(
                src).may_continue()
            &&& old(src).exhausted() ==> f.c0 == 0 && final(src).exhausted()
        },
        old(src).spec_channels() == Channels::Stereo ==> {
            &&& old(src).loaded().len() >= 2 ==> f.c0 == old(src).loaded()[0] && f.c1 == old(
                src).loaded()[1] && final(src).loaded() == old(src).loaded().skip(2) && final(
                src).may_continue() == old(src).may_continue()
            &&& old(src).exhausted() ==> f == (Frame { c0: 0i64, c1: 0i64 }) && final(
                src).exhausted()
        },
{
    let ghost pre = *src;
    let c0 = match src.next() {
        Some(s) => s,
        None => 0,
    };
    let c1 = match src.channels() {
        Channels::Stereo => match src.next() {
            Some(s) => s,
            None => 0,
        },
        Channels::Mono => 0,
    };
    proof {
        if pre.spec_channels() == Channels::Stereo && pre.loaded().len() >= 2 {
            assert(src.loaded() =~= pre.loaded().skip(2));
        }
    }
    Frame { c0, c1 }
}

/// Copy a borrowed byte slice into an owned buffer.
fn slice_to_vec(data: &[u8]) -> (r: Vec<u8>)
    ensures
        r@ == data@,
{
    let mut r: Vec<u8> = Vec::new();
    let n: usize = data.len();
    let mut i: usize = 0;
    while i < n
        invariant
            i <= n == data@.len(),
            r@ == data@.take(i as int),
        decreases n - i,
    {
        r.push(data[i]);
        proof {
            assert(r@ =~= data@.take(i + 1));
        }
        i = i + 1;
    }
    proof {
        assert(data@.take(n as int) =~= data@);
    }
    r
}

} // verus!

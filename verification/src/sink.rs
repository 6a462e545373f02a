//! The capability surface exposed to producers of sound, and the
//! verified core of the real-device sink.
//!
//! A `Sink` accepts sources to play and answers capability queries:
//! the device's channel layout and sample rate, immutable once a
//! device is open. `AudioThread` is the real sink: it owns the mixer
//! the output callback drains. `DummySink` stands in when no device
//! could be negotiated: it accepts and discards everything, and
//! reports no capabilities, so callers run unmodified without audio.
//!
//! The pieces the host audio library performs — opening the device,
//! the output stream and its callback thread — live outside the
//! library; this module holds what they decide on: format
//! negotiation, the play operations on the mixer, and the
//! callback thread's termination protocol.

use vstd::prelude::*;

use crate::mixer::{MixEntry, Mixer};
use crate::source::Source;
use crate::Channels;

verus! {

/// The preferred output sample rate, taken when the device's
/// supported range includes it.
pub const TARGET_SAMPLE_RATE: u32 = 44100;

/// The capability surface: play a source into the mix, replace a
/// named singleton, and query the device format.
pub trait Sink: Sized {
    /// The sink's internal consistency; established at construction
    /// and preserved by every operation.
    spec fn wf(&self) -> bool;

    /// The device's channel layout, or nothing when no device is
    /// available.
    spec fn spec_channels(&self) -> Option<Channels>;

    /// The device's sample rate, or nothing when no device is
    /// available.
    spec fn spec_sample_rate(&self) -> Option<u32>;

    /// What `play` did, as each implementation pins it down.
    spec fn play_post(pre: Self, post: Self, name: Option<String>, source: Source) -> bool;

    /// What `play_singleton` did, as each implementation pins it
    /// down.
    spec fn play_singleton_post(pre: Self, post: Self, name: String, source: Source) -> bool;

    /// Make the source part of the mix. The device format never
    /// changes for the lifetime of the sink.
    fn play(&mut self, name: Option<String>, source: Source)
        requires
            old(self).wf(),
            source.wf(),
        ensures
            final(self).wf(),
            Self::play_post(*old(self), *final(self), name, source),
            final(self).spec_channels() == old(self).spec_channels(),
            final(self).spec_sample_rate() == old(self).spec_sample_rate(),
    ;

    /// Replace whatever plays under `name` with this source: at most
    /// one live entry per name.
    fn play_singleton(&mut self, name: String, source: Source)
        requires
            old(self).wf(),
            source.wf(),
        ensures
            final(self).wf(),
            Self::play_singleton_post(*old(self), *final(self), name, source),
            final(self).spec_channels() == old(self).spec_channels(),
            final(self).spec_sample_rate() == old(self).spec_sample_rate(),
    ;

    /// The device's channel layout, if one is open.
    fn channels(&self) -> (r: Option<Channels>)
        ensures
            r == self.spec_channels(),
    ;

    /// The device's sample rate in Hz, if one is open; never zero.
    fn sample_rate(&self) -> (r: Option<u32>)
        ensures
            r == self.spec_sample_rate(),
            match r {
                Some(t) => t >= 1,
                None => true,
            },
    ;
}

/// The sink used when no output device is available: it accepts and
/// silently discards every source, and reports no capabilities.
pub struct DummySink;

impl Sink for DummySink {
    open spec fn wf(&self) -> bool {
        true
    }

    open spec fn spec_channels(&self) -> Option<Channels> {
        None
    }

    open spec fn spec_sample_rate(&self) -> Option<u32> {
        None
    }

    open spec fn play_post(pre: Self, post: Self, name: Option<String>, source: Source) -> bool {
        true
    }

    open spec fn play_singleton_post(pre: Self, post: Self, name: String, source: Source) -> bool {
        true
    }

    fn play(&mut self, name: Option<String>, source: Source) {
    }

    fn play_singleton(&mut self, name: String, source: Source) {
    }

    fn channels(&self) -> (r: Option<Channels>) {
        None
    }

    fn sample_rate(&self) -> (r: Option<u32>) {
        None
    }
}

/// The format snapshot taken once at device-open time; it never
/// changes for the lifetime of a sink. Only formats the pipeline can
/// serve exist: one or two channels, a positive rate.
pub struct DeviceFormat {
    channels: u16,
    sample_rate: u32,
}

impl DeviceFormat {
    /// Only negotiable formats are representable.
    #[verifier::type_invariant]
    pub closed spec fn inv(self) -> bool {
        1 <= self.channels <= 2 && 1 <= self.sample_rate
    }

    /// The device's channel count.
    pub closed spec fn spec_channels_count(self) -> u16 {
        self.channels
    }

    /// The device's sample rate in Hz.
    pub closed spec fn spec_sample_rate(self) -> u32 {
        self.sample_rate
    }

    /// Take the format snapshot, rejecting anything the pipeline
    /// cannot serve: more than two channels, no channels, or a zero
    /// rate.
    pub fn new(channels: u16, sample_rate: u32) -> (r: Option<DeviceFormat>)
        ensures
            match r {
                Some(f) => 1 <= channels <= 2 && sample_rate >= 1 && f.spec_channels_count()
                    == channels && f.spec_sample_rate() == sample_rate,
                None => !(1 <= channels <= 2 && sample_rate >= 1),
            },
    {
        if 1 <= channels && channels <= 2 && sample_rate >= 1 {
            Some(DeviceFormat { channels, sample_rate })
        } else {
            None
        }
    }

    /// The device's channel count: one or two.
    pub fn channels_count(&self) -> (r: u16)
        ensures
            r == self.spec_channels_count(),
            1 <= r <= 2,
    {
        proof {
            use_type_invariant(&*self);
        }
        self.channels
    }

    /// The device's sample rate; never zero.
    pub fn sample_rate(&self) -> (r: u32)
        ensures
            r == self.spec_sample_rate(),
            r >= 1,
    {
        proof {
            use_type_invariant(&*self);
        }
        self.sample_rate
    }
}

/// One supported output configuration as the host reports it: a
/// channel count and an inclusive sample-rate range.
#[derive(Copy, Clone, PartialEq, Eq, Structural, Debug)]
pub struct SupportedFormatRange {
    /// The configuration's channel count.
    pub channels: u16,
    /// The lowest supported rate, in Hz.
    pub min_sample_rate: u32,
    /// The highest supported rate, in Hz.
    pub max_sample_rate: u32,
}

/// Negotiate the output format. From the host's best supported
/// configuration, prefer the target rate when its range includes it
/// and fall back to the range's top; with no reported configurations,
/// take the device's own default. Formats the pipeline cannot serve
/// are rejected, and rejection means a dummy sink, not a failure.
pub fn negotiate_format(best: Option<SupportedFormatRange>, fallback: Option<DeviceFormat>) -> (r:
    Option<DeviceFormat>)
    ensures
        match best {
            Some(f) => {
                let rate = if f.min_sample_rate <= TARGET_SAMPLE_RATE && TARGET_SAMPLE_RATE
                    <= f.max_sample_rate {
                    TARGET_SAMPLE_RATE
                } else {
                    f.max_sample_rate
                };
                match r {
                    Some(d) => 1 <= f.channels <= 2 && rate >= 1 && d.spec_channels_count()
                        == f.channels && d.spec_sample_rate() == rate,
                    None => !(1 <= f.channels <= 2 && rate >= 1),
                }
            },
            None => r == fallback,
        },
{
    match best {
        Some(f) => {
            let rate: u32 = if f.min_sample_rate <= TARGET_SAMPLE_RATE && TARGET_SAMPLE_RATE
                <= f.max_sample_rate {
                TARGET_SAMPLE_RATE
            } else {
                f.max_sample_rate
            };
            DeviceFormat::new(f.channels, rate)
        },
        None => fallback,
    }
}

/// The real-device sink: the mixer the output callback drains, and
/// the format snapshot the device was opened with. The host-facing
/// stream, thread and lock live with the embedder; everything they
/// decide on stands here.
pub struct AudioThread {
    /// The shared collection of playing sources.
    pub mixer: Mixer,
    /// The format snapshot the device was opened with.
    pub format: DeviceFormat,
}

impl AudioThread {
    /// A sink for a freshly opened device: an empty mix at the
    /// negotiated format.
    pub fn new(format: DeviceFormat) -> (r: AudioThread)
        ensures
            r.wf(),
            r.mixer.entries@.len() == 0,
            r.spec_sample_rate() == Some(format.spec_sample_rate()),
    {
        proof {
            use_type_invariant(&format);
        }
        AudioThread { mixer: Mixer::new(), format }
    }
}

impl Sink for AudioThread {
    open spec fn wf(&self) -> bool {
        self.mixer.wf()
    }

    closed spec fn spec_channels(&self) -> Option<Channels> {
        if self.format.spec_channels_count() == 1 {
            Some(Channels::Mono)
        } else if self.format.spec_channels_count() == 2 {
            Some(Channels::Stereo)
        } else {
            None
        }
    }

    closed spec fn spec_sample_rate(&self) -> Option<u32> {
        Some(self.format.spec_sample_rate())
    }

    /// Playing appends one entry to the mix; nothing else moves.
    open spec fn play_post(pre: Self, post: Self, name: Option<String>, source: Source) -> bool {
        post.mixer.entries@ == pre.mixer.entries@.push(
            MixEntry { name, peeked: None, source },
        )
    }

    /// Replacing a singleton leaves exactly one entry under the name
    /// — the new source, at the end — and, by swap-removal, keeps
    /// every entry under any other name exactly as it was.
    open spec fn play_singleton_post(pre: Self, post: Self, name: String, source: Source) -> bool {
        &&& post.mixer.entries@.len() >= 1
        &&& post.mixer.entries@.last() == (MixEntry {
            name: Some(name),
            peeked: None,
            source,
        })
        &&& forall|i: int|
            0 <= i < post.mixer.entries@.len() - 1 ==> !(#[trigger] post.mixer.entries@[i]).named(
                name@,
            )
        &&& forall|e: MixEntry|
            !e.named(name@) ==> post.mixer.entries@.drop_last().to_multiset().count(e)
                == pre.mixer.entries@.to_multiset().count(e)
    }

    fn play(&mut self, name: Option<String>, source: Source) {
        self.mixer.add(name, source);
    }

    fn play_singleton(&mut self, name: String, source: Source) {
        let ghost pre_entries = self.mixer.entries@;
        self.mixer.remove(&name);
        let ghost removed_entries = self.mixer.entries@;
        let name_for_entry = name;
        self.mixer.add(Some(name_for_entry), source);
        proof {
            assert(self.mixer.entries@.drop_last() =~= removed_entries);
        }
    }

    fn channels(&self) -> (r: Option<Channels>) {
        let c = self.format.channels_count();
        if c == 1 {
            Some(Channels::Mono)
        } else if c == 2 {
            Some(Channels::Stereo)
        } else {
            None
        }
    }

    fn sample_rate(&self) -> (r: Option<u32>) {
        Some(self.format.sample_rate())
    }
}

/// The life of the callback thread. The host's event loop offers no
/// cooperative exit, so the control side raises a flag and the
/// callback observes it at the top of each buffer fill: running,
/// then stop requested, then terminated.
#[derive(Copy, Clone, PartialEq, Eq, Structural, Debug)]
pub enum ThreadLife {
    /// The callback thread serves buffer fills.
    Running,
    /// The control side has asked the thread to stop; the callback
    /// finishes its current buffer first.
    StopRequested,
    /// The callback thread has exited.
    Terminated,
}

impl ThreadLife {
    /// Control side: ask the callback thread to stop. Only a running
    /// thread moves; requesting twice is harmless.
    pub fn request_stop(self) -> (r: ThreadLife)
        ensures
            r == if self is Running {
                ThreadLife::StopRequested
            } else {
                self
            },
    {
        match self {
            ThreadLife::Running => ThreadLife::StopRequested,
            other => other,
        }
    }

    /// Callback side: having finished the current buffer, take a
    /// requested stop.
    pub fn acknowledge_stop(self) -> (r: ThreadLife)
        ensures
            r == if self is StopRequested {
                ThreadLife::Terminated
            } else {
                self
            },
    {
        match self {
            ThreadLife::StopRequested => ThreadLife::Terminated,
            other => other,
        }
    }

    /// Whether the callback should exit after the current buffer.
    pub fn should_exit(self) -> (r: bool)
        ensures
            r == (self is StopRequested),
    {
        match self {
            ThreadLife::StopRequested => true,
            _ => false,
        }
    }
}

} // verus!

//! A pull-based audio pipeline: decoders for WAV and Ogg/Vorbis assets,
//! sample-rate conversion, channel up/down-mixing, and a mixer that sums
//! an arbitrary number of concurrently playing sources into one sequence
//! for a hardware output callback.
//!
//! Samples are carried as fixed-point signed amplitudes (`SampleFormat`):
//! an amplitude of full scale 1.0 is `AMP_ONE`. The wider fixed-point
//! domain exists because the resampler's internal state needs fractional
//! precision higher than the eventual output format.

pub mod assets;
pub mod interp;
pub mod mixer;
pub mod music;
pub mod ogg;
pub mod sample_ops;
pub mod sink;
pub mod source;
pub mod util;
pub mod wav;

use vstd::prelude::*;

verus! {

/// The canonical sample representation flowing through the pipeline:
/// a signed fixed-point amplitude, where `AMP_ONE` stands for full scale.
pub type SampleFormat = i64;

/// Fixed-point scale: the amplitude value that stands for full scale 1.0.
pub const AMP_ONE: i64 = 0x1_0000_0000;

/// Which interpolation algorithm the resampler uses, fixed at build
/// time: windowed-sinc when set, two-point linear otherwise.
pub const HIGH_QUALITY_INTERPOLATION: bool = true;

/// Why opening an asset failed. Asset malformation is fatal for that
/// asset at open time; the caller must not attempt playback of a
/// source that failed to open.
#[derive(Copy, Clone, PartialEq, Eq, Structural, Debug)]
pub enum DecodeError {
    /// The container header is not well formed (or is truncated).
    MalformedContainer,
    /// The container is well formed but uses an encoding outside the
    /// supported set (bit depth, sample format or channel count).
    UnsupportedFormat,
    /// The compressed stream could not be opened by the codec.
    MalformedStream,
}

/// A two-valued channel layout. Constructible only from the channel
/// counts 1 (mono) and 2 (stereo); every other count is an error.
#[derive(Copy, Clone, PartialEq, Eq, Structural, Debug)]
pub enum Channels {
    Stereo,
    Mono,
}

impl Channels {
    /// The number of interleaved samples in one frame of this layout.
    pub open spec fn spec_count(self) -> nat {
        match self {
            Channels::Mono => 1,
            Channels::Stereo => 2,
        }
    }

    /// Classify a raw channel count: 1 is mono, 2 is stereo, anything
    /// else is a construction error.
    pub fn try_from(channels: u32) -> (r: Result<Channels, ()>)
        ensures
            channels == 1 ==> r == Ok::<Channels, ()>(Channels::Mono),
            channels == 2 ==> r == Ok::<Channels, ()>(Channels::Stereo),
            channels != 1 && channels != 2 ==> r == Err::<Channels, ()>(()),
    {
        match channels {
            1 => Ok(Channels::Mono),
            2 => Ok(Channels::Stereo),
            _ => Err(()),
        }
    }

    /// The number of interleaved samples in one frame of this layout.
    pub fn count(self) -> (r: u32)
        ensures r == self.spec_count(),
    {
        match self {
            Channels::Mono => 1,
            Channels::Stereo => 2,
        }
    }
}

} // verus!


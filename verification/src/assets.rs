//! In-memory asset buffers, tagged by container format.
//!
//! Assets reach the pipeline as already-loaded byte buffers; file I/O
//! and packaging are external collaborators. The accessors demand the
//! matching variant: unwrapping an asset as the wrong file type is a
//! programming error, not a recoverable condition.

use vstd::prelude::*;

verus! {

/// An opaque byte buffer tagged by its container format.
pub enum Asset {
    Ogg(&'static [u8]),
    Txt(&'static [u8]),
    Wav(&'static [u8]),
}

impl Asset {
    /// The bytes of an Ogg/Vorbis asset.
    pub fn ogg_data(&self) -> (r: &'static [u8])
        requires
            self is Ogg,
        ensures
            r@ == self->Ogg_0@,
    {
        match self {
            Asset::Ogg(data) => data,
            _ => unreached(),
        }
    }

    /// The bytes of a text asset.
    pub fn txt_data(&self) -> (r: &'static [u8])
        requires
            self is Txt,
        ensures
            r@ == self->Txt_0@,
    {
        match self {
            Asset::Txt(data) => data,
            _ => unreached(),
        }
    }

    /// The bytes of a PCM WAV asset.
    pub fn wav_data(&self) -> (r: &'static [u8])
        requires
            self is Wav,
        ensures
            r@ == self->Wav_0@,
    {
        match self {
            Asset::Wav(data) => data,
            _ => unreached(),
        }
    }
}

} // verus!

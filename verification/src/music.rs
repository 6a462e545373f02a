//! The background music: a playlist of compressed parts decoded,
//! chained into one continuous sequence and canonicalized against
//! the output device.

use vstd::prelude::*;

use crate::assets::Asset;
use crate::ogg::ogg_open_of;
use crate::sink::Sink;
use crate::source::Source;
use crate::wav::{spec_wav_parse, wav_amps};
use crate::Channels;

verus! {

/// The rate and layout a part opens with, when it opens at all: the
/// parsed WAV header, or the accepted Ogg identification header.
pub open spec fn spec_part_format(a: Asset) -> Option<(u32, Channels)> {
    match a {
        Asset::Wav(data) => match spec_wav_parse(data@) {
            Ok(info) => Some((info.sample_rate, info.channels)),
            Err(_) => None,
        },
        Asset::Ogg(data) => match ogg_open_of(data@) {
            Some(ident) => if ident.sample_rate >= 1 && (ident.channels == 1 || ident.channels
                == 2) {
                Some(
                    (
                        ident.sample_rate,
                        if ident.channels == 1 {
                            Channels::Mono
                        } else {
                            Channels::Stereo
                        },
                    ),
                )
            } else {
                None
            },
            None => None,
        },
        Asset::Txt(_) => None,
    }
}

/// The samples a part is known to yield right after opening: a WAV
/// part's whole data chunk; a compressed part decodes lazily, so
/// nothing yet.
pub open spec fn spec_part_loaded(a: Asset) -> Seq<i64> {
    match a {
        Asset::Wav(data) => match spec_wav_parse(data@) {
            Ok(info) => wav_amps(data@, info),
            Err(_) => seq![],
        },
        _ => seq![],
    }
}

/// Whether a part may yield more than its known samples: compressed
/// parts may, a fully parsed WAV part may not.
pub open spec fn spec_part_may_continue(a: Asset) -> bool {
    a is Ogg
}

/// The known samples of the first `n` parts chained in order, exactly
/// as `chain` combines them: a part's samples join the sequence only
/// once everything before it is complete.
pub open spec fn spec_playlist_loaded(parts: Seq<Asset>, n: int) -> Seq<i64>
    decreases n,
{
    if n <= 1 {
        spec_part_loaded(parts[0])
    } else if spec_playlist_may(parts, n - 1) {
        spec_playlist_loaded(parts, n - 1)
    } else {
        spec_playlist_loaded(parts, n - 1) + spec_part_loaded(parts[n - 1])
    }
}

/// Whether the first `n` chained parts may yield more than their
/// known samples.
pub open spec fn spec_playlist_may(parts: Seq<Asset>, n: int) -> bool
    decreases n,
{
    if n <= 1 {
        spec_part_may_continue(parts[0])
    } else {
        spec_playlist_may(parts, n - 1) || spec_part_may_continue(parts[n - 1])
    }
}

/// Open every part of the track, chain them in order into one
/// continuous source, and canonicalize it against the sink's device
/// format. Succeeds whenever every part opens and all agree on rate
/// and layout; it yields nothing exactly when a part fails to open or
/// the parts disagree — chaining mismatched sources is not
/// meaningful.
pub fn vlem<S: Sink>(parts: &Vec<Asset>, sink: &S) -> (r: Option<Source>)
    requires
        parts@.len() > 0,
        forall|i: int| 0 <= i < parts@.len() ==> !((#[trigger] parts@[i]) is Txt),
    ensures
        match r {
            Some(s) => {
                &&& s.wf()
                &&& match sink.spec_channels() {
                    Some(c) => s.spec_channels() == c,
                    None => true,
                }
                &&& match sink.spec_sample_rate() {
                    Some(t) => s.spec_sample_rate() == t,
                    None => true,
                }
                &&& (sink.spec_channels() is None && sink.spec_sample_rate() is None) ==> {
                    &&& s.loaded() == spec_playlist_loaded(parts@, parts@.len() as int)
                    &&& s.may_continue() == spec_playlist_may(parts@, parts@.len() as int)
                }
            },
            None => !((spec_part_format(parts@[0]) is Some) && (forall|i: int|
                0 <= i < parts@.len() ==> #[trigger] spec_part_format(parts@[i])
                    == spec_part_format(parts@[0]))),
        },
{
    let mut acc = match Source::new(&parts[0]) {
        Ok(s) => s,
        Err(_) => {
            proof {
                assert(spec_part_format(parts@[0]) is None);
            }
            return None;
        },
    };
    proof {
        assert(acc.loaded() =~= spec_playlist_loaded(parts@, 1));
    }
    let mut i: usize = 1;
    while i < parts.len()
        invariant
            acc.wf(),
            1 <= i <= parts@.len(),
            forall|k: int| 0 <= k < parts@.len() ==> !((#[trigger] parts@[k]) is Txt),
            spec_part_format(parts@[0]) == Some(
                (acc.spec_sample_rate(), acc.spec_channels()),
            ),
            forall|k: int|
                0 <= k < i ==> #[trigger] spec_part_format(parts@[k]) == spec_part_format(
                    parts@[0],
                ),
            acc.loaded() == spec_playlist_loaded(parts@, i as int),
            acc.may_continue() == spec_playlist_may(parts@, i as int),
        decreases parts@.len() - i,
    {
        let part = match Source::new(&parts[i]) {
            Ok(s) => s,
            Err(_) => {
                proof {
                    assert(spec_part_format(parts@[i as int]) is None);
                    assert(spec_part_format(parts@[i as int]) != spec_part_format(parts@[0]));
                }
                return None;
            },
        };
        if part.sample_rate() != acc.sample_rate() || !(part.channels() == acc.channels()) {
            proof {
                assert(spec_part_format(parts@[i as int]) == Some(
                    (part.spec_sample_rate(), part.spec_channels()),
                ));
                assert(spec_part_format(parts@[i as int]) != spec_part_format(parts@[0]));
            }
            return None;
        }
        let ghost acc0 = acc;
        acc = acc.chain(part);
        proof {
            if part.loaded().len() == 0 {
                assert(part.loaded() =~= Seq::<i64>::empty());
                assert(spec_part_loaded(parts@[i as int]) =~= Seq::<i64>::empty());
            }
            assert(acc.loaded() =~= spec_playlist_loaded(parts@, i as int + 1));
        }
        i = i + 1;
    }
    Some(acc.canonicalize(sink))
}

} // verus!

//! Source pipeline stages: exhaustion latching, rate-conversion
//! elision, channel conversion, concatenation and resampling
//! round trips.

use newton_audio::source::Source;
use newton_audio::{Channels, AMP_ONE};

fn mono(samples: Vec<i64>) -> Source {
    Source::from_iterator(samples, 44100, Channels::Mono)
}

fn collect(s: &mut Source) -> Vec<i64> {
    let mut out = Vec::new();
    while let Some(v) = s.next() {
        out.push(v);
    }
    out
}

#[test]
fn exhaustion_is_idempotent() {
    let mut s = mono(vec![10, 20]);
    assert_eq!(s.next(), Some(10));
    assert_eq!(s.next(), Some(20));
    for _ in 0..32 {
        assert_eq!(s.next(), None);
    }
}

#[test]
fn exhaustion_is_idempotent_through_stages() {
    let inner = mono(vec![1, 2, 3]);
    let mut s = inner.with_channels(Some(Channels::Stereo));
    assert_eq!(collect(&mut s).len(), 6);
    for _ in 0..16 {
        assert_eq!(s.next(), None);
    }
}

#[test]
fn with_sample_rate_elided_when_rate_matches() {
    let s = mono(vec![5, 6, 7]).with_sample_rate(Some(44100));
    assert_eq!(s.sample_rate(), 44100);
    let mut s = s;
    // no stage was added: the samples pass through untouched
    assert_eq!(collect(&mut s), vec![5, 6, 7]);
}

#[test]
fn with_sample_rate_twice_second_is_noop() {
    let once = mono(vec![AMP_ONE; 50]).with_sample_rate(Some(48000));
    let twice = mono(vec![AMP_ONE; 50]).with_sample_rate(Some(48000)).with_sample_rate(
        Some(48000),
    );
    assert_eq!(once.sample_rate(), 48000);
    assert_eq!(twice.sample_rate(), 48000);
    let mut once = once;
    let mut twice = twice;
    // the second application added no stage: outputs agree exactly
    assert_eq!(collect(&mut once), collect(&mut twice));
}

#[test]
fn with_sample_rate_none_is_noop() {
    let mut s = mono(vec![8, 9]).with_sample_rate(None);
    assert_eq!(s.sample_rate(), 44100);
    assert_eq!(collect(&mut s), vec![8, 9]);
}

#[test]
fn mono_to_stereo_duplicates_each_sample() {
    let mut s = mono(vec![3, 5, 7]).with_channels(Some(Channels::Stereo));
    assert!(s.channels() == Channels::Stereo);
    assert_eq!(collect(&mut s), vec![3, 3, 5, 5, 7, 7]);
}

#[test]
fn stereo_to_mono_sums_each_frame() {
    let st = Source::from_iterator(vec![10, 1, 20, 2], 44100, Channels::Stereo);
    let mut s = st.with_channels(Some(Channels::Mono));
    assert!(s.channels() == Channels::Mono);
    assert_eq!(collect(&mut s), vec![11, 22]);
}

#[test]
fn stereo_to_mono_odd_tail_counts_missing_right_as_equilibrium() {
    let st = Source::from_iterator(vec![10, 1, 33], 44100, Channels::Stereo);
    let mut s = st.with_channels(Some(Channels::Mono));
    assert_eq!(collect(&mut s), vec![11, 33]);
}

#[test]
fn with_channels_matching_layout_is_noop() {
    let mut s = mono(vec![4, 5]).with_channels(Some(Channels::Mono));
    assert!(s.channels() == Channels::Mono);
    assert_eq!(collect(&mut s), vec![4, 5]);
}

#[test]
fn chain_plays_back_to_back() {
    let a = mono(vec![1, 2]);
    let b = mono(vec![3, 4]);
    let mut s = a.chain(b);
    assert_eq!(s.next(), Some(1));
    assert_eq!(s.next(), Some(2));
    assert_eq!(s.next(), Some(3));
    assert_eq!(s.next(), Some(4));
    assert_eq!(s.next(), None);
    assert_eq!(s.next(), None);
}

#[test]
fn linear_resampling_keeps_constant_amplitude_exactly() {
    let amp = AMP_ONE / 2;
    let up = mono(vec![amp; 200]).into_resampler(48000, false);
    let mut back = up.into_resampler(44100, false);
    let out = collect(&mut back);
    assert!(out.len() > 100);
    for v in &out {
        assert_eq!(*v, amp);
    }
}

#[test]
fn sinc_resampling_round_trip_bounded_error() {
    let amp = AMP_ONE / 2;
    let up = mono(vec![amp; 400]).into_resampler(48000, true);
    let mut back = up.into_resampler(44100, true);
    let out = collect(&mut back);
    assert!(out.len() > 300);
    // the ring starts at equilibrium, so skip the transient and
    // check the steady region stays within a small bounded error
    for v in &out[150..300] {
        assert!((v - amp).abs() <= amp / 32, "sample {} strays from {}", v, amp);
    }
}

#[test]
fn resampler_changes_reported_rate() {
    let s = mono(vec![0; 10]).with_sample_rate(Some(22050));
    assert_eq!(s.sample_rate(), 22050);
    assert!(s.channels() == Channels::Mono);
}

#[test]
fn stereo_resampling_keeps_constant_frames_exactly_linear() {
    let mut frames: Vec<i64> = Vec::new();
    for _ in 0..100 {
        frames.push(1000);
        frames.push(-500);
    }
    let st = Source::from_iterator(frames, 44100, Channels::Stereo);
    let mut out_src = st.into_resampler(48000, false);
    let out = collect(&mut out_src);
    assert!(out.len() > 100);
    for (i, v) in out.iter().enumerate() {
        if i % 2 == 0 {
            assert_eq!(*v, 1000);
        } else {
            assert_eq!(*v, -500);
        }
    }
}

#[test]
fn empty_source_is_born_exhausted() {
    let mut s = mono(vec![]);
    for _ in 0..8 {
        assert_eq!(s.next(), None);
    }
}

#[test]
fn chain_of_empty_sources_is_exhausted() {
    let a = mono(vec![]);
    let b = mono(vec![]);
    let mut s = a.chain(b);
    assert_eq!(s.next(), None);
    assert_eq!(s.next(), None);
}

#[test]
fn sinc_downsampling_by_two_is_exact_once_ring_fills() {
    // halving the rate keeps the read position on whole frames, where
    // the windowed-sinc kernel is exact: after the equilibrium-seeded
    // ring fills with the constant, every output equals it
    let amp = AMP_ONE / 2;
    let mut down = mono(vec![amp; 400]).into_resampler(22050, true);
    let out = collect(&mut down);
    assert!(out.len() > 150);
    for v in &out[100..150] {
        assert_eq!(*v, amp);
    }
}

//! Mixer and sink behaviour: silence, summation, singleton
//! replacement, swap-remove eviction, format negotiation, the
//! termination protocol, and the helper utilities.

use newton_audio::mixer::Mixer;
use newton_audio::sample_ops::{amp_to_i16, amp_to_u16, sat_add};
use newton_audio::sink::{
    negotiate_format, AudioThread, DeviceFormat, DummySink, Sink, SupportedFormatRange, ThreadLife,
};
use newton_audio::source::Source;
use newton_audio::util::{clamp, prefer, prefer_fn};
use newton_audio::{Channels, AMP_ONE};

fn mono(samples: Vec<i64>) -> Source {
    Source::from_iterator(samples, 44100, Channels::Mono)
}

#[test]
fn empty_mix_is_silence() {
    let mut m = Mixer::new();
    assert_eq!(m.next(), 0);
    assert_eq!(m.next(), 0);
}

#[test]
fn mixing_silent_sources_yields_equilibrium() {
    let mut m = Mixer::new();
    for _ in 0..5 {
        m.add(None, mono(vec![0; 8]));
    }
    for _ in 0..8 {
        assert_eq!(m.next(), 0);
    }
}

#[test]
fn mixing_two_equal_sources_doubles_amplitude() {
    let a = AMP_ONE / 4;
    let mut m = Mixer::new();
    m.add(None, mono(vec![a; 4]));
    m.add(None, mono(vec![a; 4]));
    for _ in 0..4 {
        assert_eq!(m.next(), 2 * a);
    }
}

#[test]
fn exhausted_entries_are_evicted_without_disturbing_others() {
    let mut m = Mixer::new();
    m.add(Some("short".to_string()), mono(vec![1, 2]));
    m.add(None, mono(vec![5, 5, 5, 5]));
    m.add(None, mono(vec![7, 7, 7, 7]));
    assert_eq!(m.next(), 1 + 5 + 7);
    assert_eq!(m.next(), 2 + 5 + 7);
    // the short source is exhausted now: the sweep drops it and the
    // others play on, unchanged in their own sequence
    assert_eq!(m.next(), 5 + 7);
    assert_eq!(m.entries.len(), 2);
    assert_eq!(m.next(), 5 + 7);
    assert_eq!(m.next(), 0);
    assert_eq!(m.entries.len(), 0);
}

#[test]
fn remove_matches_exact_name_only() {
    let mut m = Mixer::new();
    m.add(Some("x".to_string()), mono(vec![1]));
    m.add(Some("y".to_string()), mono(vec![2]));
    m.add(None, mono(vec![3]));
    m.add(Some("x".to_string()), mono(vec![4]));
    m.remove(&"x".to_string());
    assert_eq!(m.entries.len(), 2);
    for e in &m.entries {
        assert!(e.name != Some("x".to_string()));
    }
}

#[test]
fn play_singleton_replaces_prior_entry() {
    let format = DeviceFormat::new(2, 44100).unwrap();
    let mut at = AudioThread::new(format);
    at.play_singleton("x".to_string(), mono(vec![1, 2, 3]));
    at.play_singleton("x".to_string(), mono(vec![7, 8, 9]));
    let named: Vec<usize> = (0..at.mixer.entries.len())
        .filter(|i| at.mixer.entries[*i].name == Some("x".to_string()))
        .collect();
    assert_eq!(named.len(), 1);
    // the surviving entry plays the second source
    let idx = named[0];
    assert_eq!(at.mixer.entries[idx].source.next(), Some(7));
}

#[test]
fn play_adds_to_the_mix() {
    let format = DeviceFormat::new(1, 48000).unwrap();
    let mut at = AudioThread::new(format);
    assert_eq!(at.mixer.entries.len(), 0);
    at.play(None, mono(vec![1]));
    at.play(Some("bgm".to_string()), mono(vec![2]));
    assert_eq!(at.mixer.entries.len(), 2);
    assert!(at.channels() == Some(Channels::Mono));
    assert_eq!(at.sample_rate(), Some(48000));
}

#[test]
fn dummy_sink_reports_nothing_and_discards() {
    let mut d = DummySink;
    assert!(d.channels().is_none());
    assert!(d.sample_rate().is_none());
    d.play(None, mono(vec![1, 2]));
    d.play_singleton("x".to_string(), mono(vec![3]));
}

#[test]
fn negotiation_prefers_target_rate_when_in_range() {
    let best = SupportedFormatRange { channels: 2, min_sample_rate: 8000, max_sample_rate: 96000 };
    let f = negotiate_format(Some(best), None).unwrap();
    assert_eq!(f.sample_rate(), 44100);
    assert_eq!(f.channels_count(), 2);
}

#[test]
fn negotiation_falls_back_to_range_top() {
    let best = SupportedFormatRange { channels: 1, min_sample_rate: 8000, max_sample_rate: 22050 };
    let f = negotiate_format(Some(best), None).unwrap();
    assert_eq!(f.sample_rate(), 22050);
    assert_eq!(f.channels_count(), 1);
}

#[test]
fn negotiation_rejects_wide_layouts() {
    let best = SupportedFormatRange { channels: 6, min_sample_rate: 8000, max_sample_rate: 96000 };
    assert!(negotiate_format(Some(best), None).is_none());
}

#[test]
fn negotiation_uses_device_default_without_reported_formats() {
    let fallback = DeviceFormat::new(2, 48000);
    let f = negotiate_format(None, fallback).unwrap();
    assert_eq!(f.sample_rate(), 48000);
    assert_eq!(f.channels_count(), 2);
}

#[test]
fn device_format_rejects_unusable_snapshots() {
    assert!(DeviceFormat::new(0, 44100).is_none());
    assert!(DeviceFormat::new(3, 44100).is_none());
    assert!(DeviceFormat::new(2, 0).is_none());
}

#[test]
fn canonicalize_matches_device_format() {
    let format = DeviceFormat::new(2, 48000).unwrap();
    let at = AudioThread::new(format);
    let s = mono(vec![0; 32]).canonicalize(&at);
    assert!(s.channels() == Channels::Stereo);
    assert_eq!(s.sample_rate(), 48000);
    // against a dummy sink nothing changes
    let d = DummySink;
    let s2 = mono(vec![0; 4]).canonicalize(&d);
    assert!(s2.channels() == Channels::Mono);
    assert_eq!(s2.sample_rate(), 44100);
}

#[test]
fn termination_protocol_steps() {
    let life = ThreadLife::Running;
    assert!(!life.should_exit());
    let life = life.request_stop();
    assert!(life == ThreadLife::StopRequested);
    assert!(life.should_exit());
    // requesting again does not move the machine
    assert!(life.request_stop() == ThreadLife::StopRequested);
    let life = life.acknowledge_stop();
    assert!(life == ThreadLife::Terminated);
    assert!(!life.should_exit());
    assert!(life.request_stop() == ThreadLife::Terminated);
}

#[test]
fn output_sample_conversions() {
    assert_eq!(amp_to_i16(0), 0);
    assert_eq!(amp_to_i16(AMP_ONE), 32767);
    assert_eq!(amp_to_i16(-AMP_ONE), -32768);
    assert_eq!(amp_to_i16(AMP_ONE / 2), 16384);
    assert_eq!(amp_to_i16(1000 * 0x2_0000), 1000);
    assert_eq!(amp_to_u16(0), 32768);
    assert_eq!(amp_to_u16(-AMP_ONE), 0);
    assert_eq!(amp_to_u16(AMP_ONE), 65535);
}

#[test]
fn saturating_addition_clamps() {
    assert_eq!(sat_add(1, 2), 3);
    assert_eq!(sat_add(i64::MAX, 1), i64::MAX);
    assert_eq!(sat_add(i64::MIN, -1), i64::MIN);
    assert_eq!(sat_add(-5, 5), 0);
}

#[test]
fn clamp_selects_bound_or_value() {
    assert_eq!(clamp(5u32, 1, 10), 5);
    assert_eq!(clamp(0u32, 1, 10), 1);
    assert_eq!(clamp(99u32, 1, 10), 10);
}

#[test]
fn prefer_picks_first_wanted_supported() {
    let wanted = vec![3u32, 5];
    assert_eq!(prefer(&wanted, vec![1, 2, 5, 3], false), Some(5));
    assert_eq!(prefer(&wanted, vec![3, 5], false), Some(3));
    assert_eq!(prefer(&wanted, vec![1, 2], false), None);
    assert_eq!(prefer(&wanted, vec![1, 2], true), Some(1));
    assert_eq!(prefer(&wanted, vec![], true), None::<u32>);
}

#[test]
fn prefer_fn_picks_first_accepted() {
    let even = |x: &u32| *x % 2 == 0;
    assert_eq!(prefer_fn(even, vec![1, 3, 4, 6], false), Some(4));
    assert_eq!(prefer_fn(even, vec![1, 3], false), None);
    assert_eq!(prefer_fn(even, vec![1, 3], true), Some(1));
    assert_eq!(prefer_fn(even, vec![], true), None::<u32>);
}

#[test]
fn vlem_fails_gracefully_on_unreadable_parts() {
    let parts = vec![newton_audio::assets::Asset::Ogg(&[1, 2, 3, 4])];
    let sink = DummySink;
    assert!(newton_audio::music::vlem(&parts, &sink).is_none());
}

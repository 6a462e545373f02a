//! Decoder behaviour: header fields reported faithfully, exact sample
//! scaling for every supported encoding, and typed failures for
//! everything else.

use newton_audio::assets::Asset;
use newton_audio::source::Source;
use newton_audio::wav::WavDecoder;
use newton_audio::{Channels, DecodeError, AMP_ONE};

fn wav_bytes_i16(channels: u16, sample_rate: u32, samples: &[i16]) -> Vec<u8> {
    let spec = hound::WavSpec {
        channels,
        sample_rate,
        bits_per_sample: 16,
        sample_format: hound::SampleFormat::Int,
    };
    let mut cur = std::io::Cursor::new(Vec::new());
    {
        let mut w = hound::WavWriter::new(&mut cur, spec).unwrap();
        for s in samples {
            w.write_sample(*s).unwrap();
        }
        w.finalize().unwrap();
    }
    cur.into_inner()
}

fn collect(mut s: Source) -> Vec<i64> {
    let mut out = Vec::new();
    while let Some(v) = s.next() {
        out.push(v);
    }
    out
}

#[test]
fn wav_header_fields_reported() {
    let bytes = wav_bytes_i16(1, 22050, &[1000, -1000, 32767]);
    let s = Source::from_wav(bytes).unwrap();
    assert_eq!(s.sample_rate(), 22050);
    assert!(s.channels() == Channels::Mono);
}

#[test]
fn wav_stereo_header_fields_reported() {
    let bytes = wav_bytes_i16(2, 44100, &[1, 2, 3, 4]);
    let s = Source::from_wav(bytes).unwrap();
    assert_eq!(s.sample_rate(), 44100);
    assert!(s.channels() == Channels::Stereo);
}

#[test]
fn wav_i16_samples_scaled_exactly() {
    let bytes = wav_bytes_i16(1, 44100, &[1000, -1000, 32767, -32768]);
    let s = Source::from_wav(bytes).unwrap();
    let out = collect(s);
    assert_eq!(
        out,
        vec![1000 * 0x2_0000, -1000 * 0x2_0000, 32767 * 0x2_0000, -32768 * 0x2_0000]
    );
}

#[test]
fn wav_i8_samples_scaled_exactly() {
    let spec = hound::WavSpec {
        channels: 1,
        sample_rate: 8000,
        bits_per_sample: 8,
        sample_format: hound::SampleFormat::Int,
    };
    let mut cur = std::io::Cursor::new(Vec::new());
    {
        let mut w = hound::WavWriter::new(&mut cur, spec).unwrap();
        for s in [0i8, 127, -128, 5] {
            w.write_sample(s).unwrap();
        }
        w.finalize().unwrap();
    }
    let s = Source::from_wav(cur.into_inner()).unwrap();
    let out = collect(s);
    assert_eq!(out, vec![0, 127 * 0x200_0000, -128 * 0x200_0000, 5 * 0x200_0000]);
}

#[test]
fn wav_i24_samples_scaled_exactly() {
    let spec = hound::WavSpec {
        channels: 1,
        sample_rate: 48000,
        bits_per_sample: 24,
        sample_format: hound::SampleFormat::Int,
    };
    let mut cur = std::io::Cursor::new(Vec::new());
    {
        let mut w = hound::WavWriter::new(&mut cur, spec).unwrap();
        for s in [0i32, 1 << 22, -(1 << 23), 99] {
            w.write_sample(s).unwrap();
        }
        w.finalize().unwrap();
    }
    let s = Source::from_wav(cur.into_inner()).unwrap();
    let out = collect(s);
    assert_eq!(
        out,
        vec![0, (1i64 << 22) * 0x200, -(1i64 << 23) * 0x200, 99 * 0x200]
    );
}

#[test]
fn wav_i32_samples_scaled_exactly() {
    let spec = hound::WavSpec {
        channels: 1,
        sample_rate: 44100,
        bits_per_sample: 32,
        sample_format: hound::SampleFormat::Int,
    };
    let mut cur = std::io::Cursor::new(Vec::new());
    {
        let mut w = hound::WavWriter::new(&mut cur, spec).unwrap();
        for s in [i32::MAX, i32::MIN, 7] {
            w.write_sample(s).unwrap();
        }
        w.finalize().unwrap();
    }
    let s = Source::from_wav(cur.into_inner()).unwrap();
    let out = collect(s);
    assert_eq!(out, vec![i32::MAX as i64 * 2, i32::MIN as i64 * 2, 14]);
}

#[test]
fn wav_f32_samples_scaled_exactly() {
    let spec = hound::WavSpec {
        channels: 1,
        sample_rate: 44100,
        bits_per_sample: 32,
        sample_format: hound::SampleFormat::Float,
    };
    let mut cur = std::io::Cursor::new(Vec::new());
    {
        let mut w = hound::WavWriter::new(&mut cur, spec).unwrap();
        for s in [1.0f32, -0.5, 0.0, 0.25] {
            w.write_sample(s).unwrap();
        }
        w.finalize().unwrap();
    }
    let s = Source::from_wav(cur.into_inner()).unwrap();
    let out = collect(s);
    assert_eq!(out, vec![AMP_ONE, -AMP_ONE / 2, 0, AMP_ONE / 4]);
}

// A hand-rolled container for the malformed and unsupported cases.
fn raw_wav(format_tag: u16, channels: u16, rate: u32, bits: u16, data: &[u8]) -> Vec<u8> {
    let mut b: Vec<u8> = Vec::new();
    let block_align = (bits / 8) * channels;
    let byte_rate = rate * block_align as u32;
    b.extend_from_slice(b"RIFF");
    let riff_size = 4 + 24 + 8 + data.len() as u32;
    b.extend_from_slice(&riff_size.to_le_bytes());
    b.extend_from_slice(b"WAVE");
    b.extend_from_slice(b"fmt ");
    b.extend_from_slice(&16u32.to_le_bytes());
    b.extend_from_slice(&format_tag.to_le_bytes());
    b.extend_from_slice(&channels.to_le_bytes());
    b.extend_from_slice(&rate.to_le_bytes());
    b.extend_from_slice(&byte_rate.to_le_bytes());
    b.extend_from_slice(&block_align.to_le_bytes());
    b.extend_from_slice(&bits.to_le_bytes());
    b.extend_from_slice(b"data");
    b.extend_from_slice(&(data.len() as u32).to_le_bytes());
    b.extend_from_slice(data);
    b
}

#[test]
fn hand_rolled_wav_decodes() {
    // 16-bit mono: samples 258 (0x0102) and -2
    let bytes = raw_wav(1, 1, 12345, 16, &[0x02, 0x01, 0xFE, 0xFF]);
    let d = WavDecoder::new(bytes).unwrap();
    assert_eq!(d.sample_rate(), 12345);
    let mut d = d;
    assert_eq!(d.next(), Some(258 * 0x2_0000));
    assert_eq!(d.next(), Some(-2 * 0x2_0000));
    assert_eq!(d.next(), None);
}

#[test]
fn wav_garbage_is_malformed() {
    assert_eq!(
        Source::from_wav(vec![1, 2, 3, 4, 5]).err(),
        Some(DecodeError::MalformedContainer)
    );
}

#[test]
fn wav_unsupported_bit_depth_rejected() {
    let bytes = raw_wav(1, 1, 44100, 12, &[0, 0]);
    assert_eq!(
        Source::from_wav(bytes).err(),
        Some(DecodeError::UnsupportedFormat)
    );
}

#[test]
fn wav_unsupported_format_tag_rejected() {
    // tag 2 is ADPCM, outside the supported set
    let bytes = raw_wav(2, 1, 44100, 16, &[0, 0]);
    assert_eq!(
        Source::from_wav(bytes).err(),
        Some(DecodeError::UnsupportedFormat)
    );
}

#[test]
fn wav_three_channels_rejected() {
    let bytes = raw_wav(1, 3, 44100, 16, &[0, 0, 0, 0, 0, 0]);
    assert_eq!(
        Source::from_wav(bytes).err(),
        Some(DecodeError::UnsupportedFormat)
    );
}

#[test]
fn wav_zero_rate_rejected() {
    let bytes = raw_wav(1, 1, 0, 16, &[0, 0]);
    assert_eq!(
        Source::from_wav(bytes).err(),
        Some(DecodeError::MalformedContainer)
    );
}

#[test]
fn ogg_garbage_is_malformed() {
    assert_eq!(
        Source::from_ogg(vec![0, 1, 2, 3, 4, 5, 6, 7]).err(),
        Some(DecodeError::MalformedStream)
    );
}

#[test]
fn channels_from_counts() {
    assert_eq!(Channels::try_from(1), Ok(Channels::Mono));
    assert_eq!(Channels::try_from(2), Ok(Channels::Stereo));
    assert_eq!(Channels::try_from(0), Err(()));
    assert_eq!(Channels::try_from(6), Err(()));
    assert_eq!(Channels::Mono.count(), 1);
    assert_eq!(Channels::Stereo.count(), 2);
}

#[test]
fn asset_accessors_return_tagged_bytes() {
    let wav = Asset::Wav(&[1, 2, 3]);
    let ogg = Asset::Ogg(&[4, 5]);
    let txt = Asset::Txt(&[6]);
    assert_eq!(wav.wav_data(), &[1, 2, 3]);
    assert_eq!(ogg.ogg_data(), &[4, 5]);
    assert_eq!(txt.txt_data(), &[6]);
}

#[test]
fn wav_partial_trailing_sample_is_dropped() {
    // a 16-bit data chunk of three bytes holds one whole sample
    let bytes = raw_wav(1, 1, 8000, 16, &[0x02, 0x01, 0x7F]);
    let mut d = WavDecoder::new(bytes).unwrap();
    assert_eq!(d.next(), Some(258 * 0x2_0000));
    assert_eq!(d.next(), None);
}

use std::io::Cursor;

use hamshark::clip::{ClipError, ClipId, ClockReading, Timestamp, WavClip};

fn id(text: &str) -> ClipId {
    ClipId::from_path_ref(text).unwrap()
}

fn encode(samples: &[i16], sample_rate: u32) -> Vec<u8> {
    let spec = hound::WavSpec {
        channels: 1,
        sample_rate,
        bits_per_sample: 16,
        sample_format: hound::SampleFormat::Int,
    };
    let mut bytes = Cursor::new(Vec::new());
    {
        let mut w = hound::WavWriter::new(&mut bytes, spec).unwrap();
        for s in samples {
            w.write_sample(*s).unwrap();
        }
        w.finalize().unwrap();
    }
    bytes.into_inner()
}

fn decode(bytes: Vec<u8>) -> (u32, Vec<i16>) {
    let mut r = hound::WavReader::new(Cursor::new(bytes)).unwrap();
    let rate = r.spec().sample_rate;
    let samples = r.samples::<i16>().map(|s| s.unwrap()).collect();
    (rate, samples)
}

#[test]
fn id_from_path_is_the_file_stem() {
    assert_eq!(id("/data/s/2024-01-02_03-04-05.000000006.wav").as_str(), "2024-01-02_03-04-05.000000006");
    assert_eq!(id("clip.wav").as_str(), "clip");
    assert_eq!(id("dir/plain").as_str(), "plain");
    assert_eq!(id("dir/.hidden").as_str(), ".hidden");
    assert_eq!(id("dir/archive.tar.gz").as_str(), "archive.tar");
}

#[test]
fn id_from_path_without_file_name() {
    assert!(ClipId::from_path_ref("").is_none());
    assert!(ClipId::from_path_ref("/").is_none());
    assert!(ClipId::from_path_ref("dir/..").is_none());
    assert!(ClipId::from_path_ref(".").is_none());
    assert!(ClipId::from_path_ref("./").is_none());
}

#[test]
fn id_from_path_skips_trailing_separators_and_dots() {
    assert_eq!(id("dir/").as_str(), "dir");
    assert_eq!(id("a/b.wav//").as_str(), "b");
    assert_eq!(id("a/b.wav/.").as_str(), "b");
    assert_eq!(id("a/./").as_str(), "a");
    assert_eq!(id("./c.wav").as_str(), "c");
    assert_eq!(id("..x").as_str(), ".");
}

#[test]
fn wav_path_inside_base() {
    assert_eq!(id("abc").absolute_path_wav("/tmp/s"), "/tmp/s/abc.wav");
    assert_eq!(id("abc").absolute_path_wav("/tmp/s/"), "/tmp/s/abc.wav");
    assert_eq!(id("a.b.wav").absolute_path_wav(""), "a.b.wav");
}

#[test]
fn id_from_timestamp_is_zero_padded() {
    let t = Timestamp { year: 2024, month: 3, day: 5, hour: 7, minute: 8, second: 9, nanosecond: 123 };
    let c = ClipId::from_datetimelocal(&t);
    assert_eq!(c.as_str(), "2024-03-05_07-08-09.000000123");
    assert_eq!(c.to_string(), "2024-03-05_07-08-09.000000123");
    let back = ClipId::from_path_ref(&c.absolute_path_wav("/x")).unwrap();
    assert_eq!(back, c);
}

#[test]
fn timestamp_ids_sort_chronologically() {
    let a = Timestamp { year: 2024, month: 9, day: 30, hour: 23, minute: 59, second: 59, nanosecond: 999_999_999 };
    let b = Timestamp { year: 2024, month: 10, day: 1, hour: 0, minute: 0, second: 0, nanosecond: 1 };
    let ia = ClipId::from_datetimelocal(&a);
    let ib = ClipId::from_datetimelocal(&b);
    assert!(ia.as_str() < ib.as_str());
}

#[test]
fn clock_reading_with_leap_second() {
    let r = ClockReading { year: 2016, month: 12, day: 31, hour: 23, minute: 59, second: 59, nanosecond: 1_500_000_000 };
    let t = Timestamp::from_clock(r).unwrap();
    assert_eq!(t.second, 60);
    assert_eq!(t.nanosecond, 500_000_000);
    let r = ClockReading { year: -1, month: 1, day: 1, hour: 0, minute: 0, second: 0, nanosecond: 0 };
    assert!(Timestamp::from_clock(r).is_none());
    let r = ClockReading { year: 10000, month: 1, day: 1, hour: 0, minute: 0, second: 0, nanosecond: 0 };
    assert!(Timestamp::from_clock(r).is_none());
}

#[test]
fn new_clip_is_writable_and_empty() {
    let c = WavClip::record_new(id("abc"), "/s", 44100);
    assert!(c.is_writable());
    assert_eq!(c.sample_count(), 0);
    assert_eq!(c.path(), "/s/abc.wav");
    assert_eq!(c.sample_rate(), 44100);
    assert_eq!(c.id().as_str(), "abc");
}

#[test]
fn write_samples_appends_in_order() {
    let mut c = WavClip::record_new(id("abc"), "/s", 8000);
    c.write_samples(&[1, 2, 3]).unwrap();
    c.write_samples(&[]).unwrap();
    c.write_samples(&[-4, 5]).unwrap();
    assert_eq!(c.samples(), &[1, 2, 3, -4, 5]);
    assert_eq!(c.samples_in(1, 4), &[2, 3, -4]);
}

#[test]
fn write_to_finalized_clip_fails() {
    let mut c = WavClip::record_new(id("abc"), "/s", 8000);
    c.write_samples(&[7]).unwrap();
    c.finalize();
    assert!(!c.is_writable());
    match c.write_samples(&[8]) {
        Err(ClipError::ReadOnly(i)) => assert_eq!(i.as_str(), "abc"),
        other => panic!("unexpected {:?}", other),
    }
    assert_eq!(c.samples(), &[7]);
}

#[test]
fn decoded_clip_needs_a_file_name() {
    match WavClip::from_decoded("dir/..", 8000, vec![1]) {
        Err(ClipError::ClipIdResolutionFailure(p)) => assert_eq!(p, "dir/.."),
        other => panic!("unexpected {:?}", other),
    }
    let c = WavClip::from_decoded("dir/x.wav", 8000, vec![1, 2]).unwrap();
    assert!(!c.is_writable());
    assert_eq!(c.id().as_str(), "x");
    assert_eq!(c.samples(), &[1, 2]);
}

#[test]
fn recorded_batches_survive_encode_and_decode() {
    let mut c = WavClip::record_new(id("rt"), "/s", 44100);
    let batches: [&[i16]; 4] = [&[0, 1, -1], &[i16::MAX, i16::MIN], &[], &[16383, -16383, 32767, -32767]];
    for b in batches {
        c.write_samples(b).unwrap();
    }
    c.finalize();
    let bytes = encode(c.samples(), c.sample_rate());
    let (rate, samples) = decode(bytes);
    let loaded = WavClip::from_decoded(c.path(), rate, samples).unwrap();
    assert_eq!(loaded.id(), c.id());
    assert_eq!(loaded.sample_rate(), 44100);
    assert_eq!(loaded.samples(), c.samples());
}

#[test]
fn truncated_half_and_full_scale_values_decode_exactly() {
    // 0.5, -0.5, 1.0 and -1.0 scaled by 32767 and truncated toward zero.
    let expected: [i16; 4] = [16383, -16383, 32767, -32767];
    let scaled: Vec<i16> = [0.5f32, -0.5, 1.0, -1.0].iter().map(|x| (x * i16::MAX as f32) as i16).collect();
    assert_eq!(scaled, expected);
    let mut c = WavClip::record_new(id("q"), "/s", 44100);
    c.write_samples(&scaled).unwrap();
    let (rate, samples) = decode(encode(c.samples(), 44100));
    assert_eq!(rate, 44100);
    assert_eq!(samples, expected);
}

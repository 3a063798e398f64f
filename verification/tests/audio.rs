use audio_split::audio::{
    compute_peaks, extremes, format_time, AudioData, Decoded, Loader, Packet, Step, TrackInfo,
    PEAK_BIN,
};
use audio_split::sample::{bits_of_rank, rank_of_bits, HIGHEST, LOWEST};

fn rank(s: f32) -> i32 {
    rank_of_bits(s.to_bits())
}

fn value(rank: i32) -> f32 {
    f32::from_bits(bits_of_rank(rank))
}

fn info() -> TrackInfo {
    TrackInfo { id: 7, sample_rate: Some(44100), channels: Some(2), bits_per_sample: Some(24) }
}

#[test]
fn peaks_are_the_extremes_of_bins() {
    let frames = PEAK_BIN * 2 + 100;
    let samples: Vec<f32> = (0..frames * 2).map(|i| ((i * 7919) % 2001) as f32 / 1000.0 - 1.0).collect();
    let ranks: Vec<i32> = samples.iter().map(|&s| rank(s)).collect();
    let peaks = compute_peaks(&ranks, 2);
    assert_eq!(peaks.len(), 2);
    for ch in 0..2 {
        assert_eq!(peaks[ch].len(), 3);
        for bin in 0..3 {
            let mut min = f32::MAX;
            let mut max = f32::MIN;
            for frame in bin * PEAK_BIN..((bin + 1) * PEAK_BIN).min(frames) {
                min = min.min(samples[frame * 2 + ch]);
                max = max.max(samples[frame * 2 + ch]);
            }
            assert_eq!((value(peaks[ch][bin].0), value(peaks[ch][bin].1)), (min, max));
        }
    }
    assert!(compute_peaks(&[], 3).iter().all(|p| p.is_empty()));
}

#[test]
fn what_is_no_number_has_no_extremes() {
    let nan = rank(f32::NAN);
    assert_eq!(extremes(&[nan, nan], 1, 0, 0, 2), (HIGHEST, LOWEST));
    assert_eq!(extremes(&[nan, rank(0.25), nan], 1, 0, 0, 3), (rank(0.25), rank(0.25)));
    assert_eq!(extremes(&[rank(f32::INFINITY)], 1, 0, 0, 1), (HIGHEST, rank(f32::INFINITY)));
    assert_eq!(extremes(&[rank(1.0)], 1, 0, 1, 1), (HIGHEST, LOWEST));
}

#[test]
fn frames_are_whole() {
    let audio = AudioData::new("x.wav".to_string(), vec![0; 7], 2, 8000, 16);
    assert_eq!(audio.frames(), 3);
    assert_eq!(audio.file_name(), "x.wav");
    let none = AudioData {
        name: String::new(),
        samples: vec![0; 7],
        channels: 0,
        sample_rate: 1,
        bits_per_sample: 16,
        peaks: Vec::new(),
    };
    assert_eq!(none.frames(), 0);
}

#[test]
fn times_are_formatted() {
    assert_eq!(format_time(0, 0), "00:00.000");
    assert_eq!(format_time(61, 7), "01:01.007");
    assert_eq!(format_time(3599, 999), "59:59.999");
    assert_eq!(format_time(3600, 50), "1:00:00.050");
    assert_eq!(format_time(36000 + 62, 1), "10:01:02.001");
}

#[test]
fn tracks_that_lack_something_are_refused() {
    assert_eq!(Loader::new(None).err().unwrap(), "No audio track found");
    let no_rate = TrackInfo { sample_rate: None, channels: None, ..info() };
    assert_eq!(Loader::new(Some(no_rate)).err().unwrap(), "Unknown sample rate");
    let no_channels = TrackInfo { channels: None, ..info() };
    assert_eq!(Loader::new(Some(no_channels)).err().unwrap(), "Unknown channel layout");
    let no_bits = TrackInfo { bits_per_sample: None, ..info() };
    assert_eq!(Loader::new(Some(no_bits)).unwrap().bits_per_sample, 16);
    assert_eq!(Loader::new(Some(info())).unwrap().bits_per_sample, 24);
}

#[test]
fn a_recording_is_read_packet_by_packet() {
    let mut loader = Loader::new(Some(info())).unwrap();
    assert!(matches!(loader.on_packet(Packet::Data { track_id: 7 }), Step::Decode));
    assert!(matches!(loader.on_packet(Packet::Data { track_id: 8 }), Step::Skip));
    assert!(matches!(loader.on_packet(Packet::EndOfFile), Step::Done));
    assert!(matches!(loader.on_packet(Packet::ResetRequired), Step::Done));
    match loader.on_packet(Packet::Failed("broken".to_string())) {
        Step::Fail(e) => assert_eq!(e, "Read error: broken"),
        _ => panic!("not refused"),
    }
    loader.on_decoded(Decoded::Samples(vec![1, 2])).unwrap();
    loader.on_decoded(Decoded::Corrupt).unwrap();
    loader.on_decoded(Decoded::Samples(vec![3, 4, 5, 6])).unwrap();
    assert_eq!(
        loader.on_decoded(Decoded::Failed("bad".to_string())).err().unwrap(),
        "Decode error: bad"
    );
    let audio = loader.finish("a.flac".to_string()).unwrap();
    assert_eq!(audio.samples, vec![1, 2, 3, 4, 5, 6]);
    assert_eq!(audio.frames(), 3);
    assert_eq!(audio.sample_rate, 44100);
    assert_eq!(audio.peaks, vec![vec![(1, 5)], vec![(2, 6)]]);
}

#[test]
fn an_empty_recording_is_refused() {
    let loader = Loader::new(Some(info())).unwrap();
    assert_eq!(loader.finish(String::new()).err().unwrap(), "File contains no audio");
}

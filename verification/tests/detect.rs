use audio_split::detect::{detect_track_starts, window_count, window_frames, DetectParams};

fn windows(runs: &[(bool, usize)]) -> Vec<bool> {
    runs.iter().flat_map(|&(quiet, n)| std::iter::repeat(quiet).take(n)).collect()
}

fn params(min_gap_windows: usize, min_track_ms: usize) -> DetectParams {
    DetectParams { min_gap_windows, min_track_ms }
}

#[test]
fn windows_last_ten_milliseconds() {
    assert_eq!(window_frames(44100), 441);
    assert_eq!(window_frames(99), 1);
    assert_eq!(window_frames(0), 1);
    assert_eq!(window_count(44100, 44100), 100);
    assert_eq!(window_count(440, 44100), 0);
}

#[test]
fn defaults_are_a_second_and_a_quarter_minute() {
    let p = DetectParams::default();
    assert_eq!((p.min_gap_windows, p.min_track_ms), (100, 15_000));
}

#[test]
fn starts_follow_gaps_backed_off() {
    let quiet = windows(&[(false, 2000), (true, 200), (false, 2000)]);
    // The rise is at window 2200, 50 ms are taken back.
    assert_eq!(detect_track_starts(&quiet, 8000, &params(100, 15_000)), vec![0, 2200 * 80 - 400]);
    // The gap is too short.
    assert_eq!(detect_track_starts(&quiet, 8000, &params(201, 15_000)), vec![0]);
    assert_eq!(detect_track_starts(&quiet, 8000, &params(200, 15_000)).len(), 2);
    // The track is too short.
    assert_eq!(detect_track_starts(&quiet, 8000, &params(100, 22_000)), vec![0]);
    assert_eq!(detect_track_starts(&quiet, 8000, &params(100, 21_000)).len(), 2);
    // A minimum need not be whole seconds.
    assert_eq!(detect_track_starts(&quiet, 8000, &params(100, 21_950)).len(), 2);
    assert_eq!(detect_track_starts(&quiet, 8000, &params(100, 21_951)), vec![0]);
    // No minimum overflows.
    assert_eq!(detect_track_starts(&quiet, 8000, &params(100, usize::MAX)), vec![0]);
}

#[test]
fn silence_alone_starts_nothing() {
    assert_eq!(detect_track_starts(&[], 8000, &params(1, 0)), vec![0]);
    assert_eq!(detect_track_starts(&windows(&[(true, 500)]), 8000, &params(1, 0)), vec![0]);
    assert_eq!(detect_track_starts(&windows(&[(false, 500)]), 8000, &params(0, 0)), vec![0]);
    // A rise too early to be backed off.
    assert_eq!(detect_track_starts(&windows(&[(true, 5), (false, 5)]), 8000, &params(1, 0)), vec![0]);
    assert_eq!(detect_track_starts(&windows(&[(true, 6), (false, 5)]), 8000, &params(1, 0)), vec![0, 80]);
}

#[test]
fn starts_keep_their_distance() {
    let quiet = windows(&[(false, 300), (true, 50), (false, 300), (true, 50), (false, 700), (true, 50), (false, 1)]);
    let starts = detect_track_starts(&quiet, 1000, &params(50, 5_000));
    assert_eq!(starts, vec![0, 6950, 14450]);
    for pair in starts.windows(2) {
        assert!(pair[1] - pair[0] >= 5000);
    }
}

#[test]
fn starts_lie_in_silence_and_no_rise_is_lost() {
    let quiet = windows(&[(false, 90), (true, 20), (false, 10), (true, 30), (false, 400), (true, 20), (false, 5)]);
    let rises: Vec<usize> = (1..quiet.len()).filter(|&w| quiet[w - 1] && !quiet[w]).collect();
    assert_eq!(rises, vec![110, 150, 570]);
    let starts = detect_track_starts(&quiet, 8000, &params(20, 1_000));
    assert_eq!(starts, vec![0, 110 * 80 - 400, 570 * 80 - 400]);
    for &start in &starts[1..] {
        // The window of the start, and those up to the rise.
        assert!(quiet[start / 80..(start + 400) / 80].iter().all(|&q| q));
    }
    for w in rises {
        let c = w * 80 - 400;
        assert!(starts.iter().any(|&s| s == c || (s <= c && c - s < 8000)));
    }
}

#[test]
fn fractions_of_a_second_count() {
    let quiet = windows(&[(false, 200), (true, 30), (false, 20)]);
    assert_eq!(detect_track_starts(&quiet, 100, &params(25, 2_500)), vec![0]);
    assert_eq!(detect_track_starts(&quiet, 100, &params(25, 2_250)), vec![0, 225]);
}

use audio_split::audio::{AudioData, PEAK_BIN};
use audio_split::markers::new_marker;
use audio_split::sample::{rank_of_bits, ZERO};
use audio_split::waveform::{
    column_extremes, flag_label, hit_marker, min_max, ruler_label, Gesture, GestureEvent, LastClick, Pointer,
    WfState,
};

fn audio() -> AudioData {
    let samples: Vec<i32> = (0..(PEAK_BIN * 5 + 37) * 2)
        .map(|i| rank_of_bits((((i * 7919) % 2003) as f32 / 1000.0 - 1.0).to_bits()))
        .collect();
    AudioData::new("w".to_string(), samples, 2, 44100, 16)
}

fn naive(audio: &AudioData, ch: usize, begin: usize, end: usize) -> (i32, i32) {
    let range = (begin..end).map(|f| audio.samples[f * 2 + ch]);
    (range.clone().min().unwrap(), range.max().unwrap())
}

#[test]
fn extremes_are_those_of_the_range() {
    let audio = audio();
    let n = audio.frames();
    for (begin, end) in [(0, 1), (0, n), (100, 700), (511, 1025), (512, 1024), (513, 1536), (3, 400), (1000, n), (n - 1, n)] {
        for ch in 0..2 {
            assert_eq!(min_max(&audio, ch, begin, end), naive(&audio, ch, begin, end), "{begin}..{end}");
        }
    }
    assert_eq!(min_max(&audio, 0, 5, 5), (ZERO, ZERO));
    assert_eq!(min_max(&audio, 0, 6, 5), (ZERO, ZERO));
}

#[test]
fn a_column_holds_at_least_one_frame() {
    let audio = audio();
    let n = audio.frames();
    assert_eq!(column_extremes(&audio, 1, 10, 10), naive(&audio, 1, 10, 11));
    assert_eq!(column_extremes(&audio, 1, 10, 3), naive(&audio, 1, 10, 11));
    assert_eq!(column_extremes(&audio, 1, 10, 50), naive(&audio, 1, 10, 50));
    assert_eq!(column_extremes(&audio, 0, 10, n + 99), naive(&audio, 0, 10, n));
    assert_eq!(column_extremes(&audio, 0, n - 1, n - 1), naive(&audio, 0, n - 1, n));
}

#[test]
fn labels_are_exact() {
    assert_eq!(ruler_label(0), "0:00");
    assert_eq!(ruler_label(59), "0:59");
    assert_eq!(ruler_label(61), "1:01");
    assert_eq!(ruler_label(6000), "100:00");
    assert_eq!(flag_label(0), "01");
    assert_eq!(flag_label(9), "10");
    assert_eq!(flag_label(99), "100");
}

#[test]
fn the_nearest_marker_is_hit() {
    let markers = vec![new_marker(4, 0), new_marker(8, 0), new_marker(2, 0)];
    let hit = |d: [f32; 3]| {
        let bits: Vec<u32> = d.iter().map(|x| x.abs().to_bits()).collect();
        hit_marker(&markers, &bits)
    };
    assert_eq!(hit([6.1, 7.0, 100.0]), None);
    assert_eq!(hit([6.0, 7.0, 100.0]), Some(4));
    assert_eq!(hit([3.0, -2.0, 2.0]), Some(8));
    assert_eq!(hit([f32::NAN, f32::INFINITY, 0.0]), Some(2));
    assert_eq!(hit_marker(&[], &[]), None);
}

fn press(in_strip: bool, hit: Option<u64>, frame: usize, last: Option<(u128, bool)>) -> GestureEvent {
    let last_click = last.map(|(elapsed_ms, near)| LastClick { elapsed_ms, near });
    GestureEvent::PressLeft { in_strip, hit, frame, last_click }
}

#[test]
fn flags_are_dragged() {
    let mut state = WfState::new();
    let r = state.update(press(true, Some(3), 10, None));
    assert!(matches!(r.gesture, Gesture::Nothing) && r.captured && !r.clicked);
    assert!(matches!(state.mouse_interaction(None), Pointer::Grabbing));
    let r = state.update(GestureEvent::Moved { frame: 20 });
    assert!(matches!(r.gesture, Gesture::MoveMarker(3, 20)) && r.captured);
    let r = state.update(GestureEvent::Released);
    assert!(matches!(r.gesture, Gesture::Nothing) && !r.captured);
    let r = state.update(GestureEvent::Moved { frame: 30 });
    assert!(matches!(r.gesture, Gesture::Nothing) && !r.captured);
    assert!(matches!(state.mouse_interaction(Some(3)), Pointer::Grab));
    assert!(matches!(state.mouse_interaction(None), Pointer::Default));
}

#[test]
fn lanes_are_scrubbed_and_double_clicked() {
    let mut state = WfState::new();
    let r = state.update(press(false, Some(3), 10, None));
    assert!(matches!(r.gesture, Gesture::SetPlayhead(10)) && r.captured && r.clicked);
    let r = state.update(GestureEvent::Moved { frame: 11 });
    assert!(matches!(r.gesture, Gesture::SetPlayhead(11)) && r.captured);
    state.update(GestureEvent::ReleasedOutside);
    let r = state.update(GestureEvent::Moved { frame: 12 });
    assert!(matches!(r.gesture, Gesture::Nothing));
    let r = state.update(press(false, None, 10, Some((399, true))));
    assert!(matches!(r.gesture, Gesture::AddMarkerAt(10)) && r.clicked);
    let r = state.update(press(false, None, 10, Some((400, true))));
    assert!(matches!(r.gesture, Gesture::SetPlayhead(10)));
    let r = state.update(press(false, None, 10, Some((1, false))));
    assert!(matches!(r.gesture, Gesture::SetPlayhead(10)));
    let r = state.update(press(true, None, 15, Some((1, true))));
    assert!(matches!(r.gesture, Gesture::SetPlayhead(15)) && !r.clicked);
}

#[test]
fn the_wheel_zooms_and_pans() {
    let mut state = WfState::new();
    let r = state.update(GestureEvent::Wheel { sideways: false, up: true });
    assert!(matches!(r.gesture, Gesture::Zoom { closer: true }) && r.captured);
    let r = state.update(GestureEvent::Wheel { sideways: false, up: false });
    assert!(matches!(r.gesture, Gesture::Zoom { closer: false }));
    let r = state.update(GestureEvent::Wheel { sideways: true, up: true });
    assert!(matches!(r.gesture, Gesture::Pan { sideways: true }));
    state.update(GestureEvent::Shift(true));
    let r = state.update(GestureEvent::Wheel { sideways: false, up: true });
    assert!(matches!(r.gesture, Gesture::Pan { sideways: false }));
    state.update(GestureEvent::Shift(false));
    let r = state.update(GestureEvent::Other);
    assert!(matches!(r.gesture, Gesture::Nothing) && !r.captured);
}

#[test]
fn the_right_button_deletes_flags() {
    let mut state = WfState::new();
    let r = state.update(GestureEvent::PressRight { in_strip: true, hit: Some(5) });
    assert!(matches!(r.gesture, Gesture::DeleteMarker(5)) && r.captured);
    let r = state.update(GestureEvent::PressRight { in_strip: false, hit: Some(5) });
    assert!(matches!(r.gesture, Gesture::Nothing) && !r.captured);
    let r = state.update(GestureEvent::PressRight { in_strip: true, hit: None });
    assert!(matches!(r.gesture, Gesture::Nothing) && !r.captured);
}

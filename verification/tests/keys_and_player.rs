use audio_split::audio::AudioData;
use audio_split::keys::{key_action, Key, KeyAction};
use audio_split::player::{
    fallback, find_device, list_output_devices, PcmSource, Player, PlayerAction, PlayerEvent,
};

fn typed(c: &str, shift: bool) -> Option<KeyAction> {
    key_action(&Key::Character(c.to_string()), shift)
}

#[test]
fn keys_do_what_they_say() {
    assert!(matches!(key_action(&Key::Space, true), Some(KeyAction::PlayPause)));
    assert!(matches!(key_action(&Key::ArrowLeft, false), Some(KeyAction::SeekBack)));
    assert!(matches!(key_action(&Key::ArrowRight, false), Some(KeyAction::SeekForward)));
    assert!(key_action(&Key::Other, false).is_none());
    for c in ["m", "M"] {
        assert!(matches!(typed(c, false), Some(KeyAction::AddMarkerAtPlayhead)));
    }
    for c in ["+", "="] {
        assert!(matches!(typed(c, false), Some(KeyAction::ZoomIn)));
    }
    for c in ["+", "=", "?", "*"] {
        assert!(matches!(typed(c, true), Some(KeyAction::VZoomIn)));
    }
    for c in ["?", "*", "x", "mm", ""] {
        assert!(typed(c, false).is_none());
    }
    for c in ["-", "_"] {
        assert!(matches!(typed(c, false), Some(KeyAction::ZoomOut)));
        assert!(matches!(typed(c, true), Some(KeyAction::VZoomOut)));
    }
}

fn names(actions: &[PlayerAction]) -> Vec<String> {
    actions
        .iter()
        .map(|a| match a {
            PlayerAction::StopSink => "stop".to_string(),
            PlayerAction::DropStream => "drop".to_string(),
            PlayerAction::OpenStream(name) => format!("open {name:?}"),
            PlayerAction::MakeSink => "make".to_string(),
        })
        .collect()
}

#[test]
fn one_sound_plays_at_a_time() {
    let (mut player, actions) = Player::new();
    assert_eq!(names(&actions), vec!["open None"]);
    assert!(player.update(PlayerEvent::StreamOpened(true)).is_empty());
    assert_eq!(names(&player.update(PlayerEvent::Play)), vec!["make"]);
    assert!(player.update(PlayerEvent::SinkMade(true)).is_empty());
    assert_eq!(names(&player.update(PlayerEvent::Play)), vec!["stop", "make"]);
    player.update(PlayerEvent::SinkMade(true));
    assert_eq!(names(&player.stop()), vec!["stop"]);
    assert!(player.stop().is_empty());
}

#[test]
fn a_missing_stream_is_opened_to_play() {
    let (mut player, _) = Player::new();
    player.update(PlayerEvent::StreamOpened(false));
    assert_eq!(names(&player.play()), vec!["open None"]);
    assert_eq!(names(&player.update(PlayerEvent::StreamOpened(true))), vec!["make"]);
    player.update(PlayerEvent::SinkMade(true));
    let (mut player, _) = Player::new();
    player.update(PlayerEvent::StreamOpened(false));
    player.play();
    assert!(player.update(PlayerEvent::StreamOpened(false)).is_empty());
    assert!(player.stop().is_empty());
}

#[test]
fn devices_are_released_before_others_open() {
    let (mut player, _) = Player::new();
    player.update(PlayerEvent::StreamOpened(true));
    player.play();
    player.update(PlayerEvent::SinkMade(true));
    let actions = player.set_device(Some("USB".to_string()));
    assert_eq!(names(&actions), vec!["stop", "drop", "open Some(\"USB\")"]);
    assert!(player.update(PlayerEvent::StreamOpened(false)).is_empty());
    let actions = player.update(PlayerEvent::SetDevice(None));
    assert_eq!(names(&actions), vec!["open None"]);
}

#[test]
fn a_selected_device_is_kept() {
    let (mut player, _) = Player::new();
    player.update(PlayerEvent::StreamOpened(true));
    player.set_device(Some("USB".to_string()));
    for opened in [false, false, true] {
        player.update(PlayerEvent::StreamOpened(false));
        assert_eq!(names(&player.play()), vec!["open Some(\"USB\")"]);
        player.update(PlayerEvent::StreamOpened(opened));
        player.stop();
    }
    assert_eq!(names(&player.play()), vec!["make"]);
    assert_eq!(player.device, Some("USB".to_string()));
}

#[test]
fn the_default_device_stands_in() {
    assert!(fallback(false, None, false));
    assert!(fallback(true, None, false));
    assert!(fallback(true, Some(1), false));
    assert!(!fallback(true, Some(1), true));
}

#[test]
fn devices_are_found_by_name() {
    let devices = vec![Some("A".to_string()), None, Some("B".to_string()), Some("B".to_string())];
    assert_eq!(find_device("B", &devices), Some(2));
    assert_eq!(find_device("b", &devices), None);
    assert_eq!(list_output_devices(&devices), vec!["A", "B", "B"]);
    assert!(list_output_devices(&vec![None]).is_empty());
}

#[test]
fn samples_are_handed_on_in_order() {
    let audio = AudioData::new("a".to_string(), vec![1, 2, 3, 4, 5, 6], 2, 44100, 16);
    let mut source = PcmSource::new(&audio, 1);
    let mut heard = Vec::new();
    while let Some(s) = source.next_sample(&audio) {
        heard.push(s);
    }
    assert_eq!(heard, vec![3, 4, 5, 6]);
    // The index counts up at the end and behind it.
    assert_eq!(source.idx, 7);
    assert_eq!(source.next_sample(&audio), None);
    assert_eq!(source.idx, 8);
    assert_eq!(PcmSource::new(&audio, 3).next_sample(&audio), None);
    // Nothing is heard from a later start.
    let mut late = PcmSource::new(&audio, 10);
    assert_eq!(late.next_sample(&audio), None);
    assert_eq!(late.idx, 21);
}

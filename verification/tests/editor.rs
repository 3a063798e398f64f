use std::sync::Arc;

use audio_split::app::{
    cue_file_name, flac_cue_file_name, is_cue_file, position_text, App, Choice, Effect, Loaded,
    Location, Message, Target, Time,
};
use audio_split::audio::AudioData;
use audio_split::cue::{parse_cue, CueTrack, ParsedCue};
use audio_split::detect::DetectParams;

fn time(secs: u64, ms: u64) -> Time {
    Time { secs, ms }
}

fn recording(frames: usize) -> Arc<AudioData> {
    Arc::new(AudioData::new("a.wav".to_string(), vec![0; frames], 1, 1000, 16))
}

fn open(frames: usize) -> App {
    let mut app = App::default();
    let loaded = Loaded { audio: recording(frames), positions: Vec::new(), duration: time(10, 5) };
    app.update(Message::Loaded(Ok(loaded)));
    app
}

fn kinds(effects: &[Effect]) -> Vec<String> {
    effects
        .iter()
        .map(|e| match e {
            Effect::PickFile => "pick file".to_string(),
            Effect::Load => "load".to_string(),
            Effect::PickCuePath => "pick cue path".to_string(),
            Effect::WriteCue { count, .. } => format!("write cue {count}"),
            Effect::PickFlacDir => "pick dir".to_string(),
            Effect::ExportTracks { tracks, .. } => format!("export {}", tracks.len()),
            Effect::PickFlacCuePath => "pick flac path".to_string(),
            Effect::ExportSingle { tracks, .. } => format!("export single {}", tracks.len()),
            Effect::Play { start } => format!("play {start}"),
            Effect::StopPlayer => "stop".to_string(),
            Effect::SetDevice(name) => format!("device {name:?}"),
            Effect::ZoomFit => "fit".to_string(),
            Effect::Redraw => "redraw".to_string(),
            Effect::ShowPlayhead => "show".to_string(),
            Effect::ShiftView => "shift".to_string(),
        })
        .collect()
}

fn send(app: &mut App, message: Message) -> Vec<String> {
    kinds(&app.update(message))
}

fn positions(app: &App) -> Vec<(u64, usize)> {
    app.markers.iter().map(|m| (m.id, m.pos)).collect()
}

#[test]
fn an_editor_starts_empty() {
    let app = App::new(vec!["USB".to_string()]);
    assert_eq!(app.devices, vec!["System default", "USB"]);
    assert_eq!(app.selected_device, "System default");
    assert_eq!(app.status, "Open a WAV or FLAC file to get started.");
    let c = app.controls();
    assert_eq!(c.file_label, "No file loaded");
    assert_eq!(c.play_label, "Play");
    assert_eq!(c.placeholder, "Open a WAV or FLAC file to see its waveform here.");
    assert!(!c.has_audio && !c.can_export_cue && !c.can_export_flac);
}

#[test]
fn files_are_chosen_and_loaded() {
    let mut app = App::default();
    assert_eq!(send(&mut app, Message::OpenFile), vec!["pick file"]);
    assert!(send(&mut app, Message::FileChosen(Choice::Cancelled)).is_empty());
    let effects = send(&mut app, Message::FileChosen(Choice::Audio("/x/a.wav".to_string())));
    assert_eq!(effects, vec!["load"]);
    assert_eq!(app.status, "Loading /x/a.wav…");
    assert_eq!(app.controls().placeholder, "Loading…");
    // Not twice at once.
    assert!(send(&mut app, Message::OpenFile).is_empty());
    send(&mut app, Message::Loaded(Err("boom".to_string())));
    assert_eq!(app.status, "Load failed: boom");
    assert!(!app.loading);
    send(&mut app, Message::FileChosen(Choice::Cue(Err("no sheet".to_string()))));
    assert_eq!(app.status, "no sheet");
    let loaded = Loaded { audio: recording(50), positions: Vec::new(), duration: time(3661, 5) };
    assert_eq!(send(&mut app, Message::Loaded(Ok(loaded))), vec!["stop", "fit"]);
    assert_eq!(app.status, "Loaded a.wav — 1 ch, 1000 Hz, 16 bit, 1:01:01.005");
    assert_eq!(positions(&app), vec![(0, 0)]);
    assert_eq!(app.next_id, 1);
    assert_eq!(app.controls().file_label, "a.wav");
}

#[test]
fn cue_sheets_wait_for_their_recording() {
    let sheet = "PERFORMER Band\nTITLE Album\nFILE x.wav WAVE\nTRACK 01 AUDIO\nTITLE \"Track 1\"\nPERFORMER Band\nINDEX 01 00:00:00\nTRACK 02 AUDIO\nTITLE Two\nPERFORMER Guest\nINDEX 01 10:00:00\n";
    let mut app = App::default();
    assert_eq!(
        app.read_cue_file(parse_cue(sheet).unwrap(), false, false).err().unwrap(),
        "Audio file \"x.wav\" referenced by the cue sheet was not found"
    );
    assert!(app.pending_cue.is_none());
    assert!(matches!(app.read_cue_file(parse_cue(sheet).unwrap(), false, true), Ok(Location::BesideSheet)));
    assert_eq!(send(&mut app, Message::FileChosen(Choice::Cue(Ok("x.wav".to_string())))), vec!["load"]);
    let loaded = Loaded { audio: recording(50), positions: vec![0, 600_000], duration: time(0, 50) };
    send(&mut app, Message::Loaded(Ok(loaded)));
    // A start behind the end is moved there.
    assert_eq!(positions(&app), vec![(0, 0), (1, 50)]);
    assert_eq!((app.markers[0].title.as_str(), app.markers[0].artist.as_str()), ("", ""));
    assert_eq!((app.markers[1].title.as_str(), app.markers[1].artist.as_str()), ("Two", "Guest"));
    assert_eq!((app.album_artist.as_str(), app.album_title.as_str()), ("Band", "Album"));
    assert!(app.read_only && app.pending_cue.is_none());
    assert_eq!(app.next_id, 2);
    // Choosing plain audio forgets a pending sheet, and so does a failure.
    assert!(app.read_cue_file(parse_cue(sheet).unwrap(), true, false).is_ok());
    send(&mut app, Message::FileChosen(Choice::Audio("b.wav".to_string())));
    assert!(app.pending_cue.is_none());
    assert!(app.read_cue_file(parse_cue(sheet).unwrap(), true, false).is_ok());
    send(&mut app, Message::Loaded(Err("e".to_string())));
    assert!(app.pending_cue.is_none());
}

#[test]
fn markers_are_added_moved_and_deleted() {
    let mut app = open(10_000);
    assert_eq!(send(&mut app, Message::AddMarkerAt(500, time(0, 500))), vec!["redraw"]);
    assert_eq!(app.status, "Marker added at 00:00.500.");
    send(&mut app, Message::SetPlayhead(200));
    send(&mut app, Message::AddMarkerAtPlayhead(time(0, 200)));
    assert_eq!(positions(&app), vec![(0, 0), (2, 200), (1, 500)]);
    assert_eq!(send(&mut app, Message::MoveMarker(2, 900)), vec!["redraw"]);
    assert_eq!(positions(&app), vec![(0, 0), (1, 500), (2, 900)]);
    assert_eq!(send(&mut app, Message::MoveMarker(77, 1)), vec!["redraw"]);
    send(&mut app, Message::MarkerTitle(1, "T".to_string()));
    send(&mut app, Message::MarkerArtist(1, "A".to_string()));
    send(&mut app, Message::MarkerTitle(99, "X".to_string()));
    assert_eq!((app.markers[1].title.as_str(), app.markers[1].artist.as_str()), ("T", "A"));
    assert_eq!(send(&mut app, Message::DeleteMarker(0)), vec!["redraw"]);
    send(&mut app, Message::DeleteMarker(0));
    assert_eq!(positions(&app), vec![(1, 500), (2, 900)]);
    send(&mut app, Message::AlbumTitle("Al".to_string()));
    send(&mut app, Message::AlbumArtist("AA".to_string()));
    assert_eq!((app.album_title.as_str(), app.album_artist.as_str()), ("Al", "AA"));
    // Nothing to mark without a recording.
    let mut empty = App::default();
    assert!(send(&mut empty, Message::AddMarkerAt(5, time(0, 0))).is_empty());
    assert!(empty.markers.is_empty());
}

#[test]
fn deleting_undoes_adding() {
    let mut app = open(10_000);
    send(&mut app, Message::AddMarkerAt(500, time(0, 500)));
    send(&mut app, Message::MarkerTitle(1, "T".to_string()));
    send(&mut app, Message::SetPlayhead(200));
    let before = positions(&app);
    for message in [
        Message::AddMarkerAt(500, time(0, 500)),
        Message::AddMarkerAtPlayhead(time(0, 200)),
        Message::AddMarkerAt(9_000, time(9, 0)),
    ] {
        let id = app.next_id;
        send(&mut app, message);
        assert_eq!(app.markers.len(), 3);
        assert!(app.markers.windows(2).all(|m| m[0].pos <= m[1].pos));
        send(&mut app, Message::DeleteMarker(id));
        assert_eq!(positions(&app), before);
        assert_eq!((app.next_id, app.playhead), (id + 1, 200));
    }
    assert_eq!(app.markers[1].title, "T");
}

#[test]
fn tracks_are_exported_up_to_the_next() {
    let mut app = open(1000);
    send(&mut app, Message::AddMarkerAt(300, time(0, 300)));
    let tracks = app.export_tracks();
    assert_eq!((tracks[0].start_frame, tracks[0].end_frame), (0, 300));
    assert_eq!((tracks[1].start_frame, tracks[1].end_frame), (300, 1000));
    assert!(App::default().export_tracks().is_empty());
}

#[test]
fn detection_replaces_markers() {
    let mut app = open(10_000);
    let mut quiet = vec![false; 400];
    quiet.extend(vec![true; 100]);
    quiet.extend(vec![false; 500]);
    let message = |quiet: &Vec<bool>| Message::Detect {
        quiet: quiet.clone(),
        params: DetectParams { min_gap_windows: 50, min_track_ms: 3_000 },
        threshold: "-40".to_string(),
        min_gap: "0.5".to_string(),
    };
    assert_eq!(send(&mut app, message(&quiet)), vec!["redraw"]);
    assert_eq!(positions(&app), vec![(1, 0), (2, 4950)]);
    assert_eq!(app.next_id, 3);
    assert_eq!(
        app.status,
        "Detected 2 tracks (threshold -40 dB, min gap 0.5 s). Existing markers were replaced."
    );
    let mut empty = App::default();
    assert!(send(&mut empty, message(&quiet)).is_empty());
}

#[test]
fn playback_starts_stops_and_ends() {
    let mut app = open(10_000);
    assert_eq!(send(&mut app, Message::PlayPause), vec!["play 0"]);
    assert_eq!(app.controls().play_label, "Pause");
    assert_eq!(send(&mut app, Message::Tick(40)), vec!["show"]);
    assert_eq!(app.playhead, 40);
    assert_eq!(send(&mut app, Message::SetPlayhead(500)), vec!["play 500"]);
    assert_eq!(send(&mut app, Message::SeekVisible(20_000)), vec!["shift", "play 10000"]);
    assert_eq!(app.playhead, 10_000);
    assert_eq!(send(&mut app, Message::SeekVisible(700)), vec!["shift", "play 700"]);
    assert_eq!(app.playhead, 700);
    assert_eq!(send(&mut app, Message::SetPlayhead(9_000)), vec!["play 9000"]);
    assert_eq!(send(&mut app, Message::Tick(usize::MAX)), vec!["stop"]);
    assert_eq!((app.playhead, app.playing), (10_000, false));
    assert!(send(&mut app, Message::Tick(1)).is_empty());
    assert!(send(&mut app, Message::SetPlayhead(5)).is_empty());
    assert_eq!(send(&mut app, Message::PlayPause), vec!["play 5"]);
    assert_eq!(send(&mut app, Message::PlayPause), vec!["stop"]);
    assert_eq!(send(&mut app, Message::Stop), vec!["stop"]);
    assert_eq!(send(&mut app, Message::GotoMarker(0)), vec!["show", "redraw", "play 0"]);
    assert!(send(&mut app, Message::GotoMarker(9)).is_empty());
    let mut empty = App::default();
    assert!(send(&mut empty, Message::PlayPause).is_empty());
    assert!(send(&mut empty, Message::SeekVisible(3)).is_empty());
    assert!(!empty.playing);
}

#[test]
fn tracks_are_stepped_through() {
    let mut app = open(100_000);
    for frame in [20_000, 20_000, 50_000] {
        send(&mut app, Message::AddMarkerAt(frame, time(0, 0)));
    }
    assert_eq!(send(&mut app, Message::NextTrack), vec!["show"]);
    assert_eq!(app.playhead, 20_000);
    send(&mut app, Message::NextTrack);
    assert_eq!(app.playhead, 50_000);
    assert!(send(&mut app, Message::NextTrack).is_empty());
    // Three seconds in it is not yet far enough to start the track again.
    send(&mut app, Message::SetPlayhead(53_000));
    send(&mut app, Message::PrevTrack);
    assert_eq!(app.playhead, 20_000);
    send(&mut app, Message::SetPlayhead(53_001));
    send(&mut app, Message::PrevTrack);
    assert_eq!(app.playhead, 50_000);
    send(&mut app, Message::SetPlayhead(20_000));
    send(&mut app, Message::PrevTrack);
    assert_eq!(app.playhead, 0);
    send(&mut app, Message::PlayPause);
    assert_eq!(send(&mut app, Message::NextTrack), vec!["show", "play 20000"]);
    // Before the first track there is nothing to go back to.
    send(&mut app, Message::DeleteMarker(0));
    send(&mut app, Message::SetPlayhead(10_000));
    assert!(send(&mut app, Message::PrevTrack).is_empty());
    assert_eq!(app.playhead, 10_000);
}

#[test]
fn sheets_are_exported() {
    let mut app = App::default();
    assert!(send(&mut app, Message::ExportCue).is_empty());
    let mut app = open(10_000);
    send(&mut app, Message::AddMarkerAt(4000, time(4, 0)));
    send(&mut app, Message::MarkerTitle(1, "Two".to_string()));
    send(&mut app, Message::AlbumArtist("Band".to_string()));
    assert_eq!(send(&mut app, Message::ExportCue), vec!["pick cue path"]);
    assert!(send(&mut app, Message::CuePathChosen(None)).is_empty());
    let effects = app.update(Message::CuePathChosen(Some(vec![0, 300])));
    match &effects[0] {
        Effect::WriteCue { text, count } => {
            assert_eq!(*count, 2);
            assert_eq!(
                text,
                "PERFORMER \"Band\"\nFILE \"a.wav\" WAVE\n  TRACK 01 AUDIO\n    TITLE \"Track 01\"\n    PERFORMER \"Band\"\n    INDEX 01 00:00:00\n  TRACK 02 AUDIO\n    TITLE \"Two\"\n    PERFORMER \"Band\"\n    INDEX 01 00:04:00\n"
            );
        }
        _ => panic!("no sheet"),
    }
    send(&mut app, Message::CueWritten(2, Ok("/x/a.cue".to_string())));
    assert_eq!(app.status, "Wrote /x/a.cue (2 tracks).");
    send(&mut app, Message::CueWritten(2, Err("disk full".to_string())));
    assert_eq!(app.status, "disk full");
    send(&mut app, Message::DeleteMarker(0));
    send(&mut app, Message::DeleteMarker(1));
    assert!(send(&mut app, Message::ExportCue).is_empty());
    assert_eq!(app.status, "No markers to export.");
    assert!(!app.controls().can_export_cue);
}

#[test]
fn recordings_are_exported_one_at_a_time() {
    let mut app = open(10_000);
    assert!(app.controls().can_export_flac);
    assert_eq!(send(&mut app, Message::ExportFlac), vec!["pick dir"]);
    assert!(send(&mut app, Message::FlacDirChosen(false)).is_empty());
    assert_eq!(send(&mut app, Message::FlacDirChosen(true)), vec!["export 1"]);
    assert_eq!(app.status, "Exporting 1 FLAC files…");
    assert!(send(&mut app, Message::ExportFlac).is_empty());
    assert!(send(&mut app, Message::ExportFlacCue).is_empty());
    assert!(!app.controls().can_export_flac);
    send(&mut app, Message::FlacDone(Ok(1)));
    assert_eq!(app.status, "Exported 1 FLAC files.");
    send(&mut app, Message::FlacDone(Err("x".to_string())));
    assert_eq!(app.status, "FLAC export failed: x");
    assert_eq!(send(&mut app, Message::ExportFlacCue), vec!["pick flac path"]);
    assert!(send(&mut app, Message::FlacCuePathChosen(Target::Cancelled)).is_empty());
    assert!(send(&mut app, Message::FlacCuePathChosen(Target::LoadedFile)).is_empty());
    assert_eq!(app.status, "Refusing to overwrite the loaded file — pick another name.");
    assert!(!app.exporting);
    assert_eq!(send(&mut app, Message::FlacCuePathChosen(Target::OtherFile)), vec!["export single 1"]);
    assert_eq!(app.status, "Exporting FLAC with embedded cue sheet…");
    assert!(app.exporting);
    send(&mut app, Message::FlacCueDone(Ok("/x/y.flac".to_string())));
    assert_eq!(app.status, "Wrote /x/y.flac with embedded cue sheet.");
    assert!(!app.exporting);
    send(&mut app, Message::FlacCueDone(Err("x".to_string())));
    assert_eq!(app.status, "FLAC+CUE export failed: x");
    let mut empty = App::default();
    assert!(send(&mut empty, Message::ExportFlac).is_empty());
    assert!(send(&mut empty, Message::FlacDirChosen(true)).is_empty());
    assert!(send(&mut empty, Message::FlacCuePathChosen(Target::OtherFile)).is_empty());
}

#[test]
fn devices_are_selected() {
    let mut app = open(100);
    send(&mut app, Message::PlayPause);
    let effects = send(&mut app, Message::DeviceSelected("USB".to_string()));
    assert_eq!(effects, vec!["stop", "device Some(\"USB\")"]);
    assert_eq!((app.selected_device.as_str(), app.playing), ("USB", false));
    let effects = send(&mut app, Message::DeviceSelected("System default".to_string()));
    assert_eq!(effects, vec!["stop", "device None"]);
}

#[test]
fn every_edit_is_dropped_while_read_only() {
    let mut app = open(10_000);
    send(&mut app, Message::AlbumTitle("Al".to_string()));
    send(&mut app, Message::SetReadOnly(true));
    let edits = vec![
        Message::Detect {
            quiet: vec![true; 1000],
            params: DetectParams::default(),
            threshold: String::new(),
            min_gap: String::new(),
        },
        Message::AddMarkerAtPlayhead(time(0, 0)),
        Message::AddMarkerAt(3, time(0, 0)),
        Message::MoveMarker(0, 7),
        Message::DeleteMarker(0),
        Message::MarkerTitle(0, "x".to_string()),
        Message::MarkerArtist(0, "x".to_string()),
        Message::AlbumTitle("x".to_string()),
        Message::AlbumArtist("x".to_string()),
    ];
    let status = app.status.clone();
    for edit in edits {
        assert!(send(&mut app, edit).is_empty());
    }
    assert_eq!(positions(&app), vec![(0, 0)]);
    assert_eq!(app.markers[0].title, "");
    assert_eq!((app.album_title.as_str(), app.album_artist.as_str()), ("Al", ""));
    assert_eq!(app.status, status);
}

#[test]
fn reopening_restores_titles() {
    let mut app = open(10_000);
    for frame in [2000, 4000] {
        send(&mut app, Message::AddMarkerAt(frame, time(0, 0)));
    }
    send(&mut app, Message::AlbumArtist("Band".to_string()));
    send(&mut app, Message::MarkerTitle(1, "Two".to_string()));
    send(&mut app, Message::MarkerArtist(2, "\"The\" Guest".to_string()));
    let effects = app.update(Message::CuePathChosen(Some(vec![0, 150, 300])));
    let cue: ParsedCue = match &effects[0] {
        Effect::WriteCue { text, .. } => parse_cue(text).unwrap(),
        _ => panic!("no sheet"),
    };
    let starts: Vec<&CueTrack> = cue.tracks.iter().collect();
    assert_eq!(starts[2].start, 300);
    let mut again = App::default();
    again.read_cue_file(cue, true, true).unwrap();
    let loaded = Loaded { audio: recording(10_000), positions: vec![0, 2000, 4000], duration: time(10, 0) };
    again.update(Message::Loaded(Ok(loaded)));
    assert_eq!(again.markers.len(), app.markers.len());
    // Double quotes come back single.
    assert_eq!(again.markers[2].artist, "'The' Guest");
    for (a, b) in app.markers.iter().zip(&again.markers) {
        assert_eq!((a.pos, &a.title, a.artist.replace('"', "'")), (b.pos, &b.title, b.artist.clone()));
    }
}

#[test]
fn names_are_suggested() {
    assert!(is_cue_file(Some("cue")) && is_cue_file(Some("CUE")));
    assert!(!is_cue_file(Some("cues")) && !is_cue_file(None));
    assert_eq!(cue_file_name(Some("x")), "x.cue");
    assert_eq!(cue_file_name(None), "album.cue");
    assert_eq!(flac_cue_file_name(Some("x")), "x (with cue).flac");
    assert_eq!(flac_cue_file_name(None), "album (with cue).flac");
    assert_eq!(position_text(time(1, 2), Some(time(61, 0))), "Playhead: 00:01.002  /  01:01.000");
    assert_eq!(position_text(time(0, 0), None), "Playhead: 00:00.000  /  --:--");
}

use std::io::Cursor;
use std::sync::Arc;

use audio_split::app::{App, Loaded, Location, Message, Time};
use audio_split::audio::{AudioData, Decoded, Loader, Packet, Step, TrackInfo};
use audio_split::cue::{cue_text, parse_cue, read_embedded_cue, CueTrack, ParsedCue};
use audio_split::detect::{detect_track_starts, window_count, window_frames, DetectParams};
use audio_split::flac_export::{
    encode_range, export_single_with_cue, export_tracks, tag_flac, tag_single_with_cue, ExportTrack,
};
use audio_split::sample::{bits_of_rank, rank_of_bits};

/// A 16-bit PCM WAV file from normalized samples.
fn wav_bytes(samples: &[f32], sample_rate: u32, channels: u16) -> Vec<u8> {
    let data_len = (samples.len() * 2) as u32;
    let mut f: Vec<u8> = Vec::new();
    f.extend_from_slice(b"RIFF");
    f.extend_from_slice(&(36 + data_len).to_le_bytes());
    f.extend_from_slice(b"WAVE");
    f.extend_from_slice(b"fmt ");
    f.extend_from_slice(&16u32.to_le_bytes());
    f.extend_from_slice(&1u16.to_le_bytes());
    f.extend_from_slice(&channels.to_le_bytes());
    f.extend_from_slice(&sample_rate.to_le_bytes());
    f.extend_from_slice(&(sample_rate * channels as u32 * 2).to_le_bytes());
    f.extend_from_slice(&(channels * 2).to_le_bytes());
    f.extend_from_slice(&16u16.to_le_bytes());
    f.extend_from_slice(b"data");
    f.extend_from_slice(&data_len.to_le_bytes());
    for &s in samples {
        let v = (s * 32767.0).clamp(-32768.0, 32767.0) as i16;
        f.extend_from_slice(&v.to_le_bytes());
    }
    f
}

/// Three 20 s tone "tracks" separated by 2 s of silence, 44.1 kHz stereo.
fn make_test_audio() -> Vec<u8> {
    let sr = 44100u32;
    let mut samples: Vec<f32> = Vec::new();
    for track in 0..3 {
        if track > 0 {
            samples.extend(std::iter::repeat(0.0).take((sr as usize * 2) * 2));
        }
        let freq = 220.0 * (track + 1) as f32;
        for i in 0..(sr as usize * 20) {
            let t = i as f32 / sr as f32;
            let v = 0.5 * (2.0 * std::f32::consts::PI * freq * t).sin();
            samples.push(v);
            samples.push(v);
        }
    }
    wav_bytes(&samples, sr, 2)
}

/// Decodes a file held in memory.
fn load(name: &str, bytes: Vec<u8>) -> Result<AudioData, String> {
    let mss = symphonia::core::io::MediaSourceStream::new(Box::new(Cursor::new(bytes)), Default::default());
    let mut format = symphonia::default::get_probe()
        .format(&symphonia::core::probe::Hint::new(), mss, &symphonia::core::formats::FormatOptions::default(), &symphonia::core::meta::MetadataOptions::default())
        .map_err(|e| format!("Unsupported format: {e}"))?
        .format;
    let params = format.default_track().map(|t| t.codec_params.clone());
    let mut loader = Loader::new(format.default_track().map(|t| TrackInfo {
        id: t.id,
        sample_rate: t.codec_params.sample_rate,
        channels: t.codec_params.channels.map(|c| c.count()),
        bits_per_sample: t.codec_params.bits_per_sample,
    }))?;
    let mut decoder = symphonia::default::get_codecs()
        .make(&params.unwrap(), &symphonia::core::codecs::DecoderOptions::default())
        .map_err(|e| format!("Cannot create decoder: {e}"))?;
    loop {
        let (event, packet) = match format.next_packet() {
            Ok(p) => (Packet::Data { track_id: p.track_id() }, Some(p)),
            Err(symphonia::core::errors::Error::IoError(e)) if e.kind() == std::io::ErrorKind::UnexpectedEof => {
                (Packet::EndOfFile, None)
            }
            Err(symphonia::core::errors::Error::ResetRequired) => (Packet::ResetRequired, None),
            Err(e) => (Packet::Failed(format!("{e}")), None),
        };
        match loader.on_packet(event) {
            Step::Decode => {}
            Step::Skip => continue,
            Step::Done => break,
            Step::Fail(e) => return Err(e),
        }
        let decoded = match decoder.decode(&packet.unwrap()) {
            Ok(decoded) => {
                let mut buf = symphonia::core::audio::SampleBuffer::<f32>::new(decoded.capacity() as u64, *decoded.spec());
                buf.copy_interleaved_ref(decoded);
                Decoded::Samples(buf.samples().iter().map(|s| rank_of_bits(s.to_bits())).collect())
            }
            Err(symphonia::core::errors::Error::DecodeError(_)) => Decoded::Corrupt,
            Err(e) => Decoded::Failed(format!("{e}")),
        };
        loader.on_decoded(decoded)?;
    }
    loader.finish(name.to_string())
}

/// Which analysis windows lie below a threshold.
fn quiet_windows(audio: &AudioData, threshold_db: f32) -> Vec<bool> {
    let win = window_frames(audio.sample_rate);
    let threshold = 10f32.powf(threshold_db / 20.0);
    let mut quiet = Vec::new();
    for w in 0..window_count(audio.frames(), audio.sample_rate) {
        let mut sum_sq = 0f32;
        for i in w * win * audio.channels..(w + 1) * win * audio.channels {
            let s = f32::from_bits(bits_of_rank(audio.samples[i]));
            sum_sq += s * s;
        }
        quiet.push(sum_sq / ((win * audio.channels) as f32) < threshold * threshold);
    }
    quiet
}

fn cd_frames(secs: f64) -> u128 {
    (secs * 75.0).round() as u64 as u128
}

fn start_secs(track: &CueTrack) -> f64 {
    (track.start / 75) as f64 + (track.start % 75) as f64 / 75.0
}

/// A file with its comments changed.
fn tagged(file: Vec<u8>, change: impl FnOnce(&mut metaflac::block::VorbisComment)) -> Vec<u8> {
    let mut tag = metaflac::Tag::read_from(&mut Cursor::new(&file)).unwrap();
    change(tag.vorbis_comments_mut());
    let mut out = Vec::new();
    tag.write_to(&mut out).unwrap();
    out.extend(metaflac::Tag::skip_metadata(&mut Cursor::new(&file)));
    out
}

/// The cue sheet embedded in a file, if it has comments and one among them.
fn embedded_cue(file: &[u8]) -> Option<ParsedCue> {
    let tag = metaflac::Tag::read_from(&mut Cursor::new(file)).ok()?;
    read_embedded_cue(tag.vorbis_comments()?)
}

#[test]
fn end_to_end() {
    let wav = make_test_audio();

    // Load.
    let audio = load("test_album.wav", wav.clone()).expect("load wav");
    assert_eq!(audio.channels, 2);
    assert_eq!(audio.sample_rate, 44100);
    let expected_frames = 44100 * (3 * 20 + 2 * 2);
    assert_eq!(audio.frames(), expected_frames);
    assert!(!audio.peaks[0].is_empty());

    // Detect: should find exactly the 3 track starts.
    let quiet = quiet_windows(&audio, -40.0);
    let starts = detect_track_starts(&quiet, audio.sample_rate, &DetectParams::default());
    assert_eq!(starts.len(), 3, "expected 3 tracks, got {starts:?}");
    assert_eq!(starts[0], 0);
    // Track 2 starts at 22 s (20 s tone + 2 s gap), minus the 50 ms backoff.
    let t2 = starts[1] as f64 / 44100.0;
    assert!((t2 - 22.0).abs() < 0.2, "track 2 at {t2}");
    let t3 = starts[2] as f64 / 44100.0;
    assert!((t3 - 44.0).abs() < 0.2, "track 3 at {t3}");

    // CUE export.
    let tracks: Vec<CueTrack> = starts
        .iter()
        .enumerate()
        .map(|(i, &pos)| CueTrack {
            start: cd_frames(pos as f64 / 44100.0),
            title: format!("Song {}", i + 1),
            artist: "Tester".to_string(),
        })
        .collect();
    let cue_text = cue_text("test_album.wav", "Tester", "Test Album", &tracks);
    assert!(cue_text.contains("FILE \"test_album.wav\" WAVE"));
    assert!(cue_text.contains("TRACK 01 AUDIO"));
    assert!(cue_text.contains("TRACK 03 AUDIO"));
    assert!(cue_text.contains("INDEX 01 00:00:00"));
    // 21.95 s (22 s minus 50 ms backoff) ≈ 21 s + 71 frames.
    assert!(cue_text.contains("INDEX 01 00:21:7"), "cue times wrong:\n{cue_text}");

    // FLAC export.
    let export_list: Vec<ExportTrack> = starts
        .iter()
        .enumerate()
        .map(|(i, &pos)| ExportTrack {
            start_frame: pos,
            end_frame: starts.get(i + 1).copied().unwrap_or(audio.frames()),
            title: format!("Song {}", i + 1),
            artist: "Tester".to_string(),
        })
        .collect();
    let files = export_tracks(&audio, "Tester", &export_list);
    assert_eq!(files.len(), 3);

    // Each FLAC must decode to the right length and carry the right tags.
    let mut plain_flacs = Vec::new();
    for (i, track) in export_list.iter().enumerate() {
        let file = &files[i];
        assert_eq!(file.file_name, format!("{:02} - Tester - Song {}.flac", i + 1, i + 1));
        let bytes = encode_range(&audio, file.begin, file.end).expect("flac export");
        let bytes = tagged(bytes, |comments| {
            tag_flac(
                comments,
                &file.title,
                &file.artist,
                "Tester",
                "Test Album",
                file.number as u32,
                export_list.len() as u32,
            )
        });

        let decoded = load(&file.file_name, bytes.clone()).expect("re-load exported flac");
        assert_eq!(decoded.frames(), track.end_frame - track.start_frame);
        assert_eq!(decoded.samples, audio.samples[file.begin..file.end]);

        let tag = metaflac::Tag::read_from(&mut Cursor::new(&bytes)).unwrap();
        let comments = tag.vorbis_comments().unwrap();
        assert_eq!(comments.title().unwrap()[0], format!("Song {}", i + 1));
        assert_eq!(comments.album().unwrap()[0], "Test Album");
        assert_eq!(comments.track().unwrap(), (i + 1) as u32);
        assert_eq!(comments.total_tracks().unwrap(), 3);
        assert_eq!(comments.artist().unwrap()[0], "Tester");
        assert_eq!(comments.album_artist().unwrap()[0], "Tester");
        plain_flacs.push(bytes);
    }

    // Single FLAC with embedded cue sheet.
    let cd_starts: Vec<u64> = starts.iter().map(|&p| cd_frames(p as f64 / 44100.0) as u64).collect();
    let single = export_single_with_cue(
        &audio,
        "album_with_cue.flac",
        "Tester",
        "Test Album",
        &export_list,
        &cd_starts,
    )
    .expect("flac+cue export");
    let bytes = tagged(single.bytes, |comments| {
        tag_single_with_cue(comments, "Tester", "Test Album", &single.cue)
    });

    let decoded = load("album_with_cue.flac", bytes.clone()).expect("re-load flac+cue");
    assert_eq!(decoded.frames(), audio.frames());
    assert_eq!(decoded.samples, audio.samples);

    let tag = metaflac::Tag::read_from(&mut Cursor::new(&bytes)).unwrap();
    let comments = tag.vorbis_comments().unwrap();
    assert_eq!(comments.album().unwrap()[0], "Test Album");
    let embedded = &comments.get("CUESHEET").unwrap()[0];
    assert!(embedded.contains("FILE \"album_with_cue.flac\" WAVE"));
    assert!(embedded.contains("TRACK 03 AUDIO"));
    assert!(embedded.contains("TITLE \"Song 2\""));

    // The embedded cue sheet must read back like an opened .cue file.
    let parsed = embedded_cue(&bytes).expect("embedded cue");
    assert_eq!(parsed.album_artist, "Tester");
    assert_eq!(parsed.album_title, "Test Album");
    assert_eq!(parsed.tracks.len(), 3);
    assert_eq!(parsed.tracks[1].title, "Song 2");
    assert!((start_secs(&parsed.tracks[1]) - starts[1] as f64 / 44100.0).abs() < 1.0 / 75.0);
    // Plain audio files carry no cue sheet.
    assert!(embedded_cue(&wav).is_none());
    assert!(embedded_cue(&plain_flacs[0]).is_none());
    for flac in &plain_flacs {
        let tag = metaflac::Tag::read_from(&mut Cursor::new(flac)).unwrap();
        assert!(read_embedded_cue(tag.vorbis_comments().unwrap()).is_none());
    }
}

/// What goes with a recording of the test album that was read.
fn loaded(app: &App, audio: Arc<AudioData>) -> Message {
    let sr = audio.sample_rate as f64;
    let positions = match &app.pending_cue {
        Some(cue) => cue.tracks.iter().map(|t| (start_secs(t) * sr) as usize).collect(),
        None => Vec::new(),
    };
    Message::Loaded(Ok(Loaded { audio, positions, duration: Time { secs: 64, ms: 0 } }))
}

#[test]
fn open_cue_populates_app() {
    let wav = make_test_audio();
    let tracks = vec![
        CueTrack { start: cd_frames(0.0), title: "First".to_string(), artist: String::new() },
        CueTrack { start: cd_frames(22.0), title: String::new(), artist: "Guest".to_string() },
    ];
    let text = cue_text("test_album.wav", "Tester", "Test Album", &tracks);

    let mut app = App::default();
    let cue = parse_cue(&text).expect("resolve cue");
    assert_eq!(cue.audio_file, "test_album.wav");
    assert!(matches!(app.read_cue_file(cue, true, true), Ok(Location::AsWritten)));

    let audio = Arc::new(load("test_album.wav", wav).unwrap());
    let message = loaded(&app, audio.clone());
    let _ = app.update(message);

    assert_eq!(app.album_artist, "Tester");
    assert_eq!(app.album_title, "Test Album");
    assert_eq!(app.markers.len(), 2);
    assert_eq!(app.markers[0].title, "First");
    assert_eq!(app.markers[0].artist, "");
    assert_eq!(app.markers[1].title, ""); // "Track 02" placeholder stripped
    assert_eq!(app.markers[1].artist, "Guest");
    assert_eq!(app.markers[1].pos, 22 * 44100);
    assert_eq!(
        app.status,
        "Loaded test_album.wav — 2 ch, 44100 Hz, 16 bit, 01:04.000 — 2 tracks from cue sheet"
    );

    // Prev/Next track navigation over the marker positions (0 s and 22 s).
    let _ = app.update(Message::NextTrack);
    assert_eq!(app.playhead, 22 * 44100);
    let _ = app.update(Message::NextTrack); // no next track: stays put
    assert_eq!(app.playhead, 22 * 44100);
    let _ = app.update(Message::SetPlayhead(30 * 44100));
    let _ = app.update(Message::PrevTrack); // >3 s in: restart track 2
    assert_eq!(app.playhead, 22 * 44100);
    let _ = app.update(Message::PrevTrack); // near start: previous track
    assert_eq!(app.playhead, 0);
    let _ = app.update(Message::PrevTrack); // nothing before: stays at 0
    assert_eq!(app.playhead, 0);

    // Cue-derived tracklists open read-only: editing messages are dropped.
    assert!(app.read_only);
    let marker_id = app.markers[0].id;
    let _ = app.update(Message::DeleteMarker(marker_id));
    let _ = app.update(Message::MarkerTitle(marker_id, "Changed".into()));
    let _ = app.update(Message::AddMarkerAt(1000, Time { secs: 0, ms: 22 }));
    let _ = app.update(Message::AlbumTitle("Changed".into()));
    assert_eq!(app.markers.len(), 2);
    assert_eq!(app.markers[0].title, "First");
    assert_eq!(app.album_title, "Test Album");

    // Toggling read-only off re-enables editing.
    let _ = app.update(Message::SetReadOnly(false));
    let _ = app.update(Message::MarkerTitle(marker_id, "Changed".into()));
    assert_eq!(app.markers[0].title, "Changed");

    // Re-loading raw audio (no pending cue) resets to editable.
    let _ = app.update(Message::SetReadOnly(true));
    let message = loaded(&app, audio);
    let _ = app.update(message);
    assert!(!app.read_only);
}

use audio_split::cue::{
    cue_text, cue_time, escape, file_arg, is_default_title, parse_cue, parse_cue_time,
    read_embedded_cue, string_arg, title_or_default, CueTrack,
};

fn chars(s: &str) -> Vec<char> {
    s.chars().collect()
}

fn cd_frames(secs: f64) -> u128 {
    (secs * 75.0).round() as u64 as u128
}

fn start_secs(track: &CueTrack) -> f64 {
    (track.start / 75) as f64 + (track.start % 75) as f64 / 75.0
}

#[test]
fn cue_parse_roundtrip() {
    let tracks = vec![
        CueTrack {
            start: cd_frames(0.0),
            title: "Song 1".to_string(),
            artist: "Someone Else".to_string(),
        },
        CueTrack {
            start: cd_frames(21.95),
            title: String::new(), // exported as placeholder "Track 02"
            artist: String::new(), // exported as the album artist
        },
    ];
    let text = cue_text("album.flac", "Tester", "Test Album", &tracks);
    let parsed = parse_cue(&text).unwrap();

    assert_eq!(parsed.audio_file, "album.flac");
    assert_eq!(parsed.album_artist, "Tester");
    assert_eq!(parsed.album_title, "Test Album");
    assert_eq!(parsed.tracks.len(), 2);
    assert_eq!(parsed.tracks[0].title, "Song 1");
    assert_eq!(parsed.tracks[0].artist, "Someone Else");
    assert!((start_secs(&parsed.tracks[1]) - 21.95).abs() < 1.0 / 75.0);
    // The parser is faithful; the placeholder rules are applied on load.
    assert_eq!(parsed.tracks[1].title, "Track 02");
    assert!(is_default_title(&parsed.tracks[1].title, 2));
    assert!(!is_default_title(&parsed.tracks[1].title, 3));
    assert!(is_default_title("track 2", 2));
    assert!(!is_default_title("Track Two", 2));
    assert_eq!(parsed.tracks[1].artist, "Tester"); // == album artist → emptied on load

    // Unquoted FILE argument and INDEX 00 fallback.
    let alt = "FILE recording.wav WAVE\n  TRACK 01 AUDIO\n    INDEX 00 01:02:37\n";
    let parsed = parse_cue(alt).unwrap();
    assert_eq!(parsed.audio_file, "recording.wav");
    assert!((start_secs(&parsed.tracks[0]) - (62.0 + 37.0 / 75.0)).abs() < 1e-9);
}

#[test]
fn sheet_text_is_exact() {
    let tracks = vec![
        CueTrack { start: 0, title: "A \"b\" c".to_string(), artist: String::new() },
        CueTrack { start: 75 * 60 * 100 + 74, title: String::new(), artist: "G".to_string() },
    ];
    assert_eq!(
        cue_text("x.flac", "Art", "Alb", &tracks),
        "PERFORMER \"Art\"\nTITLE \"Alb\"\nFILE \"x.flac\" WAVE\n  TRACK 01 AUDIO\n    TITLE \"A 'b' c\"\n    PERFORMER \"Art\"\n    INDEX 01 00:00:00\n  TRACK 02 AUDIO\n    TITLE \"Track 02\"\n    PERFORMER \"G\"\n    INDEX 01 100:00:74\n"
    );
    assert_eq!(cue_text("x", "", "", &[]), "FILE \"x\" WAVE\n");
    let bare = vec![CueTrack { start: 1, title: "T".to_string(), artist: String::new() }];
    assert_eq!(
        cue_text("x", "", "", &bare),
        "FILE \"x\" WAVE\n  TRACK 01 AUDIO\n    TITLE \"T\"\n    INDEX 01 00:00:01\n"
    );
}

#[test]
fn sheets_that_lack_something_are_refused() {
    assert_eq!(parse_cue("TRACK 01 AUDIO\nINDEX 01 00:00:00").err().unwrap(), "Cue sheet has no FILE command");
    assert_eq!(parse_cue("").err().unwrap(), "Cue sheet has no FILE command");
    assert_eq!(
        parse_cue("FILE \"a\" WAVE\nTRACK 01 AUDIO\n").err().unwrap(),
        "Cue sheet has no tracks with an INDEX"
    );
    assert_eq!(
        parse_cue("FILE \"a\" WAVE\nINDEX 01 00:00:00\nTRACK 01 AUDIO\nINDEX 01 00:60:00").err().unwrap(),
        "Cue sheet has no tracks with an INDEX"
    );
}

#[test]
fn commands_are_read_in_any_case_and_place() {
    let text = "rem comment\r\nperformer \"Band\"\r\nTitle \"Album\" ignored\r\nfile \"a b.wav\" WAVE\r\nFILE other.wav WAVE\r\n\r\n track 01 audio\r\n  title  Plain title \r\n  FLAGS DCP\r\n  index 00 00:01:00\r\n  index 01 00:02:00\r\n  index 02 00:03:00\r\ntrack 02 audio\r\n  PERFORMER \"Guest\"\r\n  INDEX 01 00:00:05\r\nTRACK 03 AUDIO\r\n";
    let parsed = parse_cue(text).unwrap();
    assert_eq!(parsed.audio_file, "a b.wav");
    assert_eq!(parsed.album_artist, "Band");
    assert_eq!(parsed.album_title, "Album");
    // By ascending start; the track without an index is left out.
    assert_eq!(parsed.tracks.len(), 2);
    assert_eq!(parsed.tracks[0].start, 5);
    assert_eq!(parsed.tracks[0].artist, "Guest");
    assert_eq!(parsed.tracks[0].title, "");
    assert_eq!(parsed.tracks[1].start, 150);
    assert_eq!(parsed.tracks[1].title, "Plain title");
}

#[test]
fn equal_starts_keep_their_order() {
    let text = "FILE f WAVE\nTRACK 01 AUDIO\nTITLE a\nINDEX 01 00:01:00\nTRACK 02 AUDIO\nTITLE b\nINDEX 01 00:00:00\nTRACK 03 AUDIO\nTITLE c\nINDEX 01 00:01:00\n";
    let titles: Vec<String> = parse_cue(text).unwrap().tracks.into_iter().map(|t| t.title).collect();
    assert_eq!(titles, vec!["b", "a", "c"]);
}

#[test]
fn times_are_read_and_written() {
    assert_eq!(parse_cue_time(&chars("01:02:37")), Some(62 * 75 + 37));
    assert_eq!(parse_cue_time(&chars(" 100:00:00 ")), Some(100 * 60 * 75));
    assert_eq!(parse_cue_time(&chars("+1:+2:+3")), Some(62 * 75 + 3));
    assert_eq!(parse_cue_time(&chars("00:60:00")), None);
    assert_eq!(parse_cue_time(&chars("00:00:75")), None);
    assert_eq!(parse_cue_time(&chars("00:00")), None);
    assert_eq!(parse_cue_time(&chars("00:00:00:00")), None);
    assert_eq!(parse_cue_time(&chars("-1:00:00")), None);
    assert_eq!(parse_cue_time(&chars("::")), None);
    assert_eq!(
        parse_cue_time(&chars("18446744073709551615:59:74")),
        Some((18446744073709551615u128 * 60 + 59) * 75 + 74)
    );
    assert_eq!(parse_cue_time(&chars("18446744073709551616:00:00")), None);
    assert_eq!(cue_time(0), "00:00:00");
    assert_eq!(cue_time(62 * 75 + 37), "01:02:37");
    assert_eq!(cue_time(75 * 60 * 123), "123:00:00");
    for frames in [0u128, 1, 74, 75, 4499, 4500, 999_999, u64::MAX as u128] {
        assert_eq!(parse_cue_time(&chars(&cue_time(frames))), Some(frames));
    }
    assert_eq!(cue_time(u64::MAX as u128 + 1), cue_time(u64::MAX as u128));
}

#[test]
fn arguments_are_quoted_or_not() {
    assert_eq!(string_arg(&chars("  \"a b\" c")), "a b");
    assert_eq!(string_arg(&chars("\"open")), "open");
    assert_eq!(string_arg(&chars("  a b  ")), "a b");
    assert_eq!(string_arg(&chars("")), "");
    assert_eq!(file_arg(&chars("\"a b.wav\" WAVE")), "a b.wav");
    assert_eq!(file_arg(&chars("a b.wav WAVE")), "a b.wav");
    assert_eq!(file_arg(&chars("a.wav")), "a.wav");
    assert_eq!(escape("say \"hi\""), "say 'hi'");
}

#[test]
fn placeholders_are_their_own() {
    for number in [1usize, 9, 10, 99, 100, 1234] {
        let title = title_or_default("", number);
        for other in [1usize, 9, 10, 99, 100, 1234] {
            assert_eq!(is_default_title(&title, other), number == other);
        }
    }
    assert!(is_default_title("  TRACK 7 ", 7));
    assert!(is_default_title("Track 07", 7));
    assert!(!is_default_title("Track 007", 7));
    assert_eq!(title_or_default("Name", 3), "Name");
    assert_eq!(title_or_default("", 123), "Track 123");
}

#[test]
fn embedded_sheets_are_found_in_any_case() {
    let sheet = "FILE \"a\" WAVE\nTRACK 01 AUDIO\nINDEX 01 00:00:10\n";
    let mut block = metaflac::block::VorbisComment::new();
    assert!(read_embedded_cue(&block).is_none());
    block.set("TITLE", vec![sheet]);
    assert!(read_embedded_cue(&block).is_none());
    block.set("CueSheet", vec![sheet, "second"]);
    assert_eq!(read_embedded_cue(&block).unwrap().tracks[0].start, 10);
    block.set("CueSheet", vec!["no sheet"]);
    assert!(read_embedded_cue(&block).is_none());
    block.set("CueSheet", Vec::<String>::new());
    assert!(read_embedded_cue(&block).is_none());
}

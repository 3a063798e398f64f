use audio_split::audio::AudioData;
use audio_split::cue::read_embedded_cue;
use audio_split::flac::{encode_flac, failure_text, finish_encoding, fix_block_size, FlacFailure};
use audio_split::flac_export::{
    encode_range, export_bits, export_single_with_cue, export_tracks, quantize_range,
    sanitize_filename, tag_flac, tag_single_with_cue, track_file_name, ExportTrack,
};
use audio_split::sample::rank_of_bits;

fn audio(frames: usize, channels: usize, sample_rate: u32, bits: u32) -> AudioData {
    let samples = (0..frames * channels)
        .map(|i| rank_of_bits((((i * 31) % 200) as f32 / 100.0 - 1.0).to_bits()))
        .collect();
    AudioData::new("in.wav".to_string(), samples, channels, sample_rate, bits)
}

fn track(start_frame: usize, end_frame: usize, title: &str, artist: &str) -> ExportTrack {
    ExportTrack { start_frame, end_frame, title: title.to_string(), artist: artist.to_string() }
}

#[test]
fn names_are_made_safe() {
    assert_eq!(sanitize_filename(" a<b>c:d\"e/f\\g|h?i*j\tk "), "a_b_c_d_e_f_g_h_i_j_k");
    assert_eq!(sanitize_filename("\u{7f}ü "), "_ü");
    assert_eq!(sanitize_filename("  "), "");
    assert_eq!(track_file_name(3, "A/B", "What?"), "03 - A_B - What_.flac");
    assert_eq!(track_file_name(3, "", "T"), "03 - T.flac");
    assert_eq!(track_file_name(123, " ", "T"), "123 -  - T.flac");
}

#[test]
fn files_are_those_of_tracks_with_samples() {
    let audio = audio(100, 2, 44100, 16);
    let tracks = vec![
        track(0, 40, "", ""),
        track(40, 40, "Empty", ""),
        track(40, 1000, "Rest", "Guest"),
        track(100, 100, "Behind", ""),
        track(200, 300, "Far", ""),
        track(usize::MAX, usize::MAX, "Beyond", ""),
    ];
    let files = export_tracks(&audio, "Band", &tracks);
    // The number of files written.
    assert_eq!(files.len(), 2);
    assert_eq!((files[0].begin, files[0].end), (0, 80));
    assert_eq!(files[0].file_name, "01 - Band - Track 01.flac");
    assert_eq!((files[0].title.as_str(), files[0].artist.as_str()), ("Track 01", "Band"));
    assert_eq!((files[1].begin, files[1].end), (80, 200));
    assert_eq!(files[1].number, 3);
    assert_eq!(files[1].file_name, "03 - Guest - Rest.flac");
    let files = export_tracks(&audio, "", &tracks[..1]);
    assert_eq!(files[0].file_name, "01 - Track 01.flac");
}

#[test]
fn split_files_hold_the_whole_recording() {
    let audio = audio(1000, 2, 44100, 16);
    let tracks = vec![track(10, 300, "a", ""), track(300, 300, "b", ""), track(300, 1000, "c", "")];
    let mut joined: Vec<i32> = Vec::new();
    for file in export_tracks(&audio, "", &tracks) {
        joined.extend_from_slice(&audio.samples[file.begin..file.end]);
    }
    assert_eq!(joined, audio.samples[20..]);
}

#[test]
fn bits_are_limited() {
    assert_eq!(export_bits(8), 16);
    assert_eq!(export_bits(16), 16);
    assert_eq!(export_bits(20), 20);
    assert_eq!(export_bits(24), 24);
    assert_eq!(export_bits(32), 24);
}

#[test]
fn ranges_are_quantized() {
    let samples: Vec<i32> = [0.0f32, 0.5, -0.5, 1.0, -1.0].iter().map(|s| rank_of_bits(s.to_bits())).collect();
    assert_eq!(quantize_range(&samples, 1, 5, 16), vec![16384, -16384, 32767, -32768]);
    assert_eq!(quantize_range(&samples, 1, 2, 24), vec![4194304]);
    assert!(quantize_range(&samples, 2, 2, 16).is_empty());
}

fn header_of(bytes: &[u8]) -> (usize, usize, usize, u64) {
    let word = u64::from_be_bytes(bytes[18..26].try_into().unwrap());
    (
        (word >> 44) as usize,
        (word >> 41 & 7) as usize + 1,
        (word >> 36 & 31) as usize + 1,
        word & 0xf_ffff_ffff,
    )
}

#[test]
fn streams_say_what_they_hold() {
    let samples: Vec<i32> = (0..10_000).map(|i| (i * 37 % 4001) - 2000).collect();
    for (channels, bits, rate) in [(1, 16, 8000u32), (2, 16, 44100), (2, 24, 96000), (8, 20, 48000)] {
        let bytes = encode_flac(&samples, channels, bits, rate).unwrap();
        assert_eq!(&bytes[..8], &[0x66, 0x4c, 0x61, 0x43, 0x80, 0, 0, 34]);
        assert_eq!(&bytes[8..12], &[0x10, 0, 0x10, 0]);
        assert_eq!(header_of(&bytes), (rate as usize, channels, bits, 10_000 / channels as u64));
        // Each block of 4096 frames lies behind the header, the last shorter.
        let blocks = (10_000 / channels + 4095) / 4096;
        assert!(bytes.len() >= 42 + 8 * blocks);
        assert_eq!(&bytes[42..44], &[0xff, 0xf8]);
        let again = encode_flac(&samples, channels, bits, rate).unwrap();
        assert_eq!(bytes[26..42], again[26..42]);
    }
    // The digest is that of other samples.
    let a = encode_flac(&samples, 1, 16, 8000).unwrap();
    let b = encode_flac(&samples[..9_999], 1, 16, 8000).unwrap();
    assert_ne!(a[26..42], b[26..42]);
    // One frame makes a block, less than one makes none.
    assert!(encode_flac(&[5, 6], 2, 16, 8000).unwrap().len() >= 50);
    assert_eq!(encode_flac(&[5], 2, 16, 8000).unwrap().len(), 42);
    // That of none is the MD5 digest of nothing.
    let none = encode_flac(&[], 1, 16, 8000).unwrap();
    assert_eq!(none.len(), 42);
    assert_eq!(
        &none[26..42],
        &[0xd4, 0x1d, 0x8c, 0xd9, 0x8f, 0x00, 0xb2, 0x04, 0xe9, 0x80, 0x09, 0x98, 0xec, 0xf8, 0x42, 0x7e]
    );
}

#[test]
fn unsupported_streams_are_refused() {
    for (channels, bits, rate) in [(0, 16, 8000), (9, 16, 8000), (257, 16, 8000), (1, 18, 8000), (1, 23, 8000), (1, 16, 96001), (1, 16, u32::MAX)] {
        let e = encode_flac(&[0; 2000], channels, bits, rate).err().unwrap();
        assert!(e.starts_with("FLAC encoding failed: "), "{e}");
    }
    let e = encode_range(&audio(10, 2, 192_000, 16), 0, 20).err().unwrap();
    assert!(e.starts_with("FLAC encoding failed: "), "{e}");
}

#[test]
fn failures_are_told() {
    assert_eq!(failure_text(FlacFailure::Config("x".to_string())), "Encoder config error: x");
    assert_eq!(failure_text(FlacFailure::Encoding("x".to_string())), "FLAC encoding failed: x");
    assert_eq!(failure_text(FlacFailure::Serialization("x".to_string())), "FLAC serialization failed: x");
}

#[test]
fn block_sizes_are_made_equal() {
    let mut bytes: Vec<u8> = b"fLaC\x80\x00\x00\x22\x00\x05\x10\x01\x00".to_vec();
    fix_block_size(&mut bytes);
    assert_eq!(bytes, b"fLaC\x80\x00\x00\x22\x10\x01\x10\x01\x00".to_vec());
    let mut short: Vec<u8> = b"fLaC\x80\x00\x00\x22\x00\x05\x10\x01".to_vec();
    fix_block_size(&mut short);
    assert_eq!(short, b"fLaC\x80\x00\x00\x22\x00\x05\x10\x01".to_vec());
    let mut other: Vec<u8> = b"OggS0123456789".to_vec();
    fix_block_size(&mut other);
    assert_eq!(other, b"OggS0123456789".to_vec());
}

#[test]
fn encoder_results_are_finished() {
    let bytes: Vec<u8> = b"fLaC\x80\x00\x00\x22\x00\x05\x10\x01\x00".to_vec();
    assert_eq!(finish_encoding(Ok(bytes)).unwrap()[8..10], [0x10, 1]);
    let e = finish_encoding(Err(FlacFailure::Serialization("s".to_string()))).err().unwrap();
    assert_eq!(e, "FLAC serialization failed: s");
}

#[test]
fn file_names_differ_by_number() {
    let names: Vec<String> = (1..=150).map(|n| track_file_name(n, "1", "1 - 1")).collect();
    for i in 0..names.len() {
        for j in 0..i {
            assert_ne!(names[i], names[j]);
        }
    }
}

#[test]
fn track_tags_are_set() {
    let mut block = metaflac::block::VorbisComment::new();
    block.set("TITLESORT", vec!["s"]);
    block.set("ARTISTSORT", vec!["s"]);
    block.set("ALBUMSORT", vec!["s"]);
    block.set("GENRE", vec!["Rock"]);
    tag_flac(&mut block, "T", "A", "AA", "Al", 3, 12);
    assert_eq!(block.get("TITLE").unwrap(), &vec!["T"]);
    assert_eq!(block.get("ARTIST").unwrap(), &vec!["A"]);
    assert_eq!(block.get("ALBUM").unwrap(), &vec!["Al"]);
    assert_eq!(block.get("ALBUMARTIST").unwrap(), &vec!["AA"]);
    assert_eq!(block.get("TRACKNUMBER").unwrap(), &vec!["3"]);
    assert_eq!(block.get("TOTALTRACKS").unwrap(), &vec!["12"]);
    assert_eq!(block.get("GENRE").unwrap(), &vec!["Rock"]);
    assert_eq!(block.comments.len(), 7);
    assert!(read_embedded_cue(&block).is_none());
}

#[test]
fn empty_tags_are_left_out() {
    let mut block = metaflac::block::VorbisComment::new();
    block.set("ARTISTSORT", vec!["s"]);
    tag_flac(&mut block, "T", "", "", "", 1, 1);
    let mut keys: Vec<&String> = block.comments.keys().collect();
    keys.sort();
    assert_eq!(keys, vec!["ARTISTSORT", "TITLE", "TOTALTRACKS", "TRACKNUMBER"]);
    let mut block = metaflac::block::VorbisComment::new();
    tag_single_with_cue(&mut block, "", "", "text");
    assert_eq!(block.comments.len(), 1);
    assert_eq!(block.get("CUESHEET").unwrap(), &vec!["text"]);
}

#[test]
fn embedded_sheet_reads_back() {
    let audio = audio(75_000, 1, 7500, 16);
    let tracks = vec![track(0, 30_000, "One", ""), track(30_000, 75_000, "", "Guest")];
    let single = export_single_with_cue(&audio, "out.flac", "Band", "Album", &tracks, &[0, 300]).unwrap();
    let mut block = metaflac::block::VorbisComment::new();
    block.set("CUESHEET", vec!["old"]);
    tag_single_with_cue(&mut block, "Band", "Album", &single.cue);
    assert_eq!(block.get("TITLE").unwrap(), &vec!["Album"]);
    assert_eq!(block.get("ALBUM").unwrap(), &vec!["Album"]);
    assert_eq!(block.get("ARTIST").unwrap(), &vec!["Band"]);
    assert_eq!(block.get("ALBUMARTIST").unwrap(), &vec!["Band"]);
    let cue = read_embedded_cue(&block).unwrap();
    assert_eq!(cue.audio_file, "out.flac");
    assert_eq!((cue.album_artist.as_str(), cue.album_title.as_str()), ("Band", "Album"));
    assert_eq!(cue.tracks.len(), 2);
    assert_eq!((cue.tracks[0].start, cue.tracks[1].start), (0, 300));
    assert_eq!((cue.tracks[0].title.as_str(), cue.tracks[0].artist.as_str()), ("One", "Band"));
    assert_eq!((cue.tracks[1].title.as_str(), cue.tracks[1].artist.as_str()), ("Track 02", "Guest"));
    let wide = audio_split::audio::AudioData::new("n".to_string(), vec![0; 90], 9, 8000, 16);
    assert!(export_single_with_cue(&wide, "x", "", "", &[], &[]).is_err());
}

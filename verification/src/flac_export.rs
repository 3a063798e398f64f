//! Splitting a recording into FLAC files, and tagging them.

use vstd::arithmetic::power2::pow2;
use vstd::prelude::*;

use crate::audio::AudioData;
use crate::comments::comments_of;
use crate::comments::{
    set_album, set_artist, set_comment, set_title, set_total_tracks, set_track,
};
use crate::cue::{cue_sheet, track_models, written_artist, written_title, TrackModel};
use crate::cue::{cue_text, title_or_default, CueTrack};
use crate::flac::{encode_flac, MAX_SAMPLES};
use crate::flac::{failure_message, fit, is_stream_of, is_supported, pcm_md5, FlacFailure};
use crate::number::{decimal, zero_padded};
use crate::number::push_two_digits;
use crate::sample::quantize;
use crate::sample::quantized;
use crate::text::{from_chars, is_control, to_chars, trim};
use crate::text::{is_control_char, trim_spec};

verus! {

/// A stretch of the recording to export, with its tags.
pub struct ExportTrack {
    pub start_frame: usize,
    pub end_frame: usize,
    pub title: String,
    pub artist: String,
}

/// Whether a character cannot stand in a file name.
pub open spec fn is_unsafe_in_file_name(c: char) -> bool {
    ||| c == '<'
    ||| c == '>'
    ||| c == ':'
    ||| c == '"'
    ||| c == '/'
    ||| c == '\\'
    ||| c == '|'
    ||| c == '?'
    ||| c == '*'
    ||| is_control_char(c)
}

/// `s` with every unsafe character replaced by an underscore, trimmed.
pub open spec fn sanitized(s: Seq<char>) -> Seq<char> {
    trim_spec(s.map_values(|c: char| if is_unsafe_in_file_name(c) { '_' } else { c }))
}

/// `s` made fit for a file name.
pub fn sanitize_filename(s: &str) -> (r: String)
    ensures
        r@ == sanitized(s@),
{
    let ghost safe = s@.map_values(|c: char| if is_unsafe_in_file_name(c) { '_' } else { c });
    let chars = to_chars(s);
    let mut out: Vec<char> = Vec::new();
    let mut i: usize = 0;
    while i < chars.len()
        invariant
            i <= chars.len(),
            chars@ == s@,
            safe == s@.map_values(|c: char| if is_unsafe_in_file_name(c) { '_' } else { c }),
            out@ == safe.take(i as int),
        decreases chars.len() - i,
    {
        let c = chars[i];
        if c == '<' || c == '>' || c == ':' || c == '"' || c == '/' || c == '\\' || c == '|'
            || c == '?' || c == '*' || is_control(c) {
            out.push('_');
        } else {
            out.push(c);
        }
        i = i + 1;
        assert(out@ =~= safe.take(i as int));
    }
    assert(safe.take(safe.len() as int) =~= safe);
    from_chars(trim(out.as_slice()))
}

/// The content of an [`ExportTrack`].
pub struct ExportModel {
    pub start_frame: nat,
    pub end_frame: nat,
    pub title: Seq<char>,
    pub artist: Seq<char>,
}

impl View for ExportTrack {
    type V = ExportModel;

    open spec fn view(&self) -> ExportModel {
        ExportModel {
            start_frame: self.start_frame as nat,
            end_frame: self.end_frame as nat,
            title: self.title@,
            artist: self.artist@,
        }
    }
}

/// The content of a list of tracks.
pub open spec fn export_models(tracks: Seq<ExportTrack>) -> Seq<ExportModel> {
    tracks.map_values(|t: ExportTrack| t@)
}

/// A file to write: a stretch of the samples, and what its name and tags say.
pub struct TrackFile {
    /// The number of the track, from 1.
    pub number: usize,
    pub title: String,
    pub artist: String,
    pub file_name: String,
    /// The first sample.
    pub begin: usize,
    /// The sample behind the last one.
    pub end: usize,
}

/// The content of a [`TrackFile`].
pub struct FileModel {
    pub number: nat,
    pub title: Seq<char>,
    pub artist: Seq<char>,
    pub file_name: Seq<char>,
    pub begin: nat,
    pub end: nat,
}

impl View for TrackFile {
    type V = FileModel;

    open spec fn view(&self) -> FileModel {
        FileModel {
            number: self.number as nat,
            title: self.title@,
            artist: self.artist@,
            file_name: self.file_name@,
            begin: self.begin as nat,
            end: self.end as nat,
        }
    }
}

/// The content of a list of files.
pub open spec fn file_models(files: Seq<TrackFile>) -> Seq<FileModel> {
    files.map_values(|f: TrackFile| f@)
}

/// The name of the file of a track.
pub open spec fn file_name_of(number: nat, artist: Seq<char>, title: Seq<char>) -> Seq<char> {
    zero_padded(number, 2) + " - "@ + (if artist.len() == 0 {
        Seq::empty()
    } else {
        sanitized(artist) + " - "@
    }) + sanitized(title) + ".flac"@
}

/// The name of the file of a track.
pub fn track_file_name(number: usize, artist: &str, title: &str) -> (r: String)
    ensures
        r@ == file_name_of(number as nat, artist@, title@),
{
    let mut out = String::new();
    push_two_digits(&mut out, number as u64);
    out.append(" - ");
    if !artist.is_empty() {
        let name = sanitize_filename(artist);
        out.append(name.as_str());
        out.append(" - ");
    }
    let name = sanitize_filename(title);
    out.append(name.as_str());
    out.append(".flac");
    assert(out@ =~= file_name_of(number as nat, artist@, title@));
    out
}

/// The file of track `number`, for a recording of `len` samples.
pub open spec fn file_of(
    track: ExportModel,
    number: nat,
    album_artist: Seq<char>,
    channels: nat,
    len: nat,
) -> FileModel {
    let title = written_title(track.title, number);
    let artist = written_artist(track.artist, album_artist);
    let end = track.end_frame * channels;
    FileModel {
        number,
        title,
        artist,
        file_name: file_name_of(number, artist, title),
        begin: track.start_frame * channels,
        end: if end < len {
            end
        } else {
            len
        },
    }
}

/// The files of the first `n` tracks. Tracks without samples have none.
pub open spec fn files_of(
    tracks: Seq<ExportModel>,
    album_artist: Seq<char>,
    channels: nat,
    len: nat,
    n: nat,
) -> Seq<FileModel>
    decreases n,
{
    if n == 0 {
        Seq::empty()
    } else {
        let before = files_of(tracks, album_artist, channels, len, (n - 1) as nat);
        let file = file_of(tracks[n - 1], n, album_artist, channels, len);
        if file.begin < file.end {
            before.push(file)
        } else {
            before
        }
    }
}

fn product(a: usize, b: usize) -> (r: u128)
    ensures
        r == a * b,
{
    assert(a * b <= 0xffff_ffff_ffff_ffff * 0xffff_ffff_ffff_ffff) by (nonlinear_arith)
        requires
            0 <= a <= 0xffff_ffff_ffff_ffff,
            0 <= b <= 0xffff_ffff_ffff_ffff,
    ;
    a as u128 * b as u128
}

fn sample_range(track: &ExportTrack, channels: usize, len: usize) -> (r: Option<(usize, usize)>)
    ensures
        ({
            let begin = track.start_frame * channels;
            let end = track.end_frame * channels;
            let limited = if end < len {
                end
            } else {
                len as int
            };
            match r {
                Some((b, e)) => begin < limited && b == begin && e == limited,
                None => begin >= limited,
            }
        }),
{
    let begin: u128 = product(track.start_frame, channels);
    let end: u128 = product(track.end_frame, channels);
    let limited: u128 = if end < len as u128 {
        end
    } else {
        len as u128
    };
    if begin < limited {
        Some((begin as usize, limited as usize))
    } else {
        None
    }
}

/// The files to write when a recording is split: one FLAC file per track that has samples, in
/// order. Their number is the number of files written.
pub fn export_tracks(audio: &AudioData, album_artist: &str, tracks: &[ExportTrack]) -> (r: Vec<
    TrackFile,
>)
    ensures
        file_models(r@) == files_of(
            export_models(tracks@),
            album_artist@,
            audio.channels as nat,
            audio.samples@.len(),
            tracks@.len(),
        ),
{
    let ghost models = export_models(tracks@);
    let ghost channels = audio.channels as nat;
    let ghost len = audio.samples@.len();
    let mut files: Vec<TrackFile> = Vec::new();
    let mut i: usize = 0;
    assert(file_models(files@) =~= files_of(models, album_artist@, channels, len, 0));
    while i < tracks.len()
        invariant
            i <= tracks@.len(),
            models == export_models(tracks@),
            channels == audio.channels as nat,
            len == audio.samples@.len(),
            file_models(files@) == files_of(models, album_artist@, channels, len, i as nat),
        decreases tracks@.len() - i,
    {
        let number: usize = i + 1;
        let track = &tracks[i];
        assert(models[i as int] == track@);
        let ghost before = files@;
        let ghost file = file_of(track@, number as nat, album_artist@, channels, len);
        if let Some((begin, end)) = sample_range(track, audio.channels, audio.samples.len()) {
            let title = title_or_default(track.title.as_str(), number);
            let artist = if track.artist.as_str().is_empty() {
                album_artist.to_owned()
            } else {
                track.artist.clone()
            };
            let file_name = track_file_name(number, artist.as_str(), title.as_str());
            files.push(TrackFile { number, title, artist, file_name, begin, end });
            assert(files@.last()@ == file);
            assert(file_models(files@) =~= file_models(before).push(file));
        }
        i = number;
    }
    files
}

/// The bits per sample of exported files: those of the recording, from 16 to 24.
pub open spec fn export_bits_spec(bits_per_sample: u32) -> nat {
    if bits_per_sample < 16 {
        16
    } else if bits_per_sample > 24 {
        24
    } else {
        bits_per_sample as nat
    }
}

/// The bits per sample of exported files: those of the recording, from 16 to 24.
pub fn export_bits(bits_per_sample: u32) -> (r: usize)
    ensures
        r == export_bits_spec(bits_per_sample),
        16 <= r <= 24,
{
    if bits_per_sample < 16 {
        16
    } else if bits_per_sample > 24 {
        24
    } else {
        bits_per_sample as usize
    }
}

/// Samples as integers of `bits` bits.
pub open spec fn quantized_samples(samples: Seq<i32>, bits: nat) -> Seq<i32> {
    samples.map_values(|s: i32| quantized(s, bits) as i32)
}

/// The samples `begin..end` as integers of `bits` bits.
pub fn quantize_range(samples: &[i32], begin: usize, end: usize, bits: usize) -> (r: Vec<i32>)
    requires
        begin <= end <= samples@.len(),
        2 <= bits <= 24,
    ensures
        r@ == quantized_samples(samples@.subrange(begin as int, end as int), bits as nat),
        fit(r@, bits as nat),
        forall|i: int|
            0 <= i < r@.len() ==> #[trigger] r@[i] == quantized(samples@[begin + i], bits as nat),
{
    let ghost part = samples@.subrange(begin as int, end as int);
    let ghost full = pow2((bits - 1) as nat) as int;
    let mut out: Vec<i32> = Vec::new();
    let mut i: usize = begin;
    while i < end
        invariant
            begin <= i <= end <= samples@.len(),
            2 <= bits <= 24,
            full == pow2((bits - 1) as nat) as int,
            out@.len() == i - begin,
            forall|k: int| 0 <= k < out@.len() ==> -full <= #[trigger] out@[k] < full,
            forall|k: int|
                0 <= k < out@.len() ==> #[trigger] out@[k] == quantized(
                    samples@[begin + k],
                    bits as nat,
                ),
        decreases end - i,
    {
        out.push(quantize(samples[i], bits as u32));
        i = i + 1;
    }
    assert(out@ =~= quantized_samples(part, bits as nat));
    out
}

/// Whether an attempt to encode a stretch of a recording came out right: the stream of the
/// quantised samples, or what the encoder says against it.
pub open spec fn is_encoding(
    audio: AudioData,
    part: Seq<i32>,
    r: Result<Seq<u8>, Seq<char>>,
) -> bool {
    let bits = export_bits_spec(audio.bits_per_sample);
    let channels = audio.channels as nat;
    let samples = quantized_samples(part, bits);
    let supported = is_supported(channels, bits, audio.sample_rate as nat);
    match r {
        Ok(bytes) => {
            &&& supported
            &&& is_stream_of(
                bytes,
                samples.len(),
                pcm_md5(samples, channels, bits),
                channels,
                bits,
                audio.sample_rate as nat,
            )
            &&& bytes.subrange(8, 10) == bytes.subrange(10, 12)
        },
        Err(e) => exists|failure: FlacFailure|
            e == #[trigger] failure_message(failure) && (!supported ==> failure is Encoding),
    }
}

/// The content of the result of an attempt to encode.
pub open spec fn outcome(r: Result<Vec<u8>, String>) -> Result<Seq<u8>, Seq<char>> {
    match r {
        Ok(bytes) => Ok(bytes@),
        Err(e) => Err(e@),
    }
}

/// Encodes the samples `begin..end` of a recording.
pub fn encode_range(audio: &AudioData, begin: usize, end: usize) -> (r: Result<Vec<u8>, String>)
    requires
        begin <= end <= audio.samples@.len(),
        end - begin <= MAX_SAMPLES,
    ensures
        is_encoding(*audio, audio.samples@.subrange(begin as int, end as int), outcome(r)),
{
    let bits = export_bits(audio.bits_per_sample);
    let samples = quantize_range(audio.samples.as_slice(), begin, end, bits);
    encode_flac(samples.as_slice(), audio.channels, bits, audio.sample_rate)
}

/// The recording as one file, with the cue sheet to embed in it.
pub struct SingleFile {
    pub bytes: Vec<u8>,
    pub cue: String,
}

/// The cue sheet of exported tracks that start at these CD frames.
pub open spec fn cue_models(tracks: Seq<ExportModel>, starts: Seq<u64>) -> Seq<TrackModel> {
    Seq::new(
        tracks.len(),
        |i: int|
            TrackModel {
                start: starts[i] as nat,
                title: tracks[i].title,
                artist: tracks[i].artist,
            },
    )
}

/// The tracks of a cue sheet: exported tracks, and the CD frames at which they start.
pub fn cue_tracks(tracks: &[ExportTrack], starts: &[u64]) -> (r: Vec<CueTrack>)
    requires
        tracks@.len() == starts@.len(),
    ensures
        track_models(r@) == cue_models(export_models(tracks@), starts@),
{
    let ghost models = cue_models(export_models(tracks@), starts@);
    let mut out: Vec<CueTrack> = Vec::new();
    let mut i: usize = 0;
    while i < tracks.len()
        invariant
            i <= tracks@.len(),
            tracks@.len() == starts@.len(),
            models == cue_models(export_models(tracks@), starts@),
            out@.len() == i,
            forall|k: int| 0 <= k < i ==> (#[trigger] out@[k])@ == models[k],
        decreases tracks@.len() - i,
    {
        out.push(
            CueTrack {
                start: starts[i] as u128,
                title: tracks[i].title.clone(),
                artist: tracks[i].artist.clone(),
            },
        );
        i = i + 1;
    }
    assert(track_models(out@) =~= models);
    out
}

/// Encodes the whole recording into a single FLAC file with the cue sheet to be
/// embedded as a CUESHEET vorbis comment (the convention used by foobar2000,
/// DeaDBeeF and friends). `starts` are the CD frames at which the tracks start.
pub fn export_single_with_cue(
    audio: &AudioData,
    file_name: &str,
    album_artist: &str,
    album_title: &str,
    tracks: &[ExportTrack],
    starts: &[u64],
) -> (r: Result<SingleFile, String>)
    requires
        tracks@.len() == starts@.len(),
        audio.samples@.len() <= MAX_SAMPLES,
    ensures
        match r {
            Ok(file) => {
                &&& is_encoding(*audio, audio.samples@, Ok(file.bytes@))
                &&& file.cue@ == cue_sheet(
                    file_name@,
                    album_artist@,
                    album_title@,
                    cue_models(export_models(tracks@), starts@),
                )
            },
            Err(e) => is_encoding(*audio, audio.samples@, Err(e@)),
        },
{
    assert(audio.samples@.subrange(0, audio.samples@.len() as int) =~= audio.samples@);
    match encode_range(audio, 0, audio.samples.len()) {
        Ok(bytes) => {
            let list = cue_tracks(tracks, starts);
            let cue = cue_text(file_name, album_artist, album_title, list.as_slice());
            Ok(SingleFile { bytes, cue })
        },
        Err(e) => Err(e),
    }
}

/// Comments, by key.
pub type Comments = Map<Seq<char>, Seq<Seq<char>>>;

/// Comments with a title.
pub open spec fn with_title(comments: Comments, title: Seq<char>) -> Comments {
    comments.remove("TITLESORT"@).insert("TITLE"@, seq![title])
}

/// Comments with an artist, unless it is empty.
pub open spec fn with_artist(comments: Comments, artist: Seq<char>) -> Comments {
    if artist.len() == 0 {
        comments
    } else {
        comments.remove("ARTISTSORT"@).insert("ARTIST"@, seq![artist])
    }
}

/// Comments with an album, unless it is empty.
pub open spec fn with_album(comments: Comments, album: Seq<char>) -> Comments {
    if album.len() == 0 {
        comments
    } else {
        comments.remove("ALBUMSORT"@).insert("ALBUM"@, seq![album])
    }
}

/// Comments with an album artist, unless it is empty.
pub open spec fn with_album_artist(comments: Comments, album_artist: Seq<char>) -> Comments {
    if album_artist.len() == 0 {
        comments
    } else {
        comments.insert("ALBUMARTIST"@, seq![album_artist])
    }
}

/// The comments of a track's file.
pub open spec fn track_tags(
    comments: Comments,
    title: Seq<char>,
    artist: Seq<char>,
    album_artist: Seq<char>,
    album_title: Seq<char>,
    number: u32,
    total: u32,
) -> Comments {
    with_album_artist(
        with_album(with_artist(with_title(comments, title), artist), album_title),
        album_artist,
    ).insert("TRACKNUMBER"@, seq![decimal(number as nat)]).insert(
        "TOTALTRACKS"@,
        seq![decimal(total as nat)],
    )
}

/// Tags the file of a track.
pub fn tag_flac(
    comments: &mut metaflac::block::VorbisComment,
    title: &str,
    artist: &str,
    album_artist: &str,
    album_title: &str,
    number: u32,
    total: u32,
)
    ensures
        comments_of(*final(comments)) == track_tags(
            comments_of(*old(comments)),
            title@,
            artist@,
            album_artist@,
            album_title@,
            number,
            total,
        ),
{
    set_title(comments, title);
    if !artist.is_empty() {
        set_artist(comments, artist);
    }
    if !album_title.is_empty() {
        set_album(comments, album_title);
    }
    if !album_artist.is_empty() {
        set_comment(comments, "ALBUMARTIST", album_artist);
    }
    set_track(comments, number);
    set_total_tracks(comments, total);
}

/// The comments of the single file of a recording: tags of the album, and its cue sheet.
pub open spec fn single_tags(
    comments: Comments,
    album_artist: Seq<char>,
    album_title: Seq<char>,
    cue: Seq<char>,
) -> Comments {
    let titled = if album_title.len() == 0 {
        comments
    } else {
        with_title(with_album(comments, album_title), album_title)
    };
    with_album_artist(with_artist(titled, album_artist), album_artist).insert(
        "CUESHEET"@,
        seq![cue],
    )
}

/// Tags the single file of a recording and embeds its cue sheet.
pub fn tag_single_with_cue(
    comments: &mut metaflac::block::VorbisComment,
    album_artist: &str,
    album_title: &str,
    cue: &str,
)
    ensures
        comments_of(*final(comments)) == single_tags(
            comments_of(*old(comments)),
            album_artist@,
            album_title@,
            cue@,
        ),
{
    if !album_title.is_empty() {
        set_album(comments, album_title);
        set_title(comments, album_title);
    }
    if !album_artist.is_empty() {
        set_artist(comments, album_artist);
        set_comment(comments, "ALBUMARTIST", album_artist);
    }
    set_comment(comments, "CUESHEET", cue);
}

} // verus!

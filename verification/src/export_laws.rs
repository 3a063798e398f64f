//! What holds of exported files.

use vstd::arithmetic::power2::pow2;
use vstd::prelude::*;

use crate::audio::AudioData;
use crate::cue::{
    cue_in, cue_sheet, escaped, is_cue_key, is_embedded_cue, CueModel, TrackModel,
};
use crate::cue_laws::{one_line, one_line_tracks, ordered_sheet_reads_back, written_track};
use crate::flac::{
    big_endian, block_count, failure_message, fit, is_supported, pcm_md5, with_fixed_block_size,
    FlacFailure,
};
use crate::flac_export::{
    cue_models, export_bits_spec, file_name_of, file_of, files_of, is_encoding,
    is_unsafe_in_file_name, quantized_samples, sanitized, single_tags, track_tags, Comments,
    ExportModel, FileModel,
};
use crate::number::{all_digits, decimal, is_digit, numeral_reads_back, zero_padded};
use crate::sample::quantized;
use crate::sort::is_sorted;
use crate::text::{is_white_space, trim_end_spec, trim_start_spec, uppercase};
use crate::text_laws::{is_blank, trimming_goes_around};

verus! {

/// The samples of files, one file after the other.
pub open spec fn joined(samples: Seq<i32>, files: Seq<FileModel>) -> Seq<i32>
    decreases files.len(),
{
    if files.len() == 0 {
        Seq::empty()
    } else {
        joined(samples, files.drop_last()) + samples.subrange(
            files.last().begin as int,
            files.last().end as int,
        )
    }
}

/// Whether each track starts where the one before it ends.
pub open spec fn follow_on(tracks: Seq<ExportModel>) -> bool {
    &&& forall|i: int|
        0 <= i < tracks.len() ==> (#[trigger] tracks[i]).start_frame <= tracks[i].end_frame
    &&& forall|i: int|
        0 < i < tracks.len() ==> tracks[i - 1].end_frame == (#[trigger] tracks[i]).start_frame
}

/// The sample at which a frame starts, or the end of the samples.
pub open spec fn sample_of(frame: nat, channels: nat, len: nat) -> nat {
    if frame * channels < len {
        frame * channels
    } else {
        len
    }
}

proof fn lemma_joined(
    samples: Seq<i32>,
    tracks: Seq<ExportModel>,
    album_artist: Seq<char>,
    channels: nat,
    n: nat,
)
    requires
        0 < n <= tracks.len(),
        follow_on(tracks),
    ensures
        sample_of(tracks[0].start_frame, channels, samples.len()) <= sample_of(
            tracks[n - 1].end_frame,
            channels,
            samples.len(),
        ),
        joined(samples, files_of(tracks, album_artist, channels, samples.len(), n))
            == samples.subrange(
            sample_of(tracks[0].start_frame, channels, samples.len()) as int,
            sample_of(tracks[n - 1].end_frame, channels, samples.len()) as int,
        ),
    decreases n,
{
    let len = samples.len();
    let before = files_of(tracks, album_artist, channels, len, (n - 1) as nat);
    let file = file_of(tracks[n - 1], n, album_artist, channels, len);
    let track = tracks[n - 1];
    let lo = sample_of(tracks[0].start_frame, channels, len) as int;
    let mid = sample_of(track.start_frame, channels, len) as int;
    let hi = sample_of(track.end_frame, channels, len) as int;
    assert(track.start_frame * channels <= track.end_frame * channels) by (nonlinear_arith)
        requires
            track.start_frame <= track.end_frame,
    ;
    if n > 1 {
        lemma_joined(samples, tracks, album_artist, channels, (n - 1) as nat);
        assert(tracks[n - 2].end_frame == track.start_frame);
    } else {
        assert(before =~= Seq::<FileModel>::empty());
        assert(joined(samples, before) =~= samples.subrange(lo, mid));
    }
    if file.begin < file.end {
        assert(before.push(file).drop_last() =~= before);
        assert(file.begin == mid && file.end == hi);
        assert(samples.subrange(lo, mid) + samples.subrange(mid, hi) =~= samples.subrange(lo, hi));
    } else {
        assert(mid == hi);
    }
}

/// Splitting loses nothing and repeats nothing: the files of tracks that follow on each other,
/// one after the other, hold the samples from the first track's start to the last one's end.
pub proof fn split_is_whole(
    samples: Seq<i32>,
    tracks: Seq<ExportModel>,
    album_artist: Seq<char>,
    channels: nat,
)
    requires
        tracks.len() > 0,
        follow_on(tracks),
    ensures
        joined(samples, files_of(tracks, album_artist, channels, samples.len(), tracks.len()))
            == samples.subrange(
            sample_of(tracks[0].start_frame, channels, samples.len()) as int,
            sample_of(tracks.last().end_frame, channels, samples.len()) as int,
        ),
{
    lemma_joined(samples, tracks, album_artist, channels, tracks.len());
}

/// A file is written for a track if and only if it has samples: every file is that of such a
/// track, and every such track has one.
pub proof fn files_are_those_with_samples(
    tracks: Seq<ExportModel>,
    album_artist: Seq<char>,
    channels: nat,
    len: nat,
    n: nat,
    i: int,
)
    requires
        n <= tracks.len(),
        0 <= i < n,
    ensures
        ({
            let file = file_of(tracks[i], (i + 1) as nat, album_artist, channels, len);
            files_of(tracks, album_artist, channels, len, n).contains(file) <==> file.begin
                < file.end
        }),
        files_of(tracks, album_artist, channels, len, n).len() <= n,
    decreases n,
{
    let before = files_of(tracks, album_artist, channels, len, (n - 1) as nat);
    let files = files_of(tracks, album_artist, channels, len, n);
    let last = file_of(tracks[n - 1], n, album_artist, channels, len);
    let file = file_of(tracks[i], (i + 1) as nat, album_artist, channels, len);
    lemma_file_numbers(tracks, album_artist, channels, len, (n - 1) as nat);
    if i < n - 1 {
        files_are_those_with_samples(tracks, album_artist, channels, len, (n - 1) as nat, i);
        if last.begin < last.end {
            if before.contains(file) {
                let k = choose|k: int| 0 <= k < before.len() && before[k] == file;
                assert(files[k] == file);
            }
            if files.contains(file) {
                let k = choose|k: int| 0 <= k < files.len() && files[k] == file;
                assert(files[k].number == i + 1);
                assert(before[k] == file);
            }
        }
    } else {
        if last.begin < last.end {
            assert(files[files.len() - 1] == last);
        } else if files.contains(file) {
            let k = choose|k: int| 0 <= k < files.len() && files[k] == file;
            assert(before[k].number <= n - 1);
        }
    }
}

proof fn lemma_file_numbers(
    tracks: Seq<ExportModel>,
    album_artist: Seq<char>,
    channels: nat,
    len: nat,
    n: nat,
)
    ensures
        files_of(tracks, album_artist, channels, len, n).len() <= n,
        forall|k: int|
            0 <= k < files_of(tracks, album_artist, channels, len, n).len() ==> 1 <= (
            #[trigger] files_of(tracks, album_artist, channels, len, n)[k]).number <= n,
    decreases n,
{
    if n > 0 {
        lemma_file_numbers(tracks, album_artist, channels, len, (n - 1) as nat);
    }
}

proof fn lemma_digits_end(d: Seq<char>, e: Seq<char>, a: Seq<char>, b: Seq<char>)
    requires
        all_digits(d),
        all_digits(e),
        d.push(' ') + a == e.push(' ') + b,
    ensures
        d == e,
{
    let s = d.push(' ') + a;
    let t = e.push(' ') + b;
    if d.len() < e.len() {
        assert(s[d.len() as int] == ' ');
        assert(t[d.len() as int] == e[d.len() as int]);
        assert(is_digit(e[d.len() as int]));
    } else if e.len() < d.len() {
        assert(t[e.len() as int] == ' ');
        assert(s[e.len() as int] == d[e.len() as int]);
        assert(is_digit(d[e.len() as int]));
    } else {
        assert(s.take(d.len() as int) =~= d);
        assert(t.take(e.len() as int) =~= e);
    }
}

/// No two tracks of an export share a file name.
pub proof fn file_names_are_distinct(
    m: nat,
    n: nat,
    artist_m: Seq<char>,
    title_m: Seq<char>,
    artist_n: Seq<char>,
    title_n: Seq<char>,
)
    requires
        file_name_of(m, artist_m, title_m) == file_name_of(n, artist_n, title_n),
    ensures
        m == n,
{
    reveal_strlit(" - ");
    numeral_reads_back(m, 2);
    numeral_reads_back(n, 2);
    let d = zero_padded(m, 2);
    let e = zero_padded(n, 2);
    let s = file_name_of(m, artist_m, title_m);
    let t = file_name_of(n, artist_n, title_n);
    assert(s =~= d.push(' ') + s.skip(d.len() as int + 1)) by {
        assert(s[d.len() as int] == ' ');
    }
    assert(t =~= e.push(' ') + t.skip(e.len() as int + 1)) by {
        assert(t[e.len() as int] == ' ');
    }
    lemma_digits_end(d, e, s.skip(d.len() as int + 1), t.skip(e.len() as int + 1));
}

proof fn lemma_trim_start_part(s: Seq<char>, i: int)
    requires
        0 <= i < trim_start_spec(s).len(),
    ensures
        s.contains(trim_start_spec(s)[i]),
    decreases s.len(),
{
    if s.len() > 0 && is_white_space(s[0]) {
        lemma_trim_start_part(s.drop_first(), i);
        let c = trim_start_spec(s)[i];
        let k = choose|k: int| 0 <= k < s.drop_first().len() && s.drop_first()[k] == c;
        assert(s[k + 1] == c);
    } else {
        assert(s[i] == trim_start_spec(s)[i]);
    }
}

proof fn lemma_trim_end_part(s: Seq<char>, i: int)
    requires
        0 <= i < trim_end_spec(s).len(),
    ensures
        s.contains(trim_end_spec(s)[i]),
    decreases s.len(),
{
    if s.len() > 0 && is_white_space(s.last()) {
        lemma_trim_end_part(s.drop_last(), i);
        let c = trim_end_spec(s)[i];
        let k = choose|k: int| 0 <= k < s.drop_last().len() && s.drop_last()[k] == c;
        assert(s[k] == c);
    } else {
        assert(s[i] == trim_end_spec(s)[i]);
    }
}

/// A sanitised text holds no character that cannot stand in a file name.
pub proof fn sanitized_is_safe(s: Seq<char>, i: int)
    requires
        0 <= i < sanitized(s).len(),
    ensures
        !is_unsafe_in_file_name(sanitized(s)[i]),
{
    let safe = s.map_values(|c: char| if is_unsafe_in_file_name(c) { '_' } else { c });
    let started = trim_start_spec(safe);
    lemma_trim_end_part(started, i);
    let c = sanitized(s)[i];
    let k = choose|k: int| 0 <= k < started.len() && started[k] == c;
    lemma_trim_start_part(safe, k);
    let j = choose|j: int| 0 <= j < safe.len() && safe[j] == c;
    assert(!is_unsafe_in_file_name(safe[j]));
}

/// Whether a key is one that tagging touches, besides that of the cue sheet.
pub open spec fn is_tag_key(key: Seq<char>) -> bool {
    ||| key == "TITLE"@
    ||| key == "TITLESORT"@
    ||| key == "ARTIST"@
    ||| key == "ARTISTSORT"@
    ||| key == "ALBUM"@
    ||| key == "ALBUMSORT"@
    ||| key == "ALBUMARTIST"@
    ||| key == "TRACKNUMBER"@
    ||| key == "TOTALTRACKS"@
}

proof fn lemma_keys_differ()
    ensures
        "TITLE"@ != "ARTIST"@,
        "TITLE"@ != "ARTISTSORT"@,
        "TITLE"@ != "ALBUM"@,
        "TITLE"@ != "ALBUMSORT"@,
        "TITLE"@ != "ALBUMARTIST"@,
        "TITLE"@ != "TRACKNUMBER"@,
        "TITLE"@ != "TOTALTRACKS"@,
        "TITLE"@ != "TITLESORT"@,
        "ARTIST"@ != "ALBUM"@,
        "ARTIST"@ != "ALBUMSORT"@,
        "ARTIST"@ != "ALBUMARTIST"@,
        "ARTIST"@ != "TRACKNUMBER"@,
        "ARTIST"@ != "TOTALTRACKS"@,
        "ARTIST"@ != "TITLESORT"@,
        "ALBUM"@ != "ALBUMARTIST"@,
        "ALBUM"@ != "TRACKNUMBER"@,
        "ALBUM"@ != "TOTALTRACKS"@,
        "ALBUM"@ != "TITLESORT"@,
        "ALBUM"@ != "ARTISTSORT"@,
        "ALBUMARTIST"@ != "TRACKNUMBER"@,
        "ALBUMARTIST"@ != "TOTALTRACKS"@,
        "TRACKNUMBER"@ != "TOTALTRACKS"@,
{
    reveal_strlit("TITLE");
    reveal_strlit("TITLESORT");
    reveal_strlit("ARTIST");
    reveal_strlit("ARTISTSORT");
    reveal_strlit("ALBUM");
    reveal_strlit("ALBUMSORT");
    reveal_strlit("ALBUMARTIST");
    reveal_strlit("TRACKNUMBER");
    reveal_strlit("TOTALTRACKS");
    assert("TITLE"@[0] == 'T' && "TITLE"@.len() == 5);
    assert("TITLESORT"@[0] == 'T' && "TITLESORT"@.len() == 9);
    assert("ARTIST"@[0] == 'A' && "ARTIST"@.len() == 6);
    assert("ARTISTSORT"@[0] == 'A' && "ARTISTSORT"@.len() == 10);
    assert("ALBUM"@[0] == 'A' && "ALBUM"@.len() == 5);
    assert("ALBUMSORT"@[0] == 'A' && "ALBUMSORT"@.len() == 9);
    assert("ALBUMARTIST"@[0] == 'A' && "ALBUMARTIST"@.len() == 11);
    assert("TRACKNUMBER"@[1] == 'R' && "TRACKNUMBER"@[0] == 'T' && "TRACKNUMBER"@.len() == 11);
    assert("TOTALTRACKS"@[1] == 'O' && "TOTALTRACKS"@[0] == 'T' && "TOTALTRACKS"@.len() == 11);
}

/// A tagged track says its title, its artist, its album, the album's artist and its number
/// where there are any, and keeps the comments that are none of these.
pub proof fn track_tags_say(
    comments: Comments,
    title: Seq<char>,
    artist: Seq<char>,
    album_artist: Seq<char>,
    album_title: Seq<char>,
    number: u32,
    total: u32,
    key: Seq<char>,
)
    ensures
        ({
            let tags = track_tags(
                comments,
                title,
                artist,
                album_artist,
                album_title,
                number,
                total,
            );
            &&& tags.contains_pair("TITLE"@, seq![title])
            &&& artist.len() > 0 ==> tags.contains_pair("ARTIST"@, seq![artist])
            &&& album_title.len() > 0 ==> tags.contains_pair("ALBUM"@, seq![album_title])
            &&& album_artist.len() > 0 ==> tags.contains_pair("ALBUMARTIST"@, seq![album_artist])
            &&& tags.contains_pair("TRACKNUMBER"@, seq![decimal(number as nat)])
            &&& tags.contains_pair("TOTALTRACKS"@, seq![decimal(total as nat)])
            &&& !is_tag_key(key) ==> tags.dom().contains(key) == comments.dom().contains(key)
                && tags[key] == comments[key]
        }),
{
    lemma_keys_differ();
}

proof fn lemma_cue_key()
    ensures
        is_cue_key("CUESHEET"@),
        uppercase("CUESHEET"@) == "CUESHEET"@,
        forall|key: Seq<char>| is_tag_key(key) ==> !#[trigger] is_cue_key(key),
{
    reveal_strlit("CUESHEET");
    reveal_strlit("TITLE");
    reveal_strlit("TITLESORT");
    reveal_strlit("ARTIST");
    reveal_strlit("ARTISTSORT");
    reveal_strlit("ALBUM");
    reveal_strlit("ALBUMSORT");
    reveal_strlit("ALBUMARTIST");
    reveal_strlit("TRACKNUMBER");
    reveal_strlit("TOTALTRACKS");
    assert(uppercase("CUESHEET"@) =~= "CUESHEET"@);
    assert forall|key: Seq<char>| is_tag_key(key) implies !#[trigger] is_cue_key(key) by {
        assert(key.len() != 8);
        assert(uppercase(key).len() == key.len());
        assert(uppercase("CUESHEET"@).len() == 8);
    }
}

/// Plain track files carry no cue sheet: tagging a track adds none.
pub proof fn track_tags_hold_no_cue(
    comments: Comments,
    title: Seq<char>,
    artist: Seq<char>,
    album_artist: Seq<char>,
    album_title: Seq<char>,
    number: u32,
    total: u32,
    cue: Option<CueModel>,
)
    requires
        forall|key: Seq<char>| #[trigger] comments.dom().contains(key) ==> !is_cue_key(key),
        is_embedded_cue(
            track_tags(comments, title, artist, album_artist, album_title, number, total),
            cue,
        ),
    ensures
        cue is None,
{
    lemma_cue_key();
    let tags = track_tags(comments, title, artist, album_artist, album_title, number, total);
    assert forall|key: Seq<char>| #[trigger] tags.dom().contains(key) implies !is_cue_key(key) by {
        if !is_tag_key(key) {
            track_tags_say(
                comments,
                title,
                artist,
                album_artist,
                album_title,
                number,
                total,
                key,
            );
        }
    }
}

/// Whether the keys of comments are in upper case, as they are read from a file.
pub open spec fn has_upper_case_keys(comments: Comments) -> bool {
    forall|key: Seq<char>| #[trigger] comments.dom().contains(key) ==> uppercase(key) == key
}

/// An embedded cue sheet reads back: whatever the file said before, it then gives the cue sheet
/// that was embedded, and no other.
pub proof fn embedded_cue_reads_back(
    comments: Comments,
    album_artist: Seq<char>,
    album_title: Seq<char>,
    text: Seq<char>,
    cue: Option<CueModel>,
)
    requires
        has_upper_case_keys(comments),
        is_embedded_cue(single_tags(comments, album_artist, album_title, text), cue),
    ensures
        cue == cue_in(seq![text]),
{
    lemma_cue_key();
    let tags = single_tags(comments, album_artist, album_title, text);
    assert(tags.dom().contains("CUESHEET"@));
    let key = choose|key: Seq<char>| #[trigger]
        tags.dom().contains(key) && is_cue_key(key) && cue == cue_in(tags[key]);
    assert(uppercase(key) == "CUESHEET"@);
    if key != "CUESHEET"@ {
        assert(!is_tag_key(key));
        assert(comments.dom().contains(key));
    }
}

/// A recording that was exported as a single file reads back as it was: the file's cue sheet
/// has the album's artist and title, and for each track its start, its title or the
/// placeholder, and its artist or the album's, with double quotes made single.
pub proof fn single_file_reads_back(
    comments: Comments,
    file_name: Seq<char>,
    album_artist: Seq<char>,
    album_title: Seq<char>,
    tracks: Seq<TrackModel>,
    cue: Option<CueModel>,
    i: int,
)
    requires
        has_upper_case_keys(comments),
        is_embedded_cue(
            single_tags(
                comments,
                album_artist,
                album_title,
                cue_sheet(file_name, album_artist, album_title, tracks),
            ),
            cue,
        ),
        one_line(file_name),
        one_line(album_artist),
        one_line(album_title),
        one_line_tracks(tracks),
        is_sorted(tracks, |t: TrackModel| t.start as int),
        0 <= i < tracks.len(),
    ensures
        cue matches Some(c) && c.audio_file == escaped(file_name) && c.album_artist == escaped(
            album_artist,
        ) && c.album_title == escaped(album_title) && c.tracks.len() == tracks.len()
            && c.tracks[i] == written_track(tracks[i], (i + 1) as nat, album_artist),
{
    embedded_cue_reads_back(
        comments,
        album_artist,
        album_title,
        cue_sheet(file_name, album_artist, album_title, tracks),
        cue,
    );
    ordered_sheet_reads_back(file_name, album_artist, album_title, tracks, i);
}

/// What a tag has no text for is left as it was; a new title, artist or album takes the place of
/// the sort key that went with the old one.
pub proof fn empty_tags_are_left(
    comments: Comments,
    title: Seq<char>,
    artist: Seq<char>,
    album_artist: Seq<char>,
    album_title: Seq<char>,
    number: u32,
    total: u32,
)
    ensures
        ({
            let tags = track_tags(
                comments,
                title,
                artist,
                album_artist,
                album_title,
                number,
                total,
            );
            &&& !tags.dom().contains("TITLESORT"@)
            &&& artist.len() > 0 ==> !tags.dom().contains("ARTISTSORT"@)
            &&& album_title.len() > 0 ==> !tags.dom().contains("ALBUMSORT"@)
            &&& artist.len() == 0 ==> same_at(comments, tags, "ARTIST"@) && same_at(
                comments,
                tags,
                "ARTISTSORT"@,
            )
            &&& album_title.len() == 0 ==> same_at(comments, tags, "ALBUM"@) && same_at(
                comments,
                tags,
                "ALBUMSORT"@,
            )
            &&& album_artist.len() == 0 ==> same_at(comments, tags, "ALBUMARTIST"@)
        }),
{
    lemma_keys_differ();
    lemma_sort_keys_differ();
}

/// Whether a key has the same values, or none, in both.
pub open spec fn same_at(a: Comments, b: Comments, key: Seq<char>) -> bool {
    a.dom().contains(key) == b.dom().contains(key) && (a.dom().contains(key) ==> a[key] == b[key])
}

proof fn lemma_sort_keys_differ()
    ensures
        "TITLESORT"@ != "ARTIST"@,
        "TITLESORT"@ != "ALBUM"@,
        "TITLESORT"@ != "ARTISTSORT"@,
        "TITLESORT"@ != "ALBUMSORT"@,
        "TITLESORT"@ != "ALBUMARTIST"@,
        "TITLESORT"@ != "TRACKNUMBER"@,
        "TITLESORT"@ != "TOTALTRACKS"@,
        "ARTISTSORT"@ != "ARTIST"@,
        "ARTISTSORT"@ != "ALBUMSORT"@,
        "ARTISTSORT"@ != "ALBUMARTIST"@,
        "ARTISTSORT"@ != "TRACKNUMBER"@,
        "ARTISTSORT"@ != "TOTALTRACKS"@,
        "ALBUMSORT"@ != "ALBUM"@,
        "ALBUMSORT"@ != "ARTIST"@,
        "ALBUMSORT"@ != "ALBUMARTIST"@,
        "ALBUMSORT"@ != "TRACKNUMBER"@,
        "ALBUMSORT"@ != "TOTALTRACKS"@,
{
    reveal_strlit("TITLESORT");
    reveal_strlit("ARTIST");
    reveal_strlit("ARTISTSORT");
    reveal_strlit("ALBUM");
    reveal_strlit("ALBUMSORT");
    reveal_strlit("ALBUMARTIST");
    reveal_strlit("TRACKNUMBER");
    reveal_strlit("TOTALTRACKS");
    assert("TITLESORT"@[0] == 'T' && "TITLESORT"@.len() == 9);
    assert("ARTIST"@.len() == 6 && "ARTISTSORT"@.len() == 10);
    assert("ALBUM"@.len() == 5 && "ALBUMSORT"@[0] == 'A' && "ALBUMSORT"@.len() == 9);
    assert("ALBUMARTIST"@.len() == 11);
    assert("TRACKNUMBER"@.len() == 11 && "TOTALTRACKS"@.len() == 11);
}

/// The single file of a recording says the album's title as its album and as its title, the
/// album's artist as its artist and as its album's, and embeds the cue sheet; what it has no text
/// for, and all else, is left as it was.
pub proof fn single_tags_say(
    comments: Comments,
    album_artist: Seq<char>,
    album_title: Seq<char>,
    cue: Seq<char>,
    key: Seq<char>,
)
    ensures
        ({
            let tags = single_tags(comments, album_artist, album_title, cue);
            &&& tags.contains_pair("CUESHEET"@, seq![cue])
            &&& album_title.len() > 0 ==> tags.contains_pair("ALBUM"@, seq![album_title])
                && tags.contains_pair("TITLE"@, seq![album_title]) && !tags.dom().contains(
                "TITLESORT"@,
            ) && !tags.dom().contains("ALBUMSORT"@)
            &&& album_title.len() == 0 ==> same_at(comments, tags, "ALBUM"@) && same_at(
                comments,
                tags,
                "TITLE"@,
            )
            &&& album_artist.len() > 0 ==> tags.contains_pair("ARTIST"@, seq![album_artist])
                && tags.contains_pair("ALBUMARTIST"@, seq![album_artist]) && !tags.dom().contains(
                "ARTISTSORT"@,
            )
            &&& album_artist.len() == 0 ==> same_at(comments, tags, "ARTIST"@) && same_at(
                comments,
                tags,
                "ALBUMARTIST"@,
            )
            &&& !is_tag_key(key) && key != "CUESHEET"@ ==> same_at(comments, tags, key)
            &&& same_at(comments, tags, "TRACKNUMBER"@)
            &&& same_at(comments, tags, "TOTALTRACKS"@)
        }),
{
    lemma_keys_differ();
    lemma_sort_keys_differ();
    lemma_cue_key_differs();
}

proof fn lemma_cue_key_differs()
    ensures
        "CUESHEET"@ != "TITLE"@,
        "CUESHEET"@ != "TITLESORT"@,
        "CUESHEET"@ != "ARTIST"@,
        "CUESHEET"@ != "ARTISTSORT"@,
        "CUESHEET"@ != "ALBUM"@,
        "CUESHEET"@ != "ALBUMSORT"@,
        "CUESHEET"@ != "ALBUMARTIST"@,
        "CUESHEET"@ != "TRACKNUMBER"@,
        "CUESHEET"@ != "TOTALTRACKS"@,
{
    reveal_strlit("CUESHEET");
    reveal_strlit("TITLE");
    reveal_strlit("TITLESORT");
    reveal_strlit("ARTIST");
    reveal_strlit("ARTISTSORT");
    reveal_strlit("ALBUM");
    reveal_strlit("ALBUMSORT");
    reveal_strlit("ALBUMARTIST");
    reveal_strlit("TRACKNUMBER");
    reveal_strlit("TOTALTRACKS");
    assert("CUESHEET"@.len() == 8);
    assert("TITLE"@.len() == 5 && "TITLESORT"@.len() == 9 && "ARTIST"@.len() == 6);
    assert("ARTISTSORT"@.len() == 10 && "ALBUM"@.len() == 5 && "ALBUMSORT"@.len() == 9);
    assert("ALBUMARTIST"@.len() == 11 && "TRACKNUMBER"@.len() == 11);
    assert("TOTALTRACKS"@.len() == 11);
}

/// The characters that cannot stand in a file name: nine of ASCII, and the control characters.
pub proof fn unsafe_characters(c: char)
    ensures
        is_unsafe_in_file_name(c) <==> {
            ||| seq!['<', '>', ':', '"', '/', '\\', '|', '?', '*'].contains(c)
            ||| (c as u32) < 32
            ||| 127 <= (c as u32) < 160
        },
{
    let s = seq!['<', '>', ':', '"', '/', '\\', '|', '?', '*'];
    assert(s[0] == '<' && s[1] == '>' && s[2] == ':' && s[3] == '"' && s[4] == '/' && s[5] == '\\'
        && s[6] == '|' && s[7] == '?' && s[8] == '*');
}

/// A sanitised text has an underscore for each character that cannot stand in a file name, and
/// the others where they were; the white space around it goes.
pub proof fn sanitizing_replaces(
    pre: Seq<char>,
    body: Seq<char>,
    post: Seq<char>,
    i: int,
)
    requires
        is_blank(pre),
        is_blank(post),
        forall|k: int| 0 <= k < pre.len() ==> !is_unsafe_in_file_name(#[trigger] pre[k]),
        forall|k: int| 0 <= k < post.len() ==> !is_unsafe_in_file_name(#[trigger] post[k]),
        0 <= i < body.len(),
        !is_white_space(body[0]) || is_unsafe_in_file_name(body[0]),
        !is_white_space(body.last()) || is_unsafe_in_file_name(body.last()),
    ensures
        ({
            let safe = sanitized(pre + body + post);
            &&& safe.len() == body.len()
            &&& is_unsafe_in_file_name(body[i]) ==> safe[i] == '_'
            &&& !is_unsafe_in_file_name(body[i]) ==> safe[i] == body[i]
        }),
{
    let f = |c: char| if is_unsafe_in_file_name(c) { '_' } else { c };
    assert((pre + body + post).map_values(f) =~= pre + body.map_values(f) + post);
    let mapped = body.map_values(f);
    assert(mapped[0] == f(body[0]) && mapped.last() == f(body.last()));
    trimming_goes_around(pre, mapped, post);
}

/// The file of a track is named after its number, with two digits at least, its artist if there
/// is one, and its title.
pub proof fn files_are_named(number: nat, artist: Seq<char>, title: Seq<char>)
    ensures
        artist.len() > 0 ==> file_name_of(number, artist, title) == zero_padded(number, 2) + " - "@
            + sanitized(artist) + " - "@ + sanitized(title) + ".flac"@,
        artist.len() == 0 ==> file_name_of(number, artist, title) == zero_padded(number, 2)
            + " - "@ + sanitized(title) + ".flac"@,
{
    if artist.len() > 0 {
        assert(file_name_of(number, artist, title) =~= zero_padded(number, 2) + " - "@ + sanitized(
            artist,
        ) + " - "@ + sanitized(title) + ".flac"@);
    } else {
        assert(file_name_of(number, artist, title) =~= zero_padded(number, 2) + " - "@ + sanitized(
            title,
        ) + ".flac"@);
    }
}

/// The file of a track has its samples and its names: those of its frames as far as there are
/// any, its own title and artist or the placeholder and the album's artist, and the number of its
/// place. Its name says the same. A track without samples has none, and files come in the order
/// of their tracks.
pub proof fn tracks_have_their_file(
    tracks: Seq<ExportModel>,
    album_artist: Seq<char>,
    channels: nat,
    len: nat,
    i: int,
)
    requires
        0 <= i < tracks.len(),
    ensures
        ({
            let files = files_of(tracks, album_artist, channels, len, tracks.len());
            let track = tracks[i];
            let number = (i + 1) as nat;
            let begin = track.start_frame * channels;
            let end = if track.end_frame * channels <= len {
                track.end_frame * channels
            } else {
                len
            };
            let title = if track.title.len() > 0 {
                track.title
            } else {
                "Track "@ + zero_padded(number, 2)
            };
            let artist = if track.artist.len() > 0 {
                track.artist
            } else {
                album_artist
            };
            let file = FileModel {
                number,
                title,
                artist,
                file_name: file_name_of(number, artist, title),
                begin,
                end,
            };
            &&& begin < end ==> files.contains(file)
            &&& begin >= end ==> forall|k: int|
                0 <= k < files.len() ==> (#[trigger] files[k]).number != number
            &&& forall|j: int, k: int|
                0 <= j < k < files.len() ==> (#[trigger] files[j]).number < (
                #[trigger] files[k]).number
        }),
{
    let n = tracks.len();
    let files = files_of(tracks, album_artist, channels, len, n);
    files_are_those_with_samples(tracks, album_artist, channels, len, n, i);
    lemma_numbers_ascend(tracks, album_artist, channels, len, n);
    let file = file_of(tracks[i], (i + 1) as nat, album_artist, channels, len);
    if file.begin >= file.end {
        assert forall|k: int| 0 <= k < files.len() implies (#[trigger] files[k]).number
            != i + 1 by {
            if files[k].number == i + 1 {
                lemma_files_are_of_tracks(tracks, album_artist, channels, len, n, k);
            }
        }
    }
}

proof fn lemma_numbers_ascend(
    tracks: Seq<ExportModel>,
    album_artist: Seq<char>,
    channels: nat,
    len: nat,
    n: nat,
)
    requires
        n <= tracks.len(),
    ensures
        ({
            let files = files_of(tracks, album_artist, channels, len, n);
            forall|j: int, k: int|
                0 <= j < k < files.len() ==> (#[trigger] files[j]).number < (
                #[trigger] files[k]).number
        }),
    decreases n,
{
    if n > 0 {
        lemma_numbers_ascend(tracks, album_artist, channels, len, (n - 1) as nat);
        lemma_file_numbers(tracks, album_artist, channels, len, (n - 1) as nat);
    }
}

proof fn lemma_files_are_of_tracks(
    tracks: Seq<ExportModel>,
    album_artist: Seq<char>,
    channels: nat,
    len: nat,
    n: nat,
    k: int,
)
    requires
        n <= tracks.len(),
        0 <= k < files_of(tracks, album_artist, channels, len, n).len(),
    ensures
        ({
            let file = files_of(tracks, album_artist, channels, len, n)[k];
            &&& 1 <= file.number <= n
            &&& file == file_of(
                tracks[file.number - 1],
                file.number,
                album_artist,
                channels,
                len,
            )
            &&& file.begin < file.end
        }),
    decreases n,
{
    if n > 0 {
        let before = files_of(tracks, album_artist, channels, len, (n - 1) as nat);
        if k < before.len() {
            lemma_files_are_of_tracks(tracks, album_artist, channels, len, (n - 1) as nat, k);
        }
    }
}

/// The cue sheet of exported tracks has a track for each: at its start, with its own title and
/// artist.
pub proof fn exported_sheet_has_tracks(tracks: Seq<ExportModel>, starts: Seq<u64>, i: int)
    requires
        0 <= i < tracks.len(),
    ensures
        cue_models(tracks, starts).len() == tracks.len(),
        cue_models(tracks, starts)[i] == (TrackModel {
            start: starts[i] as nat,
            title: tracks[i].title,
            artist: tracks[i].artist,
        }),
{
}

/// Exported samples have the bits that the recording has, but no less than 16 and no more than
/// 24.
pub proof fn exported_bits_are_limited(bits: u32)
    ensures
        16 <= export_bits_spec(bits) <= 24,
        16 <= bits <= 24 ==> export_bits_spec(bits) == bits,
        bits < 16 ==> export_bits_spec(bits) == 16,
        bits > 24 ==> export_bits_spec(bits) == 24,
{
}

/// The encoder is handed every sample of the part, each quantised on its own.
pub proof fn samples_are_quantized_one_by_one(part: Seq<i32>, bits: nat, i: int)
    requires
        0 <= i < part.len(),
    ensures
        quantized_samples(part, bits).len() == part.len(),
        quantized_samples(part, bits)[i] == quantized(part[i], bits) as i32,
{
}

/// An encoded part says what the recording is: its sample rate, its channels, its bits, how many
/// frames there are, and the digest of its quantised samples. Both block sizes are 4096.
pub proof fn encoded_part_says_recording(audio: AudioData, part: Seq<i32>, bytes: Seq<u8>)
    requires
        is_encoding(audio, part, Ok(bytes)),
    ensures
        ({
            let bits = export_bits_spec(audio.bits_per_sample);
            let channels = audio.channels as nat;
            &&& bytes.len() >= 42
            &&& bytes.subrange(0, 8) == seq![0x66u8, 0x4c, 0x61, 0x43, 0x80, 0, 0, 34]
            &&& bytes.subrange(8, 10) == seq![0x10u8, 0]
            &&& bytes.subrange(10, 12) == seq![0x10u8, 0]
            &&& big_endian(bytes.subrange(18, 26)) == audio.sample_rate as nat * pow2(44) + (
            channels - 1) as nat * pow2(41) + (bits - 1) as nat * pow2(36) + part.len() / channels
                % pow2(36)
            &&& bytes.subrange(26, 42) == pcm_md5(quantized_samples(part, bits), channels, bits)
            &&& part.len() >= channels ==> bytes.len() >= 50 && bytes[42] == 0xff && bytes[43]
                == 0xf8
            &&& bytes.len() >= 42 + 8 * (part.len() / channels / 4096)
            &&& 1 <= channels <= 8 && audio.sample_rate <= 96000
        }),
{
    let channels = audio.channels as nat;
    let frames = part.len() / channels;
    assert(quantized_samples(part, export_bits_spec(audio.bits_per_sample)).len() == part.len());
    if part.len() >= channels {
        vstd::arithmetic::div_mod::lemma_div_non_zero(part.len() as int, channels as int);
        assert(block_count(frames) >= 1);
        assert(bytes.subrange(42, 44)[0] == bytes[42]);
        assert(bytes.subrange(42, 44)[1] == bytes[43]);
    }
    assert(block_count(frames) >= frames / 4096);
}

/// A part of a recording that the encoder does not take is refused, and the user is told at which
/// step.
pub proof fn unsupported_parts_are_refused(
    audio: AudioData,
    part: Seq<i32>,
    r: Result<Seq<u8>, Seq<char>>,
)
    requires
        is_encoding(audio, part, r),
        audio.channels == 0 || audio.channels > 8 || audio.sample_rate > 96000
            || audio.bits_per_sample == 18 || audio.bits_per_sample == 19
            || audio.bits_per_sample == 22 || audio.bits_per_sample == 23,
    ensures
        r is Err,
        "FLAC encoding failed: "@.is_prefix_of(r->Err_0),
{
    let e = r->Err_0;
    let failure = choose|failure: FlacFailure|
        e == #[trigger] failure_message(failure) && failure is Encoding;
    assert(failure_message(failure).take("FLAC encoding failed: "@.len() as int)
        =~= "FLAC encoding failed: "@);
}

/// Bytes stand for a number with the most significant first.
pub proof fn bytes_count_up(bytes: Seq<u8>, byte: u8)
    ensures
        big_endian(Seq::empty()) == 0,
        big_endian(bytes.push(byte)) == 256 * big_endian(bytes) + byte,
{
    assert(bytes.push(byte).drop_last() =~= bytes);
}

/// Fixing the block size sets the two bytes of the smallest one to those of the largest, and
/// changes no other byte; what is no FLAC stream stays as it is.
pub proof fn block_size_alone_is_fixed(bytes: Seq<u8>, i: int)
    requires
        0 <= i < bytes.len(),
    ensures
        ({
            let fixed = with_fixed_block_size(bytes);
            let flac = bytes.len() > 12 && bytes[0] == 0x66 && bytes[1] == 0x4c && bytes[2] == 0x61
                && bytes[3] == 0x43;
            &&& fixed.len() == bytes.len()
            &&& flac && i == 8 ==> fixed[i] == bytes[10]
            &&& flac && i == 9 ==> fixed[i] == bytes[11]
            &&& !flac || (i != 8 && i != 9) ==> fixed[i] == bytes[i]
        }),
{
    if bytes.len() > 12 {
        let head = bytes.subrange(0, 4);
        assert(head[0] == bytes[0] && head[1] == bytes[1] && head[2] == bytes[2] && head[3]
            == bytes[3]);
        if bytes[0] == 0x66 && bytes[1] == 0x4c && bytes[2] == 0x61 && bytes[3] == 0x43 {
            assert(head =~= seq![0x66u8, 0x4c, 0x61, 0x43]);
        }
    }
}

/// What the user is told of a failure says at which step it came, and the encoder's own words.
pub proof fn failures_are_told(e: String)
    ensures
        failure_message(FlacFailure::Config(e)) == "Encoder config error: "@ + e@,
        failure_message(FlacFailure::Encoding(e)) == "FLAC encoding failed: "@ + e@,
        failure_message(FlacFailure::Serialization(e)) == "FLAC serialization failed: "@ + e@,
{
}

/// The encoder takes up to eight channels, up to 96 kHz, and the bits that it knows; samples of
/// so many bits lie in the range that they span.
pub proof fn streams_are_limited(channels: nat, bits: nat, sample_rate: nat, samples: Seq<i32>, i: int)
    requires
        0 <= i < samples.len(),
    ensures
        is_supported(channels, bits, sample_rate) <==> 1 <= channels <= 8 && sample_rate <= 96000
            && (bits % 4 == 0 || bits % 4 == 1),
        fit(samples, bits) ==> -pow2((bits - 1) as nat) <= samples[i] < pow2((bits - 1) as nat),
{
}

} // verus!

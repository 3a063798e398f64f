//! What holds of cue sheets as a whole: reading gives back what was written.

use vstd::prelude::*;

use crate::cue::{
    album_text, command_and_rest, cue_model, cue_sheet, cue_time_text, cue_time_value,
    default_title, escaped, file_arg_spec, index_arg, is_default_title_spec, next_word,
    quoted_line, string_arg_spec, track_text, tracks_text, written_artist, written_title, CueModel,
    OpenTrack, SheetModel, TrackModel,
};
use crate::number::{
    all_digits, decimal, digits_value, lemma_decimal, numeral_reads_back, unsigned, without_plus,
    zero_padded,
};
use crate::sort::{is_sorted, lemma_sorted_len, sorted, sorted_is_stable, sorted_of_sorted};
use crate::text::{
    first_word_len, is_white_space, length_before, trim_spec, trim_start_spec, upper, uppercase,
};

verus! {

/// Whether a text stays on one line.
pub open spec fn one_line(s: Seq<char>) -> bool {
    !s.contains('\n')
}

/// Whether a text has no double quote.
pub open spec fn no_quote(s: Seq<char>) -> bool {
    !s.contains('"')
}

/// The start that a sheet can hold: 64 bits of CD frames.
pub open spec fn written_start(start: nat) -> nat {
    if start <= u64::MAX {
        start
    } else {
        u64::MAX as nat
    }
}

/// What a sheet says of track `number`.
pub open spec fn written_track(track: TrackModel, number: nat, album_artist: Seq<char>) -> TrackModel {
    TrackModel {
        start: written_start(track.start),
        title: escaped(written_title(track.title, number)),
        artist: escaped(written_artist(track.artist, album_artist)),
    }
}

/// What a sheet says of its tracks, in the order they were written.
pub open spec fn written_tracks(tracks: Seq<TrackModel>, album_artist: Seq<char>) -> Seq<TrackModel> {
    Seq::new(tracks.len(), |i: int| written_track(tracks[i], (i + 1) as nat, album_artist))
}

/// Whether no text of the tracks holds a line break.
pub open spec fn one_line_tracks(tracks: Seq<TrackModel>) -> bool {
    forall|i: int|
        0 <= i < tracks.len() ==> one_line((#[trigger] tracks[i]).title) && one_line(
            tracks[i].artist,
        )
}

proof fn lemma_length_before_cut(a: Seq<char>, c: char, b: Seq<char>)
    requires
        !a.contains(c),
    ensures
        length_before(a.push(c) + b, c) == a.len(),
    decreases a.len(),
{
    let s = a.push(c) + b;
    if a.len() > 0 {
        assert(a.contains(a[0]));
        assert(s[0] == a[0]);
        assert forall|i: int| 0 <= i < a.drop_first().len() implies a.drop_first()[i] != c by {
            assert(a.contains(a[i + 1]));
        }
        lemma_length_before_cut(a.drop_first(), c, b);
        assert(s.drop_first() =~= a.drop_first().push(c) + b);
    } else {
        assert(s[0] == c);
    }
}

proof fn lemma_length_before_none(a: Seq<char>, c: char)
    requires
        !a.contains(c),
    ensures
        length_before(a, c) == a.len(),
    decreases a.len(),
{
    if a.len() > 0 {
        assert(a.contains(a[0]));
        assert forall|i: int| 0 <= i < a.drop_first().len() implies a.drop_first()[i] != c by {
            assert(a.contains(a[i + 1]));
        }
        lemma_length_before_none(a.drop_first(), c);
    }
}

proof fn lemma_trim_start(pre: Seq<char>, body: Seq<char>)
    requires
        forall|i: int| 0 <= i < pre.len() ==> is_white_space(#[trigger] pre[i]),
        body.len() > 0,
        !is_white_space(body[0]),
    ensures
        trim_start_spec(pre + body) == body,
    decreases pre.len(),
{
    if pre.len() > 0 {
        assert((pre + body).drop_first() =~= pre.drop_first() + body);
        assert((pre + body)[0] == pre[0]);
        lemma_trim_start(pre.drop_first(), body);
    } else {
        assert(pre + body =~= body);
    }
}

proof fn lemma_trim(pre: Seq<char>, body: Seq<char>)
    requires
        forall|i: int| 0 <= i < pre.len() ==> is_white_space(#[trigger] pre[i]),
        body.len() > 0,
        !is_white_space(body[0]),
        !is_white_space(body.last()),
    ensures
        trim_spec(pre + body) == body,
{
    lemma_trim_start(pre, body);
}

proof fn lemma_trim_none(body: Seq<char>)
    requires
        body.len() > 0,
        !is_white_space(body[0]),
        !is_white_space(body.last()),
    ensures
        trim_spec(body) == body,
{
    lemma_trim(Seq::empty(), body);
    assert(Seq::<char>::empty() + body =~= body);
}

proof fn lemma_word_cut(a: Seq<char>, c: char, b: Seq<char>)
    requires
        forall|i: int| 0 <= i < a.len() ==> !is_white_space(#[trigger] a[i]),
        is_white_space(c),
    ensures
        first_word_len(a.push(c) + b) == a.len(),
    decreases a.len(),
{
    let s = a.push(c) + b;
    if a.len() > 0 {
        assert(s[0] == a[0]);
        lemma_word_cut(a.drop_first(), c, b);
        assert(s.drop_first() =~= a.drop_first().push(c) + b);
    } else {
        assert(s[0] == c);
    }
}

proof fn lemma_word_whole(a: Seq<char>)
    requires
        forall|i: int| 0 <= i < a.len() ==> !is_white_space(#[trigger] a[i]),
    ensures
        first_word_len(a) == a.len(),
    decreases a.len(),
{
    if a.len() > 0 {
        lemma_word_whole(a.drop_first());
    }
}

proof fn lemma_command_line(pre: Seq<char>, word: Seq<char>, arg: Seq<char>)
    requires
        forall|i: int| 0 <= i < pre.len() ==> is_white_space(#[trigger] pre[i]),
        word.len() > 0,
        forall|i: int| 0 <= i < word.len() ==> !is_white_space(#[trigger] word[i]),
        arg.len() > 0,
        !is_white_space(arg[0]),
        !is_white_space(arg.last()),
    ensures
        command_and_rest(pre + word.push(' ') + arg) == (uppercase(word), arg),
{
    let body = word.push(' ') + arg;
    assert(pre + word.push(' ') + arg =~= pre + body);
    assert(body[0] == word[0]);
    lemma_trim(pre, body);
    lemma_word_cut(word, ' ', arg);
    assert(body.take(word.len() as int) =~= word);
    assert(body.skip(word.len() as int + 1) =~= arg);
    lemma_trim_none(arg);
}

proof fn lemma_next_line(st: SheetModel, line: Seq<char>, rest: Seq<char>)
    requires
        one_line(line),
    ensures
        st.lines(line.push('\n') + rest) == st.line(line).lines(rest),
{
    let text = line.push('\n') + rest;
    lemma_length_before_cut(line, '\n', rest);
    assert(text.take(line.len() as int) =~= line);
    assert(text.skip(line.len() as int + 1) =~= rest);
}

proof fn lemma_no_line(st: SheetModel)
    ensures
        st.lines(Seq::empty()) == st,
{
    reveal_strlit("FILE");
    reveal_strlit("TRACK");
    reveal_strlit("TITLE");
    reveal_strlit("PERFORMER");
    reveal_strlit("INDEX");
    let empty = Seq::<char>::empty();
    assert(empty.take(0) =~= empty);
    assert(uppercase(empty) =~= empty);
    assert(command_and_rest(empty).0 =~= empty);
    assert("FILE"@.len() == 4 && "TRACK"@.len() == 5 && "TITLE"@.len() == 5);
    assert("PERFORMER"@.len() == 9 && "INDEX"@.len() == 5);
}

proof fn lemma_escaped(s: Seq<char>)
    ensures
        no_quote(escaped(s)),
        one_line(s) ==> one_line(escaped(s)),
        no_quote(s) ==> escaped(s) == s,
        escaped(s).len() == s.len(),
{
    if one_line(s) {
        assert forall|i: int| 0 <= i < s.len() implies escaped(s)[i] != '\n' by {
            assert(s.contains(s[i]));
        }
    }
    if no_quote(s) {
        assert forall|i: int| 0 <= i < s.len() implies escaped(s)[i] == s[i] by {
            assert(s.contains(s[i]));
        }
        assert(escaped(s) =~= s);
    }
}

proof fn lemma_quoted_arg(e: Seq<char>, tail: Seq<char>)
    requires
        no_quote(e),
        tail.len() > 0 ==> !is_white_space(tail.last()),
    ensures
        string_arg_spec(seq!['"'] + e.push('"') + tail) == e,
        file_arg_spec(seq!['"'] + e.push('"') + tail) == e,
{
    let arg = seq!['"'] + e.push('"') + tail;
    assert(arg[0] == '"');
    assert(arg.last() == if tail.len() > 0 { tail.last() } else { '"' });
    lemma_trim_none(arg);
    assert(arg.drop_first() =~= e.push('"') + tail);
    lemma_length_before_cut(e, '"', tail);
    assert(arg.drop_first().take(e.len() as int) =~= e);
}

proof fn lemma_quoted_line(pre: Seq<char>, word: Seq<char>, command: Seq<char>, arg: Seq<char>)
    requires
        command == pre + word,
        forall|i: int| 0 <= i < pre.len() ==> is_white_space(#[trigger] pre[i]),
        word.len() > 0,
        forall|i: int| 0 <= i < word.len() ==> !is_white_space(#[trigger] word[i]) && word[i] != '\n',
        one_line(pre),
        one_line(arg),
    ensures
        ({
            let line = pre + word.push(' ') + (seq!['"'] + escaped(arg).push('"'));
            &&& quoted_line(command, arg) == line.push('\n')
            &&& one_line(line)
            &&& command_and_rest(line) == (uppercase(word), seq!['"'] + escaped(arg).push('"'))
            &&& string_arg_spec(seq!['"'] + escaped(arg).push('"')) == escaped(arg)
        }),
{
    reveal_strlit(" \"");
    reveal_strlit("\"\n");
    let rest = seq!['"'] + escaped(arg).push('"');
    let line = pre + word.push(' ') + rest;
    lemma_escaped(arg);
    assert(quoted_line(command, arg) =~= line.push('\n'));
    lemma_command_line(pre, word, rest);
    lemma_quoted_arg(escaped(arg), Seq::empty());
    assert(rest + Seq::<char>::empty() =~= rest);
    assert forall|i: int| 0 <= i < line.len() implies line[i] != '\n' by {
        if i < pre.len() {
            assert(pre.contains(pre[i]));
        } else if i < pre.len() + word.len() {
            assert(line[i] == word[i - pre.len()]);
        } else if i > pre.len() + word.len() + 1 && i < line.len() - 1 {
            let k = i - pre.len() - word.len() - 2;
            assert(line[i] == escaped(arg)[k]);
            assert(escaped(arg).contains(escaped(arg)[k]));
        }
    }
}

proof fn lemma_digits_apart(d: Seq<char>)
    requires
        all_digits(d),
    ensures
        !d.contains(':'),
        !d.contains('\n'),
        forall|i: int| 0 <= i < d.len() ==> !is_white_space(#[trigger] d[i]),
        d.len() > 0 ==> without_plus(d) == d,
{
    assert forall|i: int| 0 <= i < d.len() implies d[i] != ':' && d[i] != '\n' by {
        assert(crate::number::is_digit(d[i]));
    }
}

/// A time that was written is read back, up to the 64 bits that a sheet can hold.
pub proof fn cue_time_reads_back(frames: nat)
    ensures
        cue_time_value(cue_time_text(frames)) == Some(written_start(frames)),
        cue_time_text(frames).len() > 0,
        forall|i: int|
            0 <= i < cue_time_text(frames).len() ==> !is_white_space(
                #[trigger] cue_time_text(frames)[i],
            ),
        one_line(cue_time_text(frames)),
{
    reveal_strlit(":");
    let total = written_start(frames);
    let mm = zero_padded(total / 75 / 60, 2);
    let ss = zero_padded(total / 75 % 60, 2);
    let ff = zero_padded(total % 75, 2);
    numeral_reads_back(total / 75 / 60, 2);
    numeral_reads_back(total / 75 % 60, 2);
    numeral_reads_back(total % 75, 2);
    lemma_digits_apart(mm);
    lemma_digits_apart(ss);
    lemma_digits_apart(ff);
    let t = cue_time_text(frames);
    let tail = ss.push(':') + ff;
    assert(t =~= mm.push(':') + tail);
    assert(t[0] == mm[0]);
    assert(t.last() == ff.last());
    assert forall|i: int| 0 <= i < t.len() implies !is_white_space(#[trigger] t[i]) && t[i] != '\n' by {
        if i < mm.len() {
            assert(t[i] == mm[i]);
            assert(mm.contains(mm[i]));
        } else if mm.len() < i < mm.len() + 1 + ss.len() {
            let k = i - mm.len() - 1;
            assert(t[i] == ss[k]);
            assert(ss.contains(ss[k]));
        } else if i > mm.len() + 1 + ss.len() {
            let k = i - mm.len() - ss.len() - 2;
            assert(t[i] == ff[k]);
            assert(ff.contains(ff[k]));
        }
    }
    lemma_trim_none(t);
    lemma_length_before_cut(mm, ':', tail);
    lemma_length_before_cut(ss, ':', ff);
    lemma_length_before_none(ff, ':');
    assert(t.take(mm.len() as int) =~= mm);
    assert(t.skip(mm.len() as int + 1) =~= tail);
    assert(tail.take(ss.len() as int) =~= ss);
    assert(tail.skip(ss.len() as int + 1) =~= ff);
}

proof fn lemma_index_one()
    ensures
        unsigned(seq!['0', '1'], u32::MAX as nat) == Some(1nat),
{
    let one = seq!['0', '1'];
    reveal_with_fuel(digits_value, 3);
    assert(one.drop_last() =~= seq!['0']);
    assert(one.drop_last().drop_last() =~= Seq::<char>::empty());
}

#[verifier::rlimit(40)]
proof fn lemma_index_arg(frames: nat)
    ensures
        index_arg(seq!['0', '1', ' '] + cue_time_text(frames)) == Some(
            (1nat, written_start(frames)),
        ),
{
    let time = cue_time_text(frames);
    let arg = seq!['0', '1', ' '] + time;
    let one = seq!['0', '1'];
    cue_time_reads_back(frames);
    lemma_index_one();
    assert(arg =~= one.push(' ') + time);
    lemma_word_cut(one, ' ', time);
    assert(trim_start_spec(arg) == arg);
    assert(arg.take(2) =~= one);
    assert(arg.skip(2) =~= seq![' '] + time);
    lemma_trim_start(seq![' '], time);
    lemma_word_whole(time);
    assert(time.take(time.len() as int) =~= time);
    assert(next_word(arg) == (one, seq![' '] + time));
    assert(next_word(seq![' '] + time).0 == time);
}

proof fn lemma_index_command()
    ensures
        uppercase("INDEX"@) == "INDEX"@,
        "INDEX"@ != "FILE"@,
        "INDEX"@ != "TRACK"@,
        "INDEX"@ != "TITLE"@,
        "INDEX"@ != "PERFORMER"@,
{
    reveal_strlit("FILE");
    reveal_strlit("TRACK");
    reveal_strlit("TITLE");
    reveal_strlit("PERFORMER");
    reveal_strlit("INDEX");
    assert(uppercase("INDEX"@) =~= "INDEX"@);
    assert("FILE"@.len() == 4 && "PERFORMER"@.len() == 9 && "INDEX"@.len() == 5);
    assert("TRACK"@[0] == 'T' && "TITLE"@[0] == 'T' && "INDEX"@[0] == 'I');
}

proof fn lemma_index_line_shape(frames: nat)
    ensures
        ({
            let line = "    INDEX 01 "@ + cue_time_text(frames);
            &&& one_line(line)
            &&& command_and_rest(line) == (
                uppercase("INDEX"@),
                seq!['0', '1', ' '] + cue_time_text(frames),
            )
        }),
{
    reveal_strlit("    INDEX 01 ");
    reveal_strlit("INDEX");
    let time = cue_time_text(frames);
    let pre = seq![' ', ' ', ' ', ' '];
    let word = "INDEX"@;
    let arg = seq!['0', '1', ' '] + time;
    let line = "    INDEX 01 "@ + time;
    cue_time_reads_back(frames);
    assert(line =~= pre + word.push(' ') + arg);
    assert forall|i: int| 0 <= i < line.len() implies line[i] != '\n' by {
        if i >= 13 {
            assert(line[i] == time[i - 13]);
            assert(time.contains(time[i - 13]));
        }
    }
    assert(arg.last() == time.last());
    lemma_command_line(pre, word, arg);
}

proof fn lemma_index_line(st: SheetModel, frames: nat)
    requires
        st.current is Some,
    ensures
        ({
            let line = "    INDEX 01 "@ + cue_time_text(frames);
            &&& one_line(line)
            &&& st.line(line) == SheetModel {
                current: Some(
                    OpenTrack { start: Some(written_start(frames)), ..st.current->0 },
                ),
                ..st
            }
        }),
{
    lemma_index_line_shape(frames);
    lemma_index_command();
    lemma_index_arg(frames);
}

proof fn lemma_track_line(st: SheetModel, number: nat)
    ensures
        ({
            let line = "  TRACK "@ + zero_padded(number, 2) + " AUDIO"@;
            &&& one_line(line)
            &&& st.line(line) == st.track()
        }),
{
    reveal_strlit("  TRACK ");
    reveal_strlit(" AUDIO");
    reveal_strlit("FILE");
    reveal_strlit("TRACK");
    let n = zero_padded(number, 2);
    numeral_reads_back(number, 2);
    lemma_digits_apart(n);
    let pre = seq![' ', ' '];
    let word = "TRACK"@;
    let arg = n + " AUDIO"@;
    let line = "  TRACK "@ + n + " AUDIO"@;
    assert(line =~= pre + word.push(' ') + arg);
    assert forall|i: int| 0 <= i < line.len() implies line[i] != '\n' by {
        if 8 <= i < 8 + n.len() {
            assert(line[i] == n[i - 8]);
            assert(n.contains(n[i - 8]));
        }
    }
    assert(arg[0] == n[0]);
    lemma_command_line(pre, word, arg);
    assert(uppercase(word) =~= word);
    assert("FILE"@.len() == 4);
}

proof fn lemma_title_line(st: SheetModel, pre: Seq<char>, command: Seq<char>, arg: Seq<char>, rest: Seq<char>)
    requires
        command == pre + "TITLE"@,
        forall|i: int| 0 <= i < pre.len() ==> #[trigger] pre[i] == ' ',
        one_line(arg),
    ensures
        st.lines(quoted_line(command, arg) + rest) == (match st.current {
            Some(c) => SheetModel {
                current: Some(OpenTrack { title: escaped(arg), ..c }),
                ..st
            },
            None => SheetModel { album_title: escaped(arg), ..st },
        }).lines(rest),
{
    reveal_strlit("FILE");
    reveal_strlit("TRACK");
    reveal_strlit("TITLE");
    let word = "TITLE"@;
    assert forall|i: int| 0 <= i < pre.len() implies is_white_space(#[trigger] pre[i]) by {}
    lemma_quoted_line(pre, word, command, arg);
    let line = pre + word.push(' ') + (seq!['"'] + escaped(arg).push('"'));
    lemma_next_line(st, line, rest);
    assert(uppercase(word) =~= word);
    assert("FILE"@.len() == 4 && "TRACK"@[1] == 'R' && "TITLE"@[1] == 'I');
}

proof fn lemma_performer_line(st: SheetModel, pre: Seq<char>, command: Seq<char>, arg: Seq<char>, rest: Seq<char>)
    requires
        command == pre + "PERFORMER"@,
        forall|i: int| 0 <= i < pre.len() ==> #[trigger] pre[i] == ' ',
        one_line(arg),
    ensures
        st.lines(quoted_line(command, arg) + rest) == (match st.current {
            Some(c) => SheetModel {
                current: Some(OpenTrack { artist: escaped(arg), ..c }),
                ..st
            },
            None => SheetModel { album_artist: escaped(arg), ..st },
        }).lines(rest),
{
    reveal_strlit("FILE");
    reveal_strlit("TRACK");
    reveal_strlit("TITLE");
    reveal_strlit("PERFORMER");
    let word = "PERFORMER"@;
    assert forall|i: int| 0 <= i < pre.len() implies is_white_space(#[trigger] pre[i]) by {}
    lemma_quoted_line(pre, word, command, arg);
    let line = pre + word.push(' ') + (seq!['"'] + escaped(arg).push('"'));
    lemma_next_line(st, line, rest);
    assert(uppercase(word) =~= word);
    assert("FILE"@.len() == 4 && "TRACK"@.len() == 5 && "TITLE"@.len() == 5);
}

proof fn lemma_file_line(st: SheetModel, name: Seq<char>, rest: Seq<char>)
    requires
        one_line(name),
        st.audio_file is None,
    ensures
        st.lines("FILE \""@ + escaped(name) + "\" WAVE\n"@ + rest) == (SheetModel {
            audio_file: Some(escaped(name)),
            ..st
        }).lines(rest),
{
    reveal_strlit("FILE \"");
    reveal_strlit("\" WAVE\n");
    reveal_strlit("FILE");
    let e = escaped(name);
    lemma_escaped(name);
    let tail = seq![' ', 'W', 'A', 'V', 'E'];
    let word = "FILE"@;
    let arg = seq!['"'] + e.push('"') + tail;
    let line = Seq::<char>::empty() + word.push(' ') + arg;
    assert("FILE \""@ + e + "\" WAVE\n"@ + rest =~= line.push('\n') + rest);
    lemma_command_line(Seq::empty(), word, arg);
    lemma_quoted_arg(e, tail);
    assert(uppercase(word) =~= word);
    assert forall|i: int| 0 <= i < line.len() implies line[i] != '\n' by {
        if 6 <= i < 6 + e.len() {
            assert(line[i] == e[i - 6]);
            assert(e.contains(e[i - 6]));
        }
    }
    lemma_next_line(st, line, rest);
}

proof fn lemma_default_title_one_line(number: nat)
    ensures
        one_line(default_title(number)),
        no_quote(default_title(number)),
{
    reveal_strlit("Track ");
    let n = zero_padded(number, 2);
    numeral_reads_back(number, 2);
    lemma_digits_apart(n);
    assert forall|i: int| 0 <= i < default_title(number).len() implies default_title(number)[i]
        != '\n' && default_title(number)[i] != '"' by {
        if i >= 6 {
            assert(default_title(number)[i] == n[i - 6]);
            assert(crate::number::is_digit(n[i - 6]));
        }
    }
}

#[verifier::rlimit(40)]
proof fn lemma_track_text(
    st: SheetModel,
    track: TrackModel,
    number: nat,
    album_artist: Seq<char>,
    rest: Seq<char>,
)
    requires
        one_line(track.title),
        one_line(track.artist),
        one_line(album_artist),
    ensures
        st.lines(track_text(track, number, album_artist) + rest) == (SheetModel {
            tracks: st.flushed(),
            current: Some(
                OpenTrack {
                    title: escaped(written_title(track.title, number)),
                    artist: escaped(written_artist(track.artist, album_artist)),
                    start: Some(written_start(track.start)),
                },
            ),
            ..st
        }).lines(rest),
{
    reveal_strlit(" AUDIO");
    reveal_strlit(" AUDIO\n");
    reveal_strlit("\n");
    reveal_strlit("    TITLE");
    reveal_strlit("TITLE");
    reveal_strlit("    PERFORMER");
    reveal_strlit("PERFORMER");
    let pre = seq![' ', ' ', ' ', ' '];
    let title = written_title(track.title, number);
    let artist = written_artist(track.artist, album_artist);
    let track_line = "  TRACK "@ + zero_padded(number, 2) + " AUDIO"@;
    let title_line = quoted_line("    TITLE"@, title);
    let artist_line = if artist.len() > 0 {
        quoted_line("    PERFORMER"@, artist)
    } else {
        Seq::empty()
    };
    let index_line = "    INDEX 01 "@ + cue_time_text(track.start);
    let after_artist = index_line.push('\n') + rest;
    let after_title = artist_line + after_artist;
    let after_track = title_line + after_title;
    assert(track_text(track, number, album_artist) + rest =~= track_line.push('\n') + after_track);
    lemma_default_title_one_line(number);

    let st1 = st.track();
    lemma_track_line(st, number);
    lemma_next_line(st, track_line, after_track);

    let st2 = SheetModel { current: Some(OpenTrack { title: escaped(title), ..st1.current->0 }), ..st1 };
    assert("    TITLE"@ =~= pre + "TITLE"@);
    lemma_title_line(st1, pre, "    TITLE"@, title, after_title);

    let st3 = SheetModel { current: Some(OpenTrack { artist: escaped(artist), ..st2.current->0 }), ..st2 };
    assert("    PERFORMER"@ =~= pre + "PERFORMER"@);
    if artist.len() > 0 {
        lemma_performer_line(st2, pre, "    PERFORMER"@, artist, after_artist);
    } else {
        assert(after_title =~= after_artist);
        assert(escaped(artist) =~= Seq::<char>::empty());
        assert(st3 == st2);
    }

    lemma_index_line(st3, track.start);
    lemma_next_line(st3, index_line, rest);
}

#[verifier::rlimit(40)]
proof fn lemma_tracks_text(
    st: SheetModel,
    tracks: Seq<TrackModel>,
    album_artist: Seq<char>,
    rest: Seq<char>,
) -> (end: SheetModel)
    requires
        st.current is None,
        st.tracks.len() == 0,
        one_line_tracks(tracks),
        one_line(album_artist),
    ensures
        st.lines(tracks_text(tracks, album_artist) + rest) == end.lines(rest),
        end.flushed() == written_tracks(tracks, album_artist),
        end.audio_file == st.audio_file,
        end.album_artist == st.album_artist,
        end.album_title == st.album_title,
    decreases tracks.len(),
{
    if tracks.len() == 0 {
        assert(tracks_text(tracks, album_artist) + rest =~= rest);
        assert(st.tracks =~= written_tracks(tracks, album_artist));
        st
    } else {
        let last = track_text(tracks.last(), tracks.len(), album_artist);
        assert forall|i: int| 0 <= i < tracks.drop_last().len() implies one_line(
            (#[trigger] tracks.drop_last()[i]).title,
        ) && one_line(tracks.drop_last()[i].artist) by {
            assert(tracks.drop_last()[i] == tracks[i]);
        }
        assert(one_line(tracks[tracks.len() - 1].title));
        let before = lemma_tracks_text(st, tracks.drop_last(), album_artist, last + rest);
        assert(tracks_text(tracks, album_artist) + rest =~= tracks_text(
            tracks.drop_last(),
            album_artist,
        ) + (last + rest));
        lemma_track_text(before, tracks.last(), tracks.len(), album_artist, rest);
        let written = written_track(tracks.last(), tracks.len(), album_artist);
        let end = SheetModel {
            tracks: before.flushed(),
            current: Some(
                OpenTrack {
                    title: written.title,
                    artist: written.artist,
                    start: Some(written.start),
                },
            ),
            ..before
        };
        assert(end.flushed() =~= written_tracks(tracks, album_artist));
        end
    }
}

proof fn lemma_album_text(
    audio_file_name: Seq<char>,
    album_artist: Seq<char>,
    album_title: Seq<char>,
    rest: Seq<char>,
)
    requires
        one_line(audio_file_name),
        one_line(album_artist),
        one_line(album_title),
    ensures
        SheetModel::blank().lines(
            album_text(audio_file_name, album_artist, album_title) + rest,
        ) == (SheetModel {
            audio_file: Some(escaped(audio_file_name)),
            album_artist: escaped(album_artist),
            album_title: escaped(album_title),
            ..SheetModel::blank()
        }).lines(rest),
{
    let st = SheetModel::blank();
    let empty = Seq::<char>::empty();
    let file_line = "FILE \""@ + escaped(audio_file_name) + "\" WAVE\n"@;
    let title_line = if album_title.len() > 0 {
        quoted_line("TITLE"@, album_title)
    } else {
        empty
    };
    let artist_line = if album_artist.len() > 0 {
        quoted_line("PERFORMER"@, album_artist)
    } else {
        empty
    };
    let after_title = file_line + rest;
    let after_artist = title_line + after_title;
    assert(album_text(audio_file_name, album_artist, album_title) + rest =~= artist_line
        + after_artist);
    let st1 = SheetModel { album_artist: escaped(album_artist), ..st };
    assert("PERFORMER"@ =~= empty + "PERFORMER"@);
    if album_artist.len() > 0 {
        lemma_performer_line(st, empty, "PERFORMER"@, album_artist, after_artist);
    } else {
        assert(artist_line + after_artist =~= after_artist);
        assert(escaped(album_artist) =~= empty);
    }
    let st2 = SheetModel { album_title: escaped(album_title), ..st1 };
    assert("TITLE"@ =~= empty + "TITLE"@);
    if album_title.len() > 0 {
        lemma_title_line(st1, empty, "TITLE"@, album_title, after_title);
    } else {
        assert(after_artist =~= after_title);
        assert(escaped(album_title) =~= empty);
    }
    lemma_file_line(st2, audio_file_name, rest);
}

/// A cue sheet that was written is read back: the names with their double quotes made
/// single, every track with the title and the artist it was written with, by ascending start.
pub proof fn written_sheet_reads_back(
    audio_file_name: Seq<char>,
    album_artist: Seq<char>,
    album_title: Seq<char>,
    tracks: Seq<TrackModel>,
)
    requires
        one_line(audio_file_name),
        one_line(album_artist),
        one_line(album_title),
        one_line_tracks(tracks),
    ensures
        cue_model(cue_sheet(audio_file_name, album_artist, album_title, tracks)) == if tracks.len()
            == 0 {
            Err("Cue sheet has no tracks with an INDEX"@)
        } else {
            Ok(
                CueModel {
                    audio_file: escaped(audio_file_name),
                    album_artist: escaped(album_artist),
                    album_title: escaped(album_title),
                    tracks: sorted(
                        written_tracks(tracks, album_artist),
                        |t: TrackModel| t.start as int,
                    ),
                },
            )
        },
{
    let empty = Seq::<char>::empty();
    let body = tracks_text(tracks, album_artist);
    lemma_album_text(audio_file_name, album_artist, album_title, body);
    let st = SheetModel {
        audio_file: Some(escaped(audio_file_name)),
        album_artist: escaped(album_artist),
        album_title: escaped(album_title),
        ..SheetModel::blank()
    };
    let end = lemma_tracks_text(st, tracks, album_artist, empty);
    assert(body + empty =~= body);
    lemma_no_line(end);
}

/// A sheet with tracks by ascending start is read back in the order it was written.
pub proof fn ordered_sheet_reads_back(
    audio_file_name: Seq<char>,
    album_artist: Seq<char>,
    album_title: Seq<char>,
    tracks: Seq<TrackModel>,
    i: int,
)
    requires
        one_line(audio_file_name),
        one_line(album_artist),
        one_line(album_title),
        one_line_tracks(tracks),
        is_sorted(tracks, |t: TrackModel| t.start as int),
        0 <= i < tracks.len(),
    ensures
        cue_model(cue_sheet(audio_file_name, album_artist, album_title, tracks)) matches Ok(cue)
            && cue.audio_file == escaped(audio_file_name) && cue.album_artist == escaped(
            album_artist,
        ) && cue.album_title == escaped(album_title) && cue.tracks.len() == tracks.len()
            && cue.tracks[i] == written_track(tracks[i], (i + 1) as nat, album_artist),
{
    let start = |t: TrackModel| t.start as int;
    written_sheet_reads_back(audio_file_name, album_artist, album_title, tracks);
    let written = written_tracks(tracks, album_artist);
    assert forall|a: int, b: int| 0 <= a <= b < written.len() implies start(
        #[trigger] written[a],
    ) <= start(#[trigger] written[b]) by {
        assert(start(tracks[a]) <= start(tracks[b]));
    }
    sorted_of_sorted(written, start);
}

/// A placeholder title has no double quote to be made single.
pub proof fn default_title_is_escaped(number: nat)
    ensures
        escaped(default_title(number)) == default_title(number),
{
    lemma_default_title_one_line(number);
    lemma_escaped(default_title(number));
}

/// A sheet without double quotes, with tracks by ascending start, is read back as it was
/// written: the names, the starts, and the titles and artists that are not empty.
pub proof fn plain_sheet_reads_back(
    audio_file_name: Seq<char>,
    album_artist: Seq<char>,
    album_title: Seq<char>,
    tracks: Seq<TrackModel>,
    i: int,
)
    requires
        one_line(audio_file_name),
        one_line(album_artist),
        one_line(album_title),
        one_line_tracks(tracks),
        no_quote(audio_file_name),
        no_quote(album_artist),
        no_quote(album_title),
        forall|k: int|
            0 <= k < tracks.len() ==> no_quote((#[trigger] tracks[k]).title) && no_quote(
                tracks[k].artist,
            ),
        is_sorted(tracks, |t: TrackModel| t.start as int),
        0 <= i < tracks.len(),
        tracks.last().start <= u64::MAX,
    ensures
        cue_model(cue_sheet(audio_file_name, album_artist, album_title, tracks)) matches Ok(cue)
            && cue.audio_file == audio_file_name && cue.album_artist == album_artist
            && cue.album_title == album_title && cue.tracks.len() == tracks.len()
            && cue.tracks[i].start == tracks[i].start && cue.tracks[i].title == written_title(
            tracks[i].title,
            (i + 1) as nat,
        ) && cue.tracks[i].artist == written_artist(tracks[i].artist, album_artist),
{
    let start = |t: TrackModel| t.start as int;
    ordered_sheet_reads_back(audio_file_name, album_artist, album_title, tracks, i);
    lemma_escaped(audio_file_name);
    lemma_escaped(album_artist);
    lemma_escaped(album_title);
    assert(start(tracks[i]) <= start(tracks[tracks.len() - 1]));
    assert(no_quote(tracks[i].title) && no_quote(tracks[i].artist));
    lemma_default_title_one_line((i + 1) as nat);
    lemma_escaped(written_title(tracks[i].title, (i + 1) as nat));
    lemma_escaped(written_artist(tracks[i].artist, album_artist));
}

/// A cue sheet that is read has tracks, by ascending start.
pub proof fn parsed_tracks_ascend(text: Seq<char>)
    ensures
        cue_model(text) matches Ok(cue) ==> cue.tracks.len() > 0 && is_sorted(
            cue.tracks,
            |t: TrackModel| t.start as int,
        ),
{
    let start = |t: TrackModel| t.start as int;
    let end = SheetModel::blank().lines(text);
    lemma_sorted_len(end.flushed(), start);
    sorted_is_stable(end.flushed(), start);
}

proof fn lemma_uppercase_concat(a: Seq<char>, b: Seq<char>)
    ensures
        uppercase(a + b) == uppercase(a) + uppercase(b),
{
    assert(uppercase(a + b) =~= uppercase(a) + uppercase(b));
}

proof fn lemma_uppercase_digits(d: Seq<char>)
    requires
        all_digits(d),
    ensures
        uppercase(d) == d,
{
    assert forall|i: int| 0 <= i < d.len() implies upper(d[i]) == d[i] by {
        assert(crate::number::is_digit(d[i]));
    }
    assert(uppercase(d) =~= d);
}

/// The placeholder of one track is taken for that track's placeholder, and for no other's.
pub proof fn default_title_is_its_own(number: nat, other: nat)
    ensures
        is_default_title_spec(default_title(number), other) <==> number == other,
{
    reveal_strlit("Track ");
    reveal_strlit("track ");
    let n = zero_padded(number, 2);
    let padded = zero_padded(other, 2);
    let plain = decimal(other);
    numeral_reads_back(number, 2);
    numeral_reads_back(other, 2);
    lemma_decimal(other);
    lemma_digits_apart(n);
    assert(default_title(number)[0] == 'T');
    assert(default_title(number).last() == n.last());
    lemma_trim_none(default_title(number));
    lemma_uppercase_digits(n);
    lemma_uppercase_digits(padded);
    lemma_uppercase_digits(plain);
    lemma_uppercase_concat("Track "@, n);
    lemma_uppercase_concat("track "@, padded);
    lemma_uppercase_concat("track "@, plain);
    let head = uppercase("Track "@);
    assert(head =~= uppercase("track "@));
    assert((head + n).skip(6) =~= n);
    assert((head + padded).skip(6) =~= padded);
    assert((head + plain).skip(6) =~= plain);
}

} // verus!

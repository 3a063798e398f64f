//! What holds of reading a cue sheet, line by line.

use vstd::prelude::*;

use crate::cue::{
    album_text, command_and_rest, cue_in, cue_model, cue_sheet, cue_time_text, cue_time_value,
    escaped, file_arg_spec, index_arg, is_cue_key, is_default_title_spec, is_embedded_cue, next_word,
    string_arg_spec, track_text, tracks_text, CueModel, OpenTrack, SheetModel, TrackModel,
};
use crate::cue_laws::one_line;
use crate::number::{
    all_digits, decimal, is_digit, lemma_decimal, numeral_reads_back, unsigned, zero_padded,
};
use crate::sort::{lemma_sorted_len, sorted_is_stable, with_key};
use crate::text::{
    is_white_space, last_word_len, length_before, uppercase,
};
use crate::text_laws::{
    characters_are_found, first_word_ends, is_blank, is_trimmed, is_word, last_word_begins,
    trimming_goes_around, trimming_starts,
};

verus! {

/// A line made of a command and its argument, with white space around and between them.
pub open spec fn line_of(
    pre: Seq<char>,
    word: Seq<char>,
    sep: Seq<char>,
    arg: Seq<char>,
    post: Seq<char>,
) -> Seq<char> {
    pre + word + sep + arg + post
}

/// Whether these parts make a line: a command, and an argument that may be missing.
pub open spec fn makes_line(
    pre: Seq<char>,
    word: Seq<char>,
    sep: Seq<char>,
    arg: Seq<char>,
    post: Seq<char>,
) -> bool {
    &&& is_blank(pre)
    &&& is_word(word) && word.len() > 0
    &&& is_blank(sep) && sep.len() > 0
    &&& is_trimmed(arg)
    &&& is_blank(post)
}

proof fn lemma_split(
    pre: Seq<char>,
    word: Seq<char>,
    sep: Seq<char>,
    arg: Seq<char>,
    post: Seq<char>,
)
    requires
        makes_line(pre, word, sep, arg, post),
    ensures
        command_and_rest(line_of(pre, word, sep, arg, post)) == (uppercase(word), arg),
{
    let line = line_of(pre, word, sep, arg, post);
    let none = Seq::<char>::empty();
    if arg.len() > 0 {
        let body = word + (sep + arg);
        assert(line =~= pre + body + post);
        assert(body[0] == word[0]);
        assert(body.last() == arg.last());
        trimming_goes_around(pre, body, post);
        assert((sep + arg)[0] == sep[0]);
        first_word_ends(word, sep + arg);
        assert(body.take(word.len() as int) =~= word);
        let tail = sep.drop_first();
        assert(body.skip(word.len() as int + 1) =~= tail + arg + none);
        assert forall|i: int| 0 <= i < tail.len() implies is_white_space(#[trigger] tail[i]) by {
            assert(tail[i] == sep[i + 1]);
        }
        trimming_goes_around(tail, arg, none);
    } else {
        let after = sep + post;
        assert(line =~= pre + word + after);
        trimming_goes_around(pre, word, after);
        first_word_ends(word, none);
        assert(word + none =~= word);
        assert(word.take(word.len() as int) =~= word);
        assert(arg =~= none);
    }
}

proof fn lemma_names_differ()
    ensures
        "FILE"@ != "TRACK"@,
        "FILE"@ != "TITLE"@,
        "FILE"@ != "PERFORMER"@,
        "FILE"@ != "INDEX"@,
        "TRACK"@ != "TITLE"@,
        "TRACK"@ != "PERFORMER"@,
        "TRACK"@ != "INDEX"@,
        "TITLE"@ != "PERFORMER"@,
        "TITLE"@ != "INDEX"@,
        "PERFORMER"@ != "INDEX"@,
        "FILE"@.len() > 0,
        "TRACK"@.len() > 0,
        "TITLE"@.len() > 0,
        "PERFORMER"@.len() > 0,
        "INDEX"@.len() > 0,
{
    reveal_strlit("FILE");
    reveal_strlit("TRACK");
    reveal_strlit("TITLE");
    reveal_strlit("PERFORMER");
    reveal_strlit("INDEX");
    assert("FILE"@.len() == 4 && "PERFORMER"@.len() == 9);
    assert("TRACK"@[1] == 'R' && "TITLE"@[1] == 'I' && "INDEX"@[1] == 'N');
    assert("TRACK"@.len() == 5 && "TITLE"@.len() == 5 && "INDEX"@.len() == 5);
}

/// The lines of a text are read one after the other: reading two texts with a line break between
/// them is reading the one, and then the other.
pub proof fn lines_are_read_in_turn(sheet: SheetModel, a: Seq<char>, b: Seq<char>)
    ensures
        sheet.lines(a.push('\n') + b) == sheet.lines(a).lines(b),
        one_line(a) ==> sheet.lines(a) == sheet.line(a),
    decreases a.len(),
{
    let text = a.push('\n') + b;
    let n = length_before(a, '\n') as int;
    characters_are_found(a, '\n');
    characters_are_found(text, '\n');
    let m = length_before(text, '\n') as int;
    assert(text[a.len() as int] == '\n');
    assert(m == n) by {
        if m < n {
            assert(text[m] == a[m]);
        }
        if n < m {
            if n < a.len() {
                assert(text[n] == a[n]);
            } else {
                assert(text[n] == '\n');
            }
        }
    }
    assert(text.take(n) =~= a.take(n));
    if n < a.len() {
        assert(text.skip(n + 1) =~= a.skip(n + 1).push('\n') + b);
        lines_are_read_in_turn(sheet.line(a.take(n)), a.skip(n + 1), b);
        assert(a.contains(a[n]));
    } else {
        assert(text.skip(n + 1) =~= b);
        assert(a.take(n) =~= a);
    }
}

/// Before the first line nothing is known.
pub proof fn reading_starts_blank()
    ensures
        ({
            let sheet = SheetModel::blank();
            &&& sheet.audio_file is None
            &&& sheet.current is None
            &&& sheet.tracks.len() == 0
            &&& sheet.album_artist.len() == 0
            &&& sheet.album_title.len() == 0
        }),
{
}

/// The argument of FILE without quotes is the name before its last word, whatever that word is.
pub proof fn unquoted_file_names(name: Seq<char>, gap: Seq<char>, kind: Seq<char>)
    requires
        name.len() > 0,
        is_trimmed(name),
        name[0] != '"',
        is_blank(gap),
        gap.len() > 0,
        is_word(kind),
        kind.len() > 0,
    ensures
        file_arg_spec(name + gap + kind) == name,
{
    let rest = name + gap + kind;
    let before = name + gap;
    assert(rest[0] == name[0]);
    last_word_begins(before, kind);
    let n = rest.len() - last_word_len(rest);
    let shorter = gap.drop_last();
    let none = Seq::<char>::empty();
    assert(rest.take(n - 1) =~= none + name + shorter);
    assert forall|i: int| 0 <= i < shorter.len() implies is_white_space(#[trigger] shorter[i]) by {
        assert(shorter[i] == gap[i]);
    }
    trimming_goes_around(none, name, shorter);
}

/// A name alone is taken whole.
pub proof fn lone_file_names(name: Seq<char>)
    requires
        is_word(name),
        name.len() > 0,
        name[0] != '"',
    ensures
        file_arg_spec(name) == name,
{
    let none = Seq::<char>::empty();
    last_word_begins(none, name);
    assert(none + name =~= name);
}

/// A quoted argument is what stands between the quotes, whatever follows them; the second quote
/// may be missing.
pub proof fn quoted_arguments(inner: Seq<char>, tail: Seq<char>)
    requires
        !inner.contains('"'),
        is_trimmed(seq!['"'] + inner + tail),
        tail.len() > 0 ==> tail[0] == '"',
    ensures
        string_arg_spec(seq!['"'] + inner + tail) == inner,
        file_arg_spec(seq!['"'] + inner + tail) == inner,
{
    let arg = seq!['"'] + inner + tail;
    let none = Seq::<char>::empty();
    assert(none + arg + none =~= arg);
    trimming_goes_around(none, arg, none);
    let q = arg.drop_first();
    assert(arg[0] == '"');
    assert(q =~= inner + tail);
    characters_are_found(q, '"');
    let n = length_before(q, '"') as int;
    assert(n == inner.len()) by {
        if n < inner.len() {
            assert(q[n] == inner[n]);
            assert(inner.contains(inner[n]));
        }
        if n > inner.len() {
            assert(q[inner.len() as int] == tail[0]);
        }
    }
    assert(q.take(n) =~= inner);
}

/// An argument without quotes is all of it, but for the white space around it.
pub proof fn plain_arguments(pre: Seq<char>, arg: Seq<char>, post: Seq<char>)
    requires
        is_blank(pre),
        is_blank(post),
        is_trimmed(arg),
        arg.len() > 0 ==> arg[0] != '"',
    ensures
        string_arg_spec(pre + arg + post) == arg,
{
    trimming_goes_around(pre, arg, post);
}

proof fn lemma_file_kept(sheet: SheetModel, text: Seq<char>)
    requires
        sheet.audio_file is Some,
    ensures
        sheet.lines(text).audio_file == sheet.audio_file,
    decreases text.len(),
{
    let n = length_before(text, '\n') as int;
    characters_are_found(text, '\n');
    let next = sheet.line(text.take(n));
    assert(next.audio_file == sheet.audio_file);
    if n < text.len() {
        lemma_file_kept(next, text.skip(n + 1));
    }
}

/// A sheet is that of the recording in its first FILE line, whatever follows: of the name before
/// the last word where it is not quoted.
pub proof fn first_file_is_the_recording(
    pre: Seq<char>,
    word: Seq<char>,
    sep: Seq<char>,
    name: Seq<char>,
    gap: Seq<char>,
    kind: Seq<char>,
    rest: Seq<char>,
)
    requires
        is_blank(pre),
        is_word(word),
        uppercase(word) == "FILE"@,
        is_blank(sep),
        sep.len() > 0,
        name.len() > 0,
        is_trimmed(name),
        name[0] != '"',
        is_blank(gap),
        gap.len() > 0,
        is_word(kind),
        kind.len() > 0,
        one_line(pre + word + sep + (name + gap + kind)),
    ensures
        match cue_model((pre + word + sep + (name + gap + kind)).push('\n') + rest) {
            Ok(cue) => cue.audio_file == name,
            Err(e) => e == "Cue sheet has no tracks with an INDEX"@,
        },
{
    let arg = name + gap + kind;
    let none = Seq::<char>::empty();
    let line = pre + word + sep + arg;
    lemma_names_differ();
    assert(word.len() == uppercase(word).len());
    assert(arg[0] == name[0]);
    assert(arg.last() == kind[kind.len() - 1]);
    lemma_split(pre, word, sep, arg, none);
    assert(line_of(pre, word, sep, arg, none) =~= line);
    unquoted_file_names(name, gap, kind);
    let blank = SheetModel::blank();
    lines_are_read_in_turn(blank, line, rest);
    assert(blank.line(line).audio_file == Some(name));
    lemma_file_kept(blank.line(line), rest);
}

/// FILE names the recording where none has been named, and nothing else; a second one has no
/// effect.
pub proof fn file_lines(
    sheet: SheetModel,
    pre: Seq<char>,
    word: Seq<char>,
    sep: Seq<char>,
    arg: Seq<char>,
    post: Seq<char>,
)
    requires
        makes_line(pre, word, sep, arg, post),
        uppercase(word) == "FILE"@,
    ensures
        ({
            let after = sheet.line(line_of(pre, word, sep, arg, post));
            &&& sheet.audio_file is Some ==> after == sheet
            &&& sheet.audio_file is None ==> after == SheetModel {
                audio_file: Some(file_arg_spec(arg)),
                ..sheet
            }
        }),
{
    lemma_split(pre, word, sep, arg, post);
}

/// TITLE names the track that is being read, or the album before the first one.
pub proof fn title_lines(
    sheet: SheetModel,
    pre: Seq<char>,
    word: Seq<char>,
    sep: Seq<char>,
    arg: Seq<char>,
    post: Seq<char>,
)
    requires
        makes_line(pre, word, sep, arg, post),
        uppercase(word) == "TITLE"@,
    ensures
        ({
            let after = sheet.line(line_of(pre, word, sep, arg, post));
            &&& sheet.current is None ==> after == SheetModel {
                album_title: string_arg_spec(arg),
                ..sheet
            }
            &&& sheet.current matches Some(track) ==> after == SheetModel {
                current: Some(OpenTrack { title: string_arg_spec(arg), ..track }),
                ..sheet
            }
        }),
{
    lemma_names_differ();
    lemma_split(pre, word, sep, arg, post);
}

/// PERFORMER names the artist of the track that is being read, or the album's before the first
/// one.
pub proof fn performer_lines(
    sheet: SheetModel,
    pre: Seq<char>,
    word: Seq<char>,
    sep: Seq<char>,
    arg: Seq<char>,
    post: Seq<char>,
)
    requires
        makes_line(pre, word, sep, arg, post),
        uppercase(word) == "PERFORMER"@,
    ensures
        ({
            let after = sheet.line(line_of(pre, word, sep, arg, post));
            &&& sheet.current is None ==> after == SheetModel {
                album_artist: string_arg_spec(arg),
                ..sheet
            }
            &&& sheet.current matches Some(track) ==> after == SheetModel {
                current: Some(OpenTrack { artist: string_arg_spec(arg), ..track }),
                ..sheet
            }
        }),
{
    lemma_names_differ();
    lemma_split(pre, word, sep, arg, post);
}

/// TRACK ends the track that is being read, which counts if it has a start, and begins another,
/// of which nothing is known.
pub proof fn track_lines(
    sheet: SheetModel,
    pre: Seq<char>,
    word: Seq<char>,
    sep: Seq<char>,
    arg: Seq<char>,
    post: Seq<char>,
)
    requires
        makes_line(pre, word, sep, arg, post),
        uppercase(word) == "TRACK"@,
    ensures
        ({
            let after = sheet.line(line_of(pre, word, sep, arg, post));
            let unknown = OpenTrack { title: Seq::empty(), artist: Seq::empty(), start: None };
            &&& after == SheetModel { tracks: after.tracks, current: Some(unknown), ..sheet }
            &&& after.tracks == finished(sheet)
        }),
{
    lemma_names_differ();
    lemma_split(pre, word, sep, arg, post);
}

/// The tracks that have been read, the last one if it has a start.
pub open spec fn finished(sheet: SheetModel) -> Seq<TrackModel> {
    if sheet.current is Some && sheet.current->0.start is Some {
        sheet.tracks.push(
            TrackModel {
                start: sheet.current->0.start->0,
                title: sheet.current->0.title,
                artist: sheet.current->0.artist,
            },
        )
    } else {
        sheet.tracks
    }
}

/// Three numerals with colons between them are a time of so many minutes, seconds and frames: 75
/// frames to the second and 60 seconds to the minute, and there is none with more of them. The
/// white space around it does not count.
pub proof fn times_are_read(
    pre: Seq<char>,
    a: Seq<char>,
    b: Seq<char>,
    c: Seq<char>,
    post: Seq<char>,
)
    requires
        is_blank(pre),
        is_blank(post),
        is_trimmed(a.push(':') + b.push(':') + c),
        !a.contains(':'),
        !b.contains(':'),
        !c.contains(':'),
    ensures
        cue_time_value(pre + (a.push(':') + b.push(':') + c) + post) == match (
            unsigned(a, u64::MAX as nat),
            unsigned(b, u64::MAX as nat),
            unsigned(c, u64::MAX as nat),
        ) {
            (Some(mm), Some(ss), Some(ff)) => if ss < 60 && ff < 75 {
                Some(mm * 4500 + ss * 75 + ff)
            } else {
                None
            },
            _ => None,
        },
{
    let t = a.push(':') + b.push(':') + c;
    let tail = b.push(':') + c;
    trimming_goes_around(pre, t, post);
    assert(t =~= a.push(':') + tail);
    lemma_colon(a, tail);
    lemma_colon(b, c);
    lemma_no_colon(c);
    assert(t.take(a.len() as int) =~= a);
    assert(t.skip(a.len() as int + 1) =~= tail);
    assert(tail.take(b.len() as int) =~= b);
    assert(tail.skip(b.len() as int + 1) =~= c);
}

/// What has less than two colons, or more, is no time.
pub proof fn other_texts_are_no_times(
    pre: Seq<char>,
    a: Seq<char>,
    b: Seq<char>,
    c: Seq<char>,
    rest: Seq<char>,
    post: Seq<char>,
)
    requires
        is_blank(pre),
        is_blank(post),
        !a.contains(':'),
        !b.contains(':'),
        !c.contains(':'),
    ensures
        is_trimmed(a) ==> cue_time_value(pre + a + post) is None,
        is_trimmed(a.push(':') + b) ==> cue_time_value(pre + (a.push(':') + b) + post) is None,
        is_trimmed(a.push(':') + b.push(':') + c.push(':') + rest) ==> cue_time_value(
            pre + (a.push(':') + b.push(':') + c.push(':') + rest) + post,
        ) is None,
{
    if is_trimmed(a) {
        trimming_goes_around(pre, a, post);
        lemma_no_colon(a);
    }
    let two = a.push(':') + b;
    if is_trimmed(two) {
        trimming_goes_around(pre, two, post);
        lemma_colon(a, b);
        lemma_no_colon(b);
        assert(two.skip(a.len() as int + 1) =~= b);
    }
    let four = a.push(':') + b.push(':') + c.push(':') + rest;
    if is_trimmed(four) {
        let tail = b.push(':') + (c.push(':') + rest);
        trimming_goes_around(pre, four, post);
        assert(four =~= a.push(':') + tail);
        lemma_colon(a, tail);
        lemma_colon(b, c.push(':') + rest);
        lemma_colon(c, rest);
        assert(four.skip(a.len() as int + 1) =~= tail);
        assert(tail.skip(b.len() as int + 1) =~= c.push(':') + rest);
    }
}

proof fn lemma_no_colon(c: Seq<char>)
    requires
        !c.contains(':'),
    ensures
        length_before(c, ':') == c.len(),
{
    characters_are_found(c, ':');
    if length_before(c, ':') < c.len() {
        assert(c.contains(c[length_before(c, ':') as int]));
    }
}

proof fn lemma_colon(a: Seq<char>, b: Seq<char>)
    requires
        !a.contains(':'),
    ensures
        length_before(a.push(':') + b, ':') == a.len(),
{
    let s = a.push(':') + b;
    characters_are_found(s, ':');
    let n = length_before(s, ':') as int;
    assert(s[a.len() as int] == ':');
    if n < a.len() {
        assert(s[n] == a[n]);
        assert(a.contains(a[n]));
    }
}

/// A time is written with 75 frames to the second and 60 seconds to the minute, each with two
/// digits at least.
pub proof fn times_are_written(mm: nat, ss: nat, ff: nat)
    requires
        ss < 60,
        ff < 75,
        mm * 4500 + ss * 75 + ff <= u64::MAX,
    ensures
        cue_time_text(mm * 4500 + ss * 75 + ff) == zero_padded(mm, 2) + ":"@ + zero_padded(ss, 2)
            + ":"@ + zero_padded(ff, 2),
{
    let total = mm * 4500 + ss * 75 + ff;
    assert(total % 75 == ff);
    assert(total / 75 == mm * 60 + ss);
    assert((mm * 60 + ss) % 60 == ss);
    assert((mm * 60 + ss) / 60 == mm);
}

/// A start that takes more than 64 bits is written as the largest that does not.
pub proof fn large_times_are_limited(frames: nat)
    requires
        frames > u64::MAX,
    ensures
        cue_time_text(frames) == cue_time_text(u64::MAX as nat),
{
}

/// INDEX says where the track that is being read starts: 01 in any case, another one only where
/// no start is known yet. What has no number or no time, and an index outside a track, have no
/// effect; what follows the time does not count.
pub proof fn index_lines(
    sheet: SheetModel,
    pre: Seq<char>,
    word: Seq<char>,
    sep: Seq<char>,
    number: Seq<char>,
    gap: Seq<char>,
    time: Seq<char>,
    tail: Seq<char>,
    post: Seq<char>,
)
    requires
        makes_line(pre, word, sep, number + gap + time + tail, post),
        uppercase(word) == "INDEX"@,
        is_word(number),
        number.len() > 0,
        is_blank(gap),
        gap.len() > 0,
        is_word(time),
        time.len() > 0,
        tail.len() > 0 ==> is_white_space(tail[0]),
    ensures
        ({
            let after = sheet.line(line_of(pre, word, sep, number + gap + time + tail, post));
            match (sheet.current, unsigned(number, u32::MAX as nat), cue_time_value(time)) {
                (Some(track), Some(n), Some(start)) => if n == 1 || track.start is None {
                    after == SheetModel {
                        current: Some(OpenTrack { start: Some(start), ..track }),
                        ..sheet
                    }
                } else {
                    after == sheet
                },
                _ => after == sheet,
            }
        }),
{
    let arg = number + gap + time + tail;
    lemma_names_differ();
    lemma_split(pre, word, sep, arg, post);
    lemma_index_parts(number, gap, time, tail);
}

proof fn lemma_index_parts(number: Seq<char>, gap: Seq<char>, time: Seq<char>, tail: Seq<char>)
    requires
        is_word(number),
        number.len() > 0,
        is_blank(gap),
        gap.len() > 0,
        is_word(time),
        time.len() > 0,
        tail.len() > 0 ==> is_white_space(tail[0]),
    ensures
        index_arg(number + gap + time + tail) == match (
            unsigned(number, u32::MAX as nat),
            cue_time_value(time),
        ) {
            (Some(n), Some(start)) => Some((n, start)),
            _ => None,
        },
{
    let arg = number + gap + time + tail;
    let none = Seq::<char>::empty();
    let rest = gap + (time + tail);
    assert(next_word(arg) == (number, rest)) by {
        assert(arg =~= number + rest);
        assert(arg =~= none + arg);
        assert(arg[0] == number[0]);
        trimming_starts(none, arg);
        assert(rest[0] == gap[0]);
        first_word_ends(number, rest);
        assert(arg.take(number.len() as int) =~= number);
        assert(arg.skip(number.len() as int) =~= rest);
    }
    assert(next_word(rest).0 == time) by {
        assert((time + tail)[0] == time[0]);
        trimming_starts(gap, time + tail);
        first_word_ends(time, tail);
        assert((time + tail).take(time.len() as int) =~= time);
    }
}

/// An index without a time has no effect.
pub proof fn index_needs_time(
    sheet: SheetModel,
    pre: Seq<char>,
    word: Seq<char>,
    sep: Seq<char>,
    number: Seq<char>,
    post: Seq<char>,
)
    requires
        makes_line(pre, word, sep, number, post),
        uppercase(word) == "INDEX"@,
        is_word(number),
    ensures
        sheet.line(line_of(pre, word, sep, number, post)) == sheet,
{
    let none = Seq::<char>::empty();
    lemma_names_differ();
    lemma_split(pre, word, sep, number, post);
    assert(number =~= none + number);
    trimming_starts(none, number);
    first_word_ends(number, none);
    assert(number + none =~= number);
    assert(number.skip(number.len() as int) =~= none);
    assert(next_word(number).1 =~= none);
    assert(none + none =~= none);
    trimming_starts(none, none);
    assert(next_word(none).0 =~= none);
    assert(none + none + none =~= none);
    trimming_goes_around(none, none, none);
    lemma_no_colon(none);
    assert(cue_time_value(none) is None);
}

/// Other commands have no effect, and neither have empty lines.
pub proof fn other_lines(
    sheet: SheetModel,
    pre: Seq<char>,
    word: Seq<char>,
    sep: Seq<char>,
    arg: Seq<char>,
    post: Seq<char>,
)
    requires
        makes_line(pre, word, sep, arg, post),
        uppercase(word) != "FILE"@,
        uppercase(word) != "TRACK"@,
        uppercase(word) != "TITLE"@,
        uppercase(word) != "PERFORMER"@,
        uppercase(word) != "INDEX"@,
    ensures
        sheet.line(line_of(pre, word, sep, arg, post)) == sheet,
        sheet.line(pre) == sheet,
{
    lemma_names_differ();
    lemma_split(pre, word, sep, arg, post);
    let none = Seq::<char>::empty();
    assert(pre + none + none =~= pre);
    trimming_goes_around(pre, none, none);
    assert(uppercase(none) =~= none);
    assert(none.take(0) =~= none);
    assert(command_and_rest(pre).0 =~= none);
}

/// A sheet needs a recording and a track with a start. It then has what its lines say: the tracks
/// by ascending start, those that start together in the order they are written.
pub proof fn sheets_say_what_lines_say(text: Seq<char>, start: int)
    ensures
        ({
            let end = SheetModel::blank().lines(text);
            match cue_model(text) {
                Ok(cue) => {
                    &&& end.audio_file == Some(cue.audio_file)
                    &&& cue.album_artist == end.album_artist
                    &&& cue.album_title == end.album_title
                    &&& cue.tracks.len() == finished(end).len() > 0
                    &&& cue.tracks.to_multiset() == finished(end).to_multiset()
                    &&& forall|i: int, j: int|
                        0 <= i <= j < cue.tracks.len() ==> (#[trigger] cue.tracks[i]).start <= (
                        #[trigger] cue.tracks[j]).start
                    &&& with_key(cue.tracks, |t: TrackModel| t.start as int, start) == with_key(
                        finished(end),
                        |t: TrackModel| t.start as int,
                        start,
                    )
                },
                Err(e) => {
                    &&& end.audio_file is None ==> e == "Cue sheet has no FILE command"@
                    &&& end.audio_file is Some ==> finished(end).len() == 0 && e
                        == "Cue sheet has no tracks with an INDEX"@
                },
            }
        }),
{
    let end = SheetModel::blank().lines(text);
    let key = |t: TrackModel| t.start as int;
    assert(end.flushed() == finished(end));
    lemma_sorted_len(finished(end), key);
    sorted_is_stable(finished(end), key);
    if let Ok(cue) = cue_model(text) {
        assert forall|i: int, j: int| 0 <= i <= j < cue.tracks.len() implies (
        #[trigger] cue.tracks[i]).start <= (#[trigger] cue.tracks[j]).start by {
            assert(key(cue.tracks[i]) <= key(cue.tracks[j]));
        }
    }
}

/// Double quotes are made single, and all else stays.
pub proof fn only_quotes_are_escaped(s: Seq<char>, i: int)
    requires
        0 <= i < s.len(),
    ensures
        escaped(s).len() == s.len(),
        s[i] == '"' ==> escaped(s)[i] == '\'',
        s[i] != '"' ==> escaped(s)[i] == s[i],
{
}

/// A title is the placeholder of a track if, but for case and the white space around it, it is
/// "Track" and the number, with a leading zero or without.
pub proof fn placeholders_are_told(pre: Seq<char>, title: Seq<char>, post: Seq<char>, number: nat)
    requires
        is_blank(pre),
        is_blank(post),
        is_trimmed(title),
    ensures
        is_default_title_spec(pre + title + post, number) <==> {
            ||| uppercase(title) == "TRACK "@ + decimal(number)
            ||| number < 10 && uppercase(title) == "TRACK 0"@ + decimal(number)
        },
{
    reveal_strlit("track ");
    reveal_strlit("TRACK ");
    reveal_strlit("TRACK 0");
    trimming_goes_around(pre, title, post);
    let plain = decimal(number);
    let padded = zero_padded(number, 2);
    lemma_decimal(number);
    numeral_reads_back(number, 2);
    lemma_upper_digits(plain);
    lemma_upper_digits(padded);
    assert(uppercase("track "@ + plain) =~= "TRACK "@ + plain);
    assert(uppercase("track "@ + padded) =~= "TRACK "@ + padded);
    if number < 10 {
        assert(plain.len() == 1);
        assert("TRACK "@ + padded =~= "TRACK 0"@ + plain);
    } else {
        assert(plain.len() == decimal(number / 10).len() + 1);
        lemma_decimal(number / 10);
        assert(padded == plain);
    }
}

proof fn lemma_upper_digits(d: Seq<char>)
    requires
        all_digits(d),
    ensures
        uppercase(d) == d,
{
    assert forall|i: int| 0 <= i < d.len() implies #[trigger] uppercase(d)[i] == d[i] by {
        assert(is_digit(d[i]));
    }
    assert(uppercase(d) =~= d);
}

/// The sheet that comments embed is that of the one key that names one; without such a key there
/// is none.
pub proof fn embedded_sheet_is_that_of_its_key(
    comments: Map<Seq<char>, Seq<Seq<char>>>,
    key: Seq<char>,
    cue: Option<CueModel>,
)
    ensures
        comments.dom().contains(key) && is_cue_key(key) && (forall|other: Seq<char>| #[trigger]
            comments.dom().contains(other) && is_cue_key(other) ==> other == key) ==> (
        is_embedded_cue(comments, cue) <==> cue == cue_in(comments[key])),
        (forall|other: Seq<char>| #[trigger]
            comments.dom().contains(other) ==> !is_cue_key(other)) ==> (is_embedded_cue(
            comments,
            cue,
        ) <==> cue is None),
{
}

/// A comment embeds a cue sheet if its key is CUESHEET in any case; the sheet is its first value.
pub proof fn embedded_sheets_are_first_values(key: Seq<char>, values: Seq<Seq<char>>)
    ensures
        is_cue_key(key) <==> uppercase(key) == "CUESHEET"@,
        values.len() == 0 ==> cue_in(values) is None,
        values.len() > 0 ==> match cue_model(values[0]) {
            Ok(cue) => cue_in(values) == Some(cue),
            Err(_) => cue_in(values) is None,
        },
{
    reveal_strlit("CUESHEET");
    assert(uppercase("CUESHEET"@) =~= "CUESHEET"@);
}

/// A sheet is written album first and then track by track: each with its number, its title or the
/// placeholder, its artist or the album's if there is one, and its start.
pub proof fn sheets_are_written_in_turn(
    name: Seq<char>,
    album_artist: Seq<char>,
    album_title: Seq<char>,
    tracks: Seq<TrackModel>,
    track: TrackModel,
)
    ensures
        cue_sheet(name, album_artist, album_title, Seq::empty()) == (if album_artist.len() > 0 {
            "PERFORMER \""@ + escaped(album_artist) + "\"\n"@
        } else {
            Seq::empty()
        }) + (if album_title.len() > 0 {
            "TITLE \""@ + escaped(album_title) + "\"\n"@
        } else {
            Seq::empty()
        }) + ("FILE \""@ + escaped(name) + "\" WAVE\n"@),
        ({
            let number = zero_padded((tracks.len() + 1) as nat, 2);
            let title = if track.title.len() > 0 {
                track.title
            } else {
                "Track "@ + number
            };
            let artist = if track.artist.len() > 0 {
                track.artist
            } else {
                album_artist
            };
            cue_sheet(name, album_artist, album_title, tracks.push(track)) == cue_sheet(
                name,
                album_artist,
                album_title,
                tracks,
            ) + ("  TRACK "@ + number + " AUDIO\n"@) + ("    TITLE \""@ + escaped(title)
                + "\"\n"@) + (if artist.len() > 0 {
                "    PERFORMER \""@ + escaped(artist) + "\"\n"@
            } else {
                Seq::empty()
            }) + ("    INDEX 01 "@ + cue_time_text(track.start) + "\n"@)
        }),
{
    lemma_head_written(name, album_artist, album_title);
    lemma_sheet_grows(name, album_artist, album_title, tracks, track);
    let number = zero_padded((tracks.len() + 1) as nat, 2);
    lemma_track_written(track, (tracks.len() + 1) as nat, album_artist);
    let title = if track.title.len() > 0 {
        track.title
    } else {
        "Track "@ + number
    };
    let artist = if track.artist.len() > 0 {
        track.artist
    } else {
        album_artist
    };
    lemma_five_parts(
        cue_sheet(name, album_artist, album_title, tracks),
        "  TRACK "@ + number + " AUDIO\n"@,
        "    TITLE \""@ + escaped(title) + "\"\n"@,
        if artist.len() > 0 {
            "    PERFORMER \""@ + escaped(artist) + "\"\n"@
        } else {
            Seq::empty()
        },
        "    INDEX 01 "@ + cue_time_text(track.start) + "\n"@,
    );
}

proof fn lemma_five_parts(s: Seq<char>, a: Seq<char>, b: Seq<char>, c: Seq<char>, d: Seq<char>)
    ensures
        s + (a + b + c + d) == s + a + b + c + d,
{
    assert(s + (a + b + c + d) =~= s + a + b + c + d);
}

proof fn lemma_sheet_grows(
    name: Seq<char>,
    album_artist: Seq<char>,
    album_title: Seq<char>,
    tracks: Seq<TrackModel>,
    track: TrackModel,
)
    ensures
        cue_sheet(name, album_artist, album_title, tracks.push(track)) == cue_sheet(
            name,
            album_artist,
            album_title,
            tracks,
        ) + track_text(track, (tracks.len() + 1) as nat, album_artist),
{
    assert(tracks.push(track).drop_last() =~= tracks);
    let head = album_text(name, album_artist, album_title);
    let before = tracks_text(tracks, album_artist);
    let text = track_text(track, (tracks.len() + 1) as nat, album_artist);
    assert(head + (before + text) =~= head + before + text);
}

proof fn lemma_head_written(name: Seq<char>, album_artist: Seq<char>, album_title: Seq<char>)
    ensures
        cue_sheet(name, album_artist, album_title, Seq::empty()) == (if album_artist.len() > 0 {
            "PERFORMER \""@ + escaped(album_artist) + "\"\n"@
        } else {
            Seq::empty()
        }) + (if album_title.len() > 0 {
            "TITLE \""@ + escaped(album_title) + "\"\n"@
        } else {
            Seq::empty()
        }) + ("FILE \""@ + escaped(name) + "\" WAVE\n"@),
{
    reveal_strlit(" \"");
    reveal_strlit("PERFORMER");
    reveal_strlit("PERFORMER \"");
    reveal_strlit("TITLE");
    reveal_strlit("TITLE \"");
    assert("PERFORMER \""@ =~= "PERFORMER"@ + " \""@);
    assert("TITLE \""@ =~= "TITLE"@ + " \""@);
    let none = Seq::<TrackModel>::empty();
    let want = (if album_artist.len() > 0 {
        "PERFORMER \""@ + escaped(album_artist) + "\"\n"@
    } else {
        Seq::empty()
    }) + (if album_title.len() > 0 {
        "TITLE \""@ + escaped(album_title) + "\"\n"@
    } else {
        Seq::empty()
    }) + ("FILE \""@ + escaped(name) + "\" WAVE\n"@);
    assert(tracks_text(none, album_artist) =~= Seq::<char>::empty());
    assert(cue_sheet(name, album_artist, album_title, none) =~= want);
}

proof fn lemma_track_written(track: TrackModel, number: nat, album_artist: Seq<char>)
    ensures
        ({
            let digits = zero_padded(number, 2);
            let title = if track.title.len() > 0 {
                track.title
            } else {
                "Track "@ + digits
            };
            let artist = if track.artist.len() > 0 {
                track.artist
            } else {
                album_artist
            };
            track_text(track, number, album_artist) == ("  TRACK "@ + digits + " AUDIO\n"@) + (
            "    TITLE \""@ + escaped(title) + "\"\n"@) + (if artist.len() > 0 {
                "    PERFORMER \""@ + escaped(artist) + "\"\n"@
            } else {
                Seq::empty()
            }) + ("    INDEX 01 "@ + cue_time_text(track.start) + "\n"@)
        }),
{
    reveal_strlit(" \"");
    reveal_strlit("    TITLE");
    reveal_strlit("    TITLE \"");
    reveal_strlit("    PERFORMER");
    reveal_strlit("    PERFORMER \"");
    assert("    TITLE \""@ =~= "    TITLE"@ + " \""@);
    assert("    PERFORMER \""@ =~= "    PERFORMER"@ + " \""@);
    let digits = zero_padded(number, 2);
    let title = if track.title.len() > 0 {
        track.title
    } else {
        "Track "@ + digits
    };
    let artist = if track.artist.len() > 0 {
        track.artist
    } else {
        album_artist
    };
    let want = ("  TRACK "@ + digits + " AUDIO\n"@) + ("    TITLE \""@ + escaped(title) + "\"\n"@)
        + (if artist.len() > 0 {
        "    PERFORMER \""@ + escaped(artist) + "\"\n"@
    } else {
        Seq::empty()
    }) + ("    INDEX 01 "@ + cue_time_text(track.start) + "\n"@);
    assert(track_text(track, number, album_artist) =~= want);
}

} // verus!

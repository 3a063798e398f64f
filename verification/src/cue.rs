//! Cue sheets: the text that names an album's tracks and where they start.

use vstd::prelude::*;
use vstd::slice::slice_subrange;

use crate::comments::entries;
use crate::comments::{comments_of, texts};
use crate::number::{decimal, unsigned, zero_padded};
use crate::number::{parse_unsigned, push_decimal, push_two_digits};
use crate::sort::{lemma_sorted_map, sort_by_rank, sorted, Ranked};
use crate::text::{
    count_last_word, eq_ignore_case, find_char, find_whitespace, from_chars, to_chars, trim,
    trim_start,
};
use crate::text::{
    first_word_len, last_word_len, length_before, same_ignoring_case, trim_spec, trim_start_spec,
    uppercase,
};

verus! {

/// One track of a cue sheet.
pub struct CueTrack {
    /// Where the track starts, in CD frames (1/75 s).
    pub start: u128,
    pub title: String,
    pub artist: String,
}

/// What a cue sheet says.
pub struct ParsedCue {
    /// File name from the (first) top-level FILE command, as written.
    pub audio_file: String,
    pub album_artist: String,
    pub album_title: String,
    /// By ascending start.
    pub tracks: Vec<CueTrack>,
}

/// The content of a [`CueTrack`].
pub struct TrackModel {
    pub start: nat,
    pub title: Seq<char>,
    pub artist: Seq<char>,
}

/// The content of a [`ParsedCue`].
pub struct CueModel {
    pub audio_file: Seq<char>,
    pub album_artist: Seq<char>,
    pub album_title: Seq<char>,
    pub tracks: Seq<TrackModel>,
}

impl View for CueTrack {
    type V = TrackModel;

    open spec fn view(&self) -> TrackModel {
        TrackModel { start: self.start as nat, title: self.title@, artist: self.artist@ }
    }
}

/// The content of a list of tracks.
pub open spec fn track_models(tracks: Seq<CueTrack>) -> Seq<TrackModel> {
    tracks.map_values(|t: CueTrack| t@)
}

impl View for ParsedCue {
    type V = CueModel;

    open spec fn view(&self) -> CueModel {
        CueModel {
            audio_file: self.audio_file@,
            album_artist: self.album_artist@,
            album_title: self.album_title@,
            tracks: track_models(self.tracks@),
        }
    }
}

impl Ranked for CueTrack {
    open spec fn rank(&self) -> int {
        self.start as int
    }

    fn not_after(&self, other: &Self) -> (r: bool) {
        self.start <= other.start
    }
}

/// The title that stands for an untitled track.
pub open spec fn default_title(number: nat) -> Seq<char> {
    "Track "@ + zero_padded(number, 2)
}

/// Whether a title is the placeholder for the untitled track `number`.
pub open spec fn is_default_title_spec(title: Seq<char>, number: nat) -> bool {
    let t = trim_spec(title);
    ||| same_ignoring_case(t, "track "@ + zero_padded(number, 2))
    ||| same_ignoring_case(t, "track "@ + decimal(number))
}

/// True when a track title is just the placeholder we (and many rippers)
/// write for untitled tracks, e.g. "Track 01" / "Track 1" for track 1.
pub fn is_default_title(title: &str, number: usize) -> (r: bool)
    ensures
        r == is_default_title_spec(title@, number as nat),
{
    let chars = to_chars(title);
    let t = trim(chars.as_slice());
    let mut padded = String::new();
    padded.append("track ");
    push_two_digits(&mut padded, number as u64);
    let mut plain = String::new();
    plain.append("track ");
    push_decimal(&mut plain, number as u64);
    assert(padded@ =~= "track "@ + zero_padded(number as nat, 2));
    assert(plain@ =~= "track "@ + decimal(number as nat));
    let padded_chars = to_chars(padded.as_str());
    let plain_chars = to_chars(plain.as_str());
    eq_ignore_case(t, padded_chars.as_slice()) || eq_ignore_case(t, plain_chars.as_slice())
}

/// The string argument of a cue command: quoted, or the rest of the line.
pub open spec fn string_arg_spec(rest: Seq<char>) -> Seq<char> {
    let r = trim_spec(rest);
    if r.len() > 0 && r[0] == '"' {
        let q = r.drop_first();
        q.take(length_before(q, '"') as int)
    } else {
        r
    }
}

/// The string argument of a cue command: quoted, or the rest of the line.
pub fn string_arg(rest: &[char]) -> (r: String)
    ensures
        r@ == string_arg_spec(rest@),
{
    let arg = trim(rest);
    if arg.len() > 0 && arg[0] == '"' {
        let q = slice_subrange(arg, 1, arg.len());
        assert(q@ =~= arg@.drop_first());
        let n = find_char(q, '"');
        let inner = slice_subrange(q, 0, n);
        assert(inner@ =~= q@.take(n as int));
        from_chars(inner)
    } else {
        from_chars(arg)
    }
}

/// The argument of a FILE command. The file type (WAVE, FLAC, …) trails the name; it is
/// stripped when the name is unquoted.
pub open spec fn file_arg_spec(rest: Seq<char>) -> Seq<char> {
    if rest.len() > 0 && rest[0] == '"' {
        string_arg_spec(rest)
    } else {
        let n = rest.len() - last_word_len(rest);
        if n > 0 {
            trim_spec(rest.take(n - 1))
        } else {
            rest
        }
    }
}

/// The argument of a FILE command.
pub fn file_arg(rest: &[char]) -> (r: String)
    ensures
        r@ == file_arg_spec(rest@),
{
    if rest.len() > 0 && rest[0] == '"' {
        string_arg(rest)
    } else {
        let n: usize = rest.len() - count_last_word(rest);
        if n > 0 {
            let name = slice_subrange(rest, 0, n - 1);
            assert(name@ =~= rest@.take(n - 1));
            from_chars(trim(name))
        } else {
            from_chars(rest)
        }
    }
}

/// "MM:SS:FF" (FF = 1/75 s) in CD frames. MM may exceed 99.
pub open spec fn cue_time_value(s: Seq<char>) -> Option<nat> {
    let t = trim_spec(s);
    let a = length_before(t, ':') as int;
    let after_a = t.skip(a + 1);
    let b = length_before(after_a, ':') as int;
    let after_b = after_a.skip(b + 1);
    let max = u64::MAX as nat;
    if a < t.len() && b < after_a.len() && length_before(after_b, ':') == after_b.len() {
        match (unsigned(t.take(a), max), unsigned(after_a.take(b), max), unsigned(after_b, max)) {
            (Some(mm), Some(ss), Some(ff)) => if ss < 60 && ff < 75 {
                Some((mm * 60 + ss) * 75 + ff)
            } else {
                None
            },
            _ => None,
        }
    } else {
        None
    }
}

/// "MM:SS:FF" (FF = 1/75 s) to CD frames. MM may exceed 99.
pub fn parse_cue_time(s: &[char]) -> (r: Option<u128>)
    ensures
        r is Some <==> cue_time_value(s@) is Some,
        r matches Some(n) ==> cue_time_value(s@) == Some(n as nat),
{
    let t = trim(s);
    let a = find_char(t, ':');
    if a == t.len() {
        return None;
    }
    let minutes = slice_subrange(t, 0, a);
    assert(minutes@ =~= t@.take(a as int));
    let after_a = slice_subrange(t, a + 1, t.len());
    assert(after_a@ =~= t@.skip(a + 1));
    let b = find_char(after_a, ':');
    if b == after_a.len() {
        return None;
    }
    let seconds = slice_subrange(after_a, 0, b);
    assert(seconds@ =~= after_a@.take(b as int));
    let frames = slice_subrange(after_a, b + 1, after_a.len());
    assert(frames@ =~= after_a@.skip(b + 1));
    if find_char(frames, ':') != frames.len() {
        return None;
    }
    match (parse_unsigned(minutes), parse_unsigned(seconds), parse_unsigned(frames)) {
        (Some(mm), Some(ss), Some(ff)) => {
            if ss < 60 && ff < 75 {
                Some((mm as u128 * 60 + ss as u128) * 75 + ff as u128)
            } else {
                None
            }
        },
        _ => None,
    }
}

/// A track whose commands are still being read.
pub struct OpenTrack {
    pub title: Seq<char>,
    pub artist: Seq<char>,
    pub start: Option<nat>,
}

/// What the commands read so far amount to.
pub struct SheetModel {
    pub audio_file: Option<Seq<char>>,
    pub album_artist: Seq<char>,
    pub album_title: Seq<char>,
    pub tracks: Seq<TrackModel>,
    pub current: Option<OpenTrack>,
}

impl SheetModel {
    /// Before the first command.
    pub open spec fn blank() -> SheetModel {
        SheetModel {
            audio_file: None,
            album_artist: Seq::empty(),
            album_title: Seq::empty(),
            tracks: Seq::empty(),
            current: None,
        }
    }

    /// The finished tracks, with the open one if it has a start.
    pub open spec fn flushed(self) -> Seq<TrackModel> {
        match self.current {
            Some(c) => match c.start {
                Some(start) => self.tracks.push(
                    TrackModel { start, title: c.title, artist: c.artist },
                ),
                None => self.tracks,
            },
            None => self.tracks,
        }
    }

    /// FILE: the first one names the audio file.
    pub open spec fn file(self, rest: Seq<char>) -> SheetModel {
        if self.audio_file is None {
            SheetModel { audio_file: Some(file_arg_spec(rest)), ..self }
        } else {
            self
        }
    }

    /// TRACK: the open track ends and a new one begins.
    pub open spec fn track(self) -> SheetModel {
        SheetModel {
            tracks: self.flushed(),
            current: Some(OpenTrack { title: Seq::empty(), artist: Seq::empty(), start: None }),
            ..self
        }
    }

    /// TITLE: of the open track, or of the album before the first one.
    pub open spec fn title(self, rest: Seq<char>) -> SheetModel {
        match self.current {
            Some(c) => SheetModel {
                current: Some(OpenTrack { title: string_arg_spec(rest), ..c }),
                ..self
            },
            None => SheetModel { album_title: string_arg_spec(rest), ..self },
        }
    }

    /// PERFORMER: of the open track, or of the album before the first one.
    pub open spec fn performer(self, rest: Seq<char>) -> SheetModel {
        match self.current {
            Some(c) => SheetModel {
                current: Some(OpenTrack { artist: string_arg_spec(rest), ..c }),
                ..self
            },
            None => SheetModel { album_artist: string_arg_spec(rest), ..self },
        }
    }

    /// INDEX: 01 is the track start; another index counts while there is none.
    pub open spec fn index(self, rest: Seq<char>) -> SheetModel {
        match (self.current, index_arg(rest)) {
            (Some(c), Some((number, time))) => if number == 1 || c.start is None {
                SheetModel { current: Some(OpenTrack { start: Some(time), ..c }), ..self }
            } else {
                self
            },
            _ => self,
        }
    }

    /// What one line does. Commands other than these five have no effect.
    pub open spec fn line(self, line: Seq<char>) -> SheetModel {
        let (command, rest) = command_and_rest(line);
        if command == "FILE"@ {
            self.file(rest)
        } else if command == "TRACK"@ {
            self.track()
        } else if command == "TITLE"@ {
            self.title(rest)
        } else if command == "PERFORMER"@ {
            self.performer(rest)
        } else if command == "INDEX"@ {
            self.index(rest)
        } else {
            self
        }
    }

    /// What the lines of a text do, one after the other.
    pub open spec fn lines(self, text: Seq<char>) -> SheetModel
        decreases text.len(),
    {
        let n = length_before(text, '\n') as int;
        let next = self.line(text.take(n));
        if n < text.len() {
            next.lines(text.skip(n + 1))
        } else {
            next
        }
    }
}

/// The first word of `s`, and what follows it.
pub open spec fn next_word(s: Seq<char>) -> (Seq<char>, Seq<char>) {
    let t = trim_start_spec(s);
    let n = first_word_len(t) as int;
    (t.take(n), t.skip(n))
}

/// The number and the time of an INDEX command.
pub open spec fn index_arg(rest: Seq<char>) -> Option<(nat, nat)> {
    let (number, after) = next_word(rest);
    let (time, _) = next_word(after);
    match (unsigned(number, u32::MAX as nat), cue_time_value(time)) {
        (Some(n), Some(t)) => Some((n, t)),
        _ => None,
    }
}

/// A line's command in upper case, and the rest of the line.
pub open spec fn command_and_rest(line: Seq<char>) -> (Seq<char>, Seq<char>) {
    let l = trim_spec(line);
    let n = first_word_len(l) as int;
    (
        uppercase(l.take(n)),
        if n < l.len() {
            trim_spec(l.skip(n + 1))
        } else {
            Seq::empty()
        },
    )
}

/// The cue sheet that a text holds, or what it lacks.
pub open spec fn cue_model(text: Seq<char>) -> Result<CueModel, Seq<char>> {
    let end = SheetModel::blank().lines(text);
    match end.audio_file {
        None => Err("Cue sheet has no FILE command"@),
        Some(audio_file) => if end.flushed().len() == 0 {
            Err("Cue sheet has no tracks with an INDEX"@)
        } else {
            Ok(
                CueModel {
                    audio_file,
                    album_artist: end.album_artist,
                    album_title: end.album_title,
                    tracks: sorted(end.flushed(), |t: TrackModel| t.start as int),
                },
            )
        },
    }
}

struct Current {
    title: String,
    artist: String,
    start: Option<u128>,
}

struct Sheet {
    audio_file: Option<String>,
    album_artist: String,
    album_title: String,
    tracks: Vec<CueTrack>,
    current: Option<Current>,
}

impl View for Current {
    type V = OpenTrack;

    closed spec fn view(&self) -> OpenTrack {
        OpenTrack {
            title: self.title@,
            artist: self.artist@,
            start: match self.start {
                Some(n) => Some(n as nat),
                None => None,
            },
        }
    }
}

impl View for Sheet {
    type V = SheetModel;

    closed spec fn view(&self) -> SheetModel {
        SheetModel {
            audio_file: match self.audio_file {
                Some(s) => Some(s@),
                None => None,
            },
            album_artist: self.album_artist@,
            album_title: self.album_title@,
            tracks: track_models(self.tracks@),
            current: match self.current {
                Some(c) => Some(c@),
                None => None,
            },
        }
    }
}

impl Sheet {
    fn blank() -> (r: Sheet)
        ensures
            r@ == SheetModel::blank(),
    {
        let r = Sheet {
            audio_file: None,
            album_artist: String::new(),
            album_title: String::new(),
            tracks: Vec::new(),
            current: None,
        };
        assert(track_models(r.tracks@) =~= Seq::<TrackModel>::empty());
        r
    }

    fn flush(&mut self)
        ensures
            final(self)@ == (SheetModel { tracks: old(self)@.flushed(), current: None, ..old(self)@ }),
    {
        if let Some(cur) = self.current.take() {
            if let Some(start) = cur.start {
                let ghost before = self.tracks@;
                self.tracks.push(CueTrack { start, title: cur.title, artist: cur.artist });
                assert(track_models(self.tracks@) =~= track_models(before).push(self.tracks@.last()@));
            }
        }
    }

    fn file(&mut self, rest: &[char])
        ensures
            final(self)@ == old(self)@.file(rest@),
    {
        if self.audio_file.is_none() {
            self.audio_file = Some(file_arg(rest));
        }
    }

    fn track(&mut self)
        ensures
            final(self)@ == old(self)@.track(),
    {
        self.flush();
        self.current = Some(Current { title: String::new(), artist: String::new(), start: None });
    }

    fn title(&mut self, rest: &[char])
        ensures
            final(self)@ == old(self)@.title(rest@),
    {
        match self.current.take() {
            Some(cur) => {
                self.current = Some(
                    Current { title: string_arg(rest), artist: cur.artist, start: cur.start },
                );
            },
            None => {
                self.album_title = string_arg(rest);
            },
        }
    }

    fn performer(&mut self, rest: &[char])
        ensures
            final(self)@ == old(self)@.performer(rest@),
    {
        match self.current.take() {
            Some(cur) => {
                self.current = Some(
                    Current { title: cur.title, artist: string_arg(rest), start: cur.start },
                );
            },
            None => {
                self.album_artist = string_arg(rest);
            },
        }
    }

    fn index(&mut self, rest: &[char])
        ensures
            final(self)@ == old(self)@.index(rest@),
    {
        if let Some(cur) = self.current.take() {
            let mut start = cur.start;
            let (number, after) = split_word(rest);
            let (time, _) = split_word(after);
            if let (Some(number), Some(time)) = (parse_unsigned(number), parse_cue_time(time)) {
                if number <= u32::MAX as u64 && (number == 1 || start.is_none()) {
                    start = Some(time);
                }
            }
            self.current = Some(Current { title: cur.title, artist: cur.artist, start });
        }
    }

    fn line(&mut self, line: &[char])
        ensures
            final(self)@ == old(self)@.line(line@),
    {
        proof {
            lemma_command_names();
        }
        let l = trim(line);
        let n = find_whitespace(l);
        let command = slice_subrange(l, 0, n);
        assert(command@ =~= l@.take(n as int));
        let empty: Vec<char> = Vec::new();
        let rest = if n < l.len() {
            let tail = slice_subrange(l, n + 1, l.len());
            assert(tail@ =~= l@.skip(n + 1));
            trim(tail)
        } else {
            empty.as_slice()
        };
        assert(command_and_rest(line@) == (uppercase(command@), rest@));
        if is_command(command, "FILE") {
            self.file(rest);
        } else if is_command(command, "TRACK") {
            self.track();
        } else if is_command(command, "TITLE") {
            self.title(rest);
        } else if is_command(command, "PERFORMER") {
            self.performer(rest);
        } else if is_command(command, "INDEX") {
            self.index(rest);
        }
    }

    fn lines(&mut self, text: &[char])
        ensures
            final(self)@ == old(self)@.lines(text@),
    {
        let mut rest = text;
        let ghost start = self@;
        loop
            invariant
                self@.lines(rest@) == start.lines(text@),
            ensures
                self@ == start.lines(text@),
            decreases rest@.len(),
        {
            let n = find_char(rest, '\n');
            let line = slice_subrange(rest, 0, n);
            assert(line@ =~= rest@.take(n as int));
            self.line(line);
            if n == rest.len() {
                break;
            }
            let tail = slice_subrange(rest, n + 1, rest.len());
            assert(tail@ =~= rest@.skip(n + 1));
            rest = tail;
        }
    }
}

/// The first word of `s`, and what follows it.
fn split_word(s: &[char]) -> (r: (&[char], &[char]))
    ensures
        (r.0@, r.1@) == next_word(s@),
{
    let t = trim_start(s);
    let n = find_whitespace(t);
    let word = slice_subrange(t, 0, n);
    let after = slice_subrange(t, n, t.len());
    assert(word@ =~= t@.take(n as int));
    assert(after@ =~= t@.skip(n as int));
    (word, after)
}

proof fn lemma_command_names()
    ensures
        uppercase("FILE"@) == "FILE"@,
        uppercase("TRACK"@) == "TRACK"@,
        uppercase("TITLE"@) == "TITLE"@,
        uppercase("PERFORMER"@) == "PERFORMER"@,
        uppercase("INDEX"@) == "INDEX"@,
{
    reveal_strlit("FILE");
    reveal_strlit("TRACK");
    reveal_strlit("TITLE");
    reveal_strlit("PERFORMER");
    reveal_strlit("INDEX");
    assert(uppercase("FILE"@) =~= "FILE"@);
    assert(uppercase("TRACK"@) =~= "TRACK"@);
    assert(uppercase("TITLE"@) =~= "TITLE"@);
    assert(uppercase("PERFORMER"@) =~= "PERFORMER"@);
    assert(uppercase("INDEX"@) =~= "INDEX"@);
}

fn is_command(word: &[char], name: &str) -> (r: bool)
    requires
        uppercase(name@) == name@,
    ensures
        r == (uppercase(word@) == name@),
{
    let chars = to_chars(name);
    eq_ignore_case(word, chars.as_slice())
}

/// Reads a cue sheet. Tracks without an INDEX are left out; the others come by ascending start.
pub fn parse_cue(text: &str) -> (r: Result<ParsedCue, String>)
    ensures
        match r {
            Ok(cue) => cue_model(text@) == Ok::<CueModel, Seq<char>>(cue@),
            Err(e) => cue_model(text@) == Err::<CueModel, Seq<char>>(e@),
        },
{
    let chars = to_chars(text);
    let mut sheet = Sheet::blank();
    sheet.lines(chars.as_slice());
    sheet.flush();
    let Sheet { audio_file, album_artist, album_title, mut tracks, current: _ } = sheet;
    match audio_file {
        None => Err("Cue sheet has no FILE command".to_string()),
        Some(audio_file) => {
            if tracks.len() == 0 {
                return Err("Cue sheet has no tracks with an INDEX".to_string());
            }
            let ghost unsorted = tracks@;
            sort_by_rank(&mut tracks);
            proof {
                let rank = |t: CueTrack| t.rank();
                let start = |t: TrackModel| t.start as int;
                let model = |t: CueTrack| t@;
                lemma_sorted_map(unsorted, model, rank, start);
            }
            Ok(ParsedCue { audio_file, album_artist, album_title, tracks })
        },
    }
}

/// Whether a comment's key names an embedded cue sheet. Keys are compared ignoring ASCII case.
pub open spec fn is_cue_key(key: Seq<char>) -> bool {
    same_ignoring_case(key, "CUESHEET"@)
}

/// The cue sheet in the values of a comment: the first value, if it is one.
pub open spec fn cue_in(values: Seq<Seq<char>>) -> Option<CueModel> {
    if values.len() == 0 {
        None
    } else {
        match cue_model(values[0]) {
            Ok(cue) => Some(cue),
            Err(_) => None,
        }
    }
}

/// The content of a cue sheet that may be missing.
pub open spec fn cue_view(cue: Option<ParsedCue>) -> Option<CueModel> {
    match cue {
        Some(cue) => Some(cue@),
        None => None,
    }
}

/// Whether `cue` is what comments say of a cue sheet: that of a key that names one, or none
/// where no key does.
pub open spec fn is_embedded_cue(
    comments: Map<Seq<char>, Seq<Seq<char>>>,
    cue: Option<CueModel>,
) -> bool {
    ||| cue is None && forall|key: Seq<char>| #[trigger]
        comments.dom().contains(key) ==> !is_cue_key(key)
    ||| exists|key: Seq<char>| #[trigger]
        comments.dom().contains(key) && is_cue_key(key) && cue == cue_in(comments[key])
}

/// Reads a cue sheet embedded in a FLAC file as a CUESHEET vorbis comment
/// (the convention we export, also used by foobar2000 and friends).
/// Returns `None` when there is no such comment, or the comment does not parse as a
/// cue sheet. Where several keys name a cue sheet, in different case, it reads one of them.
pub fn read_embedded_cue(block: &metaflac::block::VorbisComment) -> (r: Option<ParsedCue>)
    ensures
        is_embedded_cue(comments_of(*block), cue_view(r)),
{
    let name = to_chars("CUESHEET");
    let found = entries(block);
    let ghost comments = comments_of(*block);
    let mut i: usize = 0;
    while i < found.len()
        invariant
            i <= found@.len(),
            name@ == "CUESHEET"@,
            comments == comments_of(*block),
            forall|k: int|
                0 <= k < found@.len() ==> comments.contains_pair(
                    (#[trigger] found@[k]).0@,
                    texts(found@[k].1@),
                ),
            forall|k: int| 0 <= k < i ==> !is_cue_key((#[trigger] found@[k]).0@),
        decreases found@.len() - i,
    {
        let key = to_chars(found[i].0.as_str());
        if eq_ignore_case(key.as_slice(), name.as_slice()) {
            let ghost hit = found@[i as int].0@;
            let values = &found[i].1;
            assert(comments.dom().contains(hit) && is_cue_key(hit));
            assert(comments[hit] == texts(values@));
            if values.len() == 0 {
                return None;
            }
            assert(comments[hit][0] == values@[0]@);
            return match parse_cue(values[0].as_str()) {
                Ok(cue) => Some(cue),
                Err(_) => None,
            };
        }
        i = i + 1;
    }
    assert forall|key: Seq<char>| #[trigger] comments.dom().contains(key) implies !is_cue_key(
        key,
    ) by {
        let k = choose|k: int| 0 <= k < found@.len() && (#[trigger] found@[k]).0@ == key;
        assert(!is_cue_key(found@[k].0@));
    }
    None
}

/// `s` with its double quotes replaced by single ones.
pub open spec fn escaped(s: Seq<char>) -> Seq<char> {
    s.map_values(|c: char| if c == '"' { '\'' } else { c })
}

/// `s` with its double quotes replaced by single ones.
pub fn escape(s: &str) -> (r: String)
    ensures
        r@ == escaped(s@),
{
    let chars = to_chars(s);
    let mut out = String::new();
    let mut i: usize = 0;
    while i < chars.len()
        invariant
            i <= chars.len(),
            chars@ == s@,
            out@ == escaped(s@).take(i as int),
        decreases chars.len() - i,
    {
        let c = chars[i];
        out.push(if c == '"' { '\'' } else { c });
        i = i + 1;
        assert(out@ =~= escaped(s@).take(i as int));
    }
    assert(escaped(s@).take(s@.len() as int) =~= escaped(s@));
    out
}

/// CUE time format: MM:SS:FF where FF is 1/75 of a second (CD frames). The frames are
/// counted in 64 bits; a larger number is written as the largest of these.
pub open spec fn cue_time_text(frames: nat) -> Seq<char> {
    let total = if frames <= u64::MAX {
        frames
    } else {
        u64::MAX as nat
    };
    zero_padded(total / 75 / 60, 2) + ":"@ + zero_padded(total / 75 % 60, 2) + ":"@ + zero_padded(
        total % 75,
        2,
    )
}

/// CUE time format: MM:SS:FF where FF is 1/75 of a second (CD frames).
pub fn cue_time(frames: u128) -> (r: String)
    ensures
        r@ == cue_time_text(frames as nat),
{
    let total: u64 = if frames <= u64::MAX as u128 {
        frames as u64
    } else {
        u64::MAX
    };
    let ff: u64 = total % 75;
    let total_secs: u64 = total / 75;
    let ss: u64 = total_secs % 60;
    let mm: u64 = total_secs / 60;
    let mut out = String::new();
    push_two_digits(&mut out, mm);
    out.append(":");
    push_two_digits(&mut out, ss);
    out.append(":");
    push_two_digits(&mut out, ff);
    assert(out@ =~= cue_time_text(frames as nat));
    out
}

/// A line of a cue sheet: a command and its quoted argument.
pub open spec fn quoted_line(command: Seq<char>, arg: Seq<char>) -> Seq<char> {
    command + " \""@ + escaped(arg) + "\"\n"@
}

/// The title a track is written with: its own, or the placeholder.
pub open spec fn written_title(title: Seq<char>, number: nat) -> Seq<char> {
    if title.len() == 0 {
        default_title(number)
    } else {
        title
    }
}

/// The artist a track is written with: its own, or the album's.
pub open spec fn written_artist(artist: Seq<char>, album_artist: Seq<char>) -> Seq<char> {
    if artist.len() == 0 {
        album_artist
    } else {
        artist
    }
}

/// The lines of track `number`.
pub open spec fn track_text(track: TrackModel, number: nat, album_artist: Seq<char>) -> Seq<char> {
    let artist = written_artist(track.artist, album_artist);
    "  TRACK "@ + zero_padded(number, 2) + " AUDIO\n"@ + quoted_line(
        "    TITLE"@,
        written_title(track.title, number),
    ) + (if artist.len() > 0 {
        quoted_line("    PERFORMER"@, artist)
    } else {
        Seq::empty()
    }) + "    INDEX 01 "@ + cue_time_text(track.start) + "\n"@
}

/// The lines of all tracks, numbered from 1.
pub open spec fn tracks_text(tracks: Seq<TrackModel>, album_artist: Seq<char>) -> Seq<char>
    decreases tracks.len(),
{
    if tracks.len() == 0 {
        Seq::empty()
    } else {
        tracks_text(tracks.drop_last(), album_artist) + track_text(
            tracks.last(),
            tracks.len(),
            album_artist,
        )
    }
}

/// The lines before the tracks.
pub open spec fn album_text(
    audio_file_name: Seq<char>,
    album_artist: Seq<char>,
    album_title: Seq<char>,
) -> Seq<char> {
    (if album_artist.len() > 0 {
        quoted_line("PERFORMER"@, album_artist)
    } else {
        Seq::empty()
    }) + (if album_title.len() > 0 {
        quoted_line("TITLE"@, album_title)
    } else {
        Seq::empty()
    }) + "FILE \""@ + escaped(audio_file_name) + "\" WAVE\n"@
}

/// The text of a cue sheet.
pub open spec fn cue_sheet(
    audio_file_name: Seq<char>,
    album_artist: Seq<char>,
    album_title: Seq<char>,
    tracks: Seq<TrackModel>,
) -> Seq<char> {
    album_text(audio_file_name, album_artist, album_title) + tracks_text(tracks, album_artist)
}

fn push_quoted_line(out: &mut String, command: &str, arg: &str)
    ensures
        final(out)@ == old(out)@ + quoted_line(command@, arg@),
{
    out.append(command);
    out.append(" \"");
    let quoted = escape(arg);
    out.append(quoted.as_str());
    out.append("\"\n");
    assert(out@ =~= old(out)@ + quoted_line(command@, arg@));
}

/// The title a track is written with: its own, or the placeholder.
pub fn title_or_default(title: &str, number: usize) -> (r: String)
    ensures
        r@ == written_title(title@, number as nat),
{
    if title.is_empty() {
        let mut r = String::new();
        r.append("Track ");
        push_two_digits(&mut r, number as u64);
        assert(r@ =~= default_title(number as nat));
        r
    } else {
        title.to_owned()
    }
}

fn push_track(out: &mut String, track: &CueTrack, number: usize, album_artist: &str)
    ensures
        final(out)@ == old(out)@ + track_text(track@, number as nat, album_artist@),
{
    out.append("  TRACK ");
    push_two_digits(out, number as u64);
    out.append(" AUDIO\n");
    let title = title_or_default(track.title.as_str(), number);
    push_quoted_line(out, "    TITLE", title.as_str());
    let performer = if track.artist.as_str().is_empty() {
        album_artist
    } else {
        track.artist.as_str()
    };
    if !performer.is_empty() {
        push_quoted_line(out, "    PERFORMER", performer);
    }
    out.append("    INDEX 01 ");
    let time = cue_time(track.start);
    out.append(time.as_str());
    out.append("\n");
    assert(out@ =~= old(out)@ + track_text(track@, number as nat, album_artist@));
}

/// Writes a cue sheet.
pub fn cue_text(
    audio_file_name: &str,
    album_artist: &str,
    album_title: &str,
    tracks: &[CueTrack],
) -> (r: String)
    ensures
        r@ == cue_sheet(audio_file_name@, album_artist@, album_title@, track_models(tracks@)),
{
    let mut out = String::new();
    if !album_artist.is_empty() {
        push_quoted_line(&mut out, "PERFORMER", album_artist);
    }
    if !album_title.is_empty() {
        push_quoted_line(&mut out, "TITLE", album_title);
    }
    out.append("FILE \"");
    let file = escape(audio_file_name);
    out.append(file.as_str());
    out.append("\" WAVE\n");
    let ghost head = album_text(audio_file_name@, album_artist@, album_title@);
    assert(out@ =~= head);
    let ghost models = track_models(tracks@);
    let mut i: usize = 0;
    assert(head + tracks_text(models.take(0), album_artist@) =~= head);
    while i < tracks.len()
        invariant
            i <= tracks.len(),
            models == track_models(tracks@),
            out@ == head + tracks_text(models.take(i as int), album_artist@),
        decreases tracks.len() - i,
    {
        push_track(&mut out, &tracks[i], i + 1, album_artist);
        i = i + 1;
        assert(models.take(i as int).drop_last() =~= models.take(i - 1));
        assert(out@ =~= head + tracks_text(models.take(i as int), album_artist@));
    }
    assert(models.take(models.len() as int) =~= models);
    out
}

} // verus!

//! The editor: its state, what can happen to it, and what it asks for in return.

use std::sync::Arc;

use vstd::prelude::*;

use crate::audio::time_text;
use crate::audio::{format_time, AudioData};
use crate::cue::{cue_sheet, cue_view, track_models, CueModel, TrackModel};
use crate::cue::{cue_text, CueTrack, ParsedCue};
use crate::detect::{
    as_frames, lemma_starts_ascend, track_starts, window_count_spec, window_spec,
};
use crate::detect::{detect_track_starts, DetectParams};
use crate::flac_export::{export_models, ExportModel, ExportTrack};
use crate::markers::{
    ascend, blank_marker, blank_markers, distinct_ids, in_order, index_of, lemma_in_order_ascends,
    lemma_in_order_ids, lemma_index_of, lemma_without, lemma_without_ascends, loaded_markers,
    marker_models, next_start, positions_ascend, start_upto, tracks_of, without, MarkerModel,
};
use crate::markers::{
    export_list, find_marker, find_next_start, find_start_upto, markers_from_cue,
    markers_from_starts, new_marker, remove_marker, sort_markers, Marker,
};
use crate::number::decimal;
use crate::number::push_decimal;
use crate::text::same_ignoring_case;
use crate::text::{eq_chars, eq_ignore_case, prefixed, to_chars};

verus! {

/// A time: whole seconds, and milliseconds.
#[derive(Clone, Copy)]
pub struct Time {
    pub secs: u64,
    pub ms: u64,
}

impl Time {
    /// The time as text.
    pub open spec fn text(self) -> Seq<char> {
        time_text(self.secs as nat, self.ms as nat)
    }
}

/// What was chosen to be opened.
pub enum Choice {
    Cancelled,
    /// A recording, shown under this name.
    Audio(String),
    /// A cue sheet: the recording it names, shown under this name, or what is wrong with it.
    Cue(Result<String, String>),
}

/// A recording that was read, and what goes with it.
pub struct Loaded {
    pub audio: Arc<AudioData>,
    /// The frames at which the tracks of the pending cue sheet start.
    pub positions: Vec<usize>,
    pub duration: Time,
}

/// Where a recording with its cue sheet is to be written.
pub enum Target {
    Cancelled,
    /// The file that is loaded.
    LoadedFile,
    /// Another file.
    OtherFile,
}

/// What can happen to the editor.
pub enum Message {
    OpenFile,
    FileChosen(Choice),
    Loaded(Result<Loaded, String>),
    /// Find the track starts. `quiet` says which analysis windows lie below the threshold; the
    /// threshold and the minimum gap come as text too.
    Detect { quiet: Vec<bool>, params: DetectParams, threshold: String, min_gap: String },
    SetPlayhead(usize),
    PlayPause,
    Stop,
    /// Move the playhead to this frame, a fraction of the visible waveform span away,
    /// so arrow-key steps scale with the zoom level. It stays inside the recording.
    SeekVisible(usize),
    /// So many frames have passed since playback started.
    Tick(usize),
    NextTrack,
    PrevTrack,
    /// The playhead is at this time.
    AddMarkerAtPlayhead(Time),
    /// A frame, which is at this time.
    AddMarkerAt(usize, Time),
    MoveMarker(u64, usize),
    DeleteMarker(u64),
    MarkerTitle(u64, String),
    MarkerArtist(u64, String),
    GotoMarker(u64),
    AlbumTitle(String),
    AlbumArtist(String),
    SetReadOnly(bool),
    ExportCue,
    /// A path was chosen; the markers lie at these CD frames.
    CuePathChosen(Option<Vec<u64>>),
    /// The cue sheet of so many tracks was written to the file of this name, or not.
    CueWritten(usize, Result<String, String>),
    ExportFlac,
    FlacDirChosen(bool),
    /// So many files were written, or not.
    FlacDone(Result<usize, String>),
    ExportFlacCue,
    FlacCuePathChosen(Target),
    /// The file of this name was written, or not.
    FlacCueDone(Result<String, String>),
    DeviceSelected(String),
}

/// What the editor asks for.
pub enum Effect {
    /// Ask for a file to open.
    PickFile,
    /// Read the chosen recording.
    Load,
    /// Ask where to write the cue sheet.
    PickCuePath,
    /// Write a cue sheet of so many tracks.
    WriteCue { text: String, count: usize },
    /// Ask for a folder to write the tracks to.
    PickFlacDir,
    /// Write the tracks, one file each.
    ExportTracks { tracks: Vec<ExportTrack>, album_artist: String, album_title: String },
    /// Ask where to write the recording with its cue sheet.
    PickFlacCuePath,
    /// Write the recording with its cue sheet.
    ExportSingle { tracks: Vec<ExportTrack>, album_artist: String, album_title: String },
    /// Play from this frame on.
    Play { start: usize },
    /// Stop playing.
    StopPlayer,
    /// Play on the device of this name, or on the default one.
    SetDevice(Option<String>),
    /// Show the whole recording.
    ZoomFit,
    /// Draw the waveform anew.
    Redraw,
    /// Bring the playhead into view if it is not.
    ShowPlayhead,
    /// Scroll along with the playhead if it went out of view.
    ShiftView,
}

/// The content of an [`Effect`].
pub enum EffectModel {
    PickFile,
    Load,
    PickCuePath,
    WriteCue { text: Seq<char>, count: nat },
    PickFlacDir,
    ExportTracks { tracks: Seq<ExportModel>, album_artist: Seq<char>, album_title: Seq<char> },
    PickFlacCuePath,
    ExportSingle { tracks: Seq<ExportModel>, album_artist: Seq<char>, album_title: Seq<char> },
    Play { start: nat },
    StopPlayer,
    SetDevice(Option<Seq<char>>),
    ZoomFit,
    Redraw,
    ShowPlayhead,
    ShiftView,
}

impl View for Effect {
    type V = EffectModel;

    open spec fn view(&self) -> EffectModel {
        match *self {
            Effect::PickFile => EffectModel::PickFile,
            Effect::Load => EffectModel::Load,
            Effect::PickCuePath => EffectModel::PickCuePath,
            Effect::WriteCue { text, count } => EffectModel::WriteCue {
                text: text@,
                count: count as nat,
            },
            Effect::PickFlacDir => EffectModel::PickFlacDir,
            Effect::ExportTracks { tracks, album_artist, album_title } => EffectModel::ExportTracks {
                tracks: export_models(tracks@),
                album_artist: album_artist@,
                album_title: album_title@,
            },
            Effect::PickFlacCuePath => EffectModel::PickFlacCuePath,
            Effect::ExportSingle { tracks, album_artist, album_title } => EffectModel::ExportSingle {
                tracks: export_models(tracks@),
                album_artist: album_artist@,
                album_title: album_title@,
            },
            Effect::Play { start } => EffectModel::Play { start: start as nat },
            Effect::StopPlayer => EffectModel::StopPlayer,
            Effect::SetDevice(name) => EffectModel::SetDevice(
                match name {
                    Some(name) => Some(name@),
                    None => None,
                },
            ),
            Effect::ZoomFit => EffectModel::ZoomFit,
            Effect::Redraw => EffectModel::Redraw,
            Effect::ShowPlayhead => EffectModel::ShowPlayhead,
            Effect::ShiftView => EffectModel::ShiftView,
        }
    }
}

/// The content of a list of effects.
pub open spec fn effect_models(effects: Seq<Effect>) -> Seq<EffectModel> {
    effects.map_values(|e: Effect| e@)
}

/// The state of the editor.
pub struct App {
    pub audio: Option<Arc<AudioData>>,
    pub loading: bool,
    pub exporting: bool,
    pub markers: Vec<Marker>,
    pub next_id: u64,
    pub album_title: String,
    pub album_artist: String,
    /// Cue data waiting for its referenced audio file to finish loading.
    pub pending_cue: Option<ParsedCue>,
    pub playhead: usize,
    pub playing: bool,
    /// The frame at which playback started.
    pub play_anchor: Option<usize>,
    pub devices: Vec<String>,
    pub selected_device: String,
    /// Whether edits are refused.
    pub read_only: bool,
    pub status: String,
}

/// The content of an [`App`].
pub struct AppModel {
    pub audio: Option<AudioData>,
    pub loading: bool,
    pub exporting: bool,
    pub markers: Seq<MarkerModel>,
    pub next_id: nat,
    pub album_title: Seq<char>,
    pub album_artist: Seq<char>,
    pub pending_cue: Option<CueModel>,
    pub playhead: nat,
    pub playing: bool,
    pub play_anchor: Option<nat>,
    pub devices: Seq<Seq<char>>,
    pub selected_device: Seq<char>,
    pub read_only: bool,
    pub status: Seq<char>,
}

/// The content of a list of names.
pub open spec fn names(devices: Seq<String>) -> Seq<Seq<char>> {
    devices.map_values(|s: String| s@)
}

impl View for App {
    type V = AppModel;

    open spec fn view(&self) -> AppModel {
        AppModel {
            audio: match self.audio {
                Some(audio) => Some(*audio),
                None => None,
            },
            loading: self.loading,
            exporting: self.exporting,
            markers: marker_models(self.markers@),
            next_id: self.next_id as nat,
            album_title: self.album_title@,
            album_artist: self.album_artist@,
            pending_cue: cue_view(self.pending_cue),
            playhead: self.playhead as nat,
            playing: self.playing,
            play_anchor: match self.play_anchor {
                Some(frame) => Some(frame as nat),
                None => None,
            },
            devices: names(self.devices@),
            selected_device: self.selected_device@,
            read_only: self.read_only,
            status: self.status@,
        }
    }
}

/// What the user is told of a loaded recording.
pub open spec fn loaded_text(audio: AudioData, duration: Time) -> Seq<char> {
    "Loaded "@ + audio.name@ + " — "@ + decimal(audio.channels as nat) + " ch, "@ + decimal(
        audio.sample_rate as nat,
    ) + " Hz, "@ + decimal(audio.bits_per_sample as nat) + " bit, "@ + duration.text()
}

/// What the user is told of a cue sheet of so many tracks.
pub open spec fn cue_note(tracks: nat) -> Seq<char> {
    " — "@ + decimal(tracks) + " tracks from cue sheet"@
}

/// What the user is told of detected tracks.
pub open spec fn detected_text(tracks: nat, threshold: Seq<char>, min_gap: Seq<char>) -> Seq<
    char,
> {
    "Detected "@ + decimal(tracks) + " tracks (threshold "@ + threshold + " dB, min gap "@
        + min_gap + " s). Existing markers were replaced."@
}

/// How far into a track going back leads to its start, in seconds.
pub const RESTART_SECS: u64 = 3;

/// The cue sheet's view of markers that lie at these CD frames.
pub open spec fn sheet_tracks(markers: Seq<MarkerModel>, starts: Seq<u64>) -> Seq<TrackModel> {
    Seq::new(
        markers.len(),
        |i: int|
            TrackModel {
                start: starts[i] as nat,
                title: markers[i].title,
                artist: markers[i].artist,
            },
    )
}

/// Whether a message edits the tracks or the album.
pub open spec fn is_edit(message: Message) -> bool {
    match message {
        Message::Detect { .. } => true,
        Message::AddMarkerAtPlayhead(_) => true,
        Message::AddMarkerAt(_, _) => true,
        Message::MoveMarker(_, _) => true,
        Message::DeleteMarker(_) => true,
        Message::MarkerTitle(_, _) => true,
        Message::MarkerArtist(_, _) => true,
        Message::AlbumTitle(_) => true,
        Message::AlbumArtist(_) => true,
        _ => false,
    }
}

/// The state and the effects after a message.
pub type Outcome = (AppModel, Seq<EffectModel>);

/// Where the recording that a cue sheet names was found.
pub enum Location {
    /// Under the path in the sheet.
    AsWritten,
    /// Under the file name in the sheet, beside the sheet.
    BesideSheet,
}

/// What the controls show, and which of them can be used.
pub struct Controls {
    pub file_label: String,
    pub play_label: String,
    /// What stands in place of a waveform.
    pub placeholder: String,
    pub has_audio: bool,
    pub can_export_cue: bool,
    pub can_export_flac: bool,
}

impl AppModel {
    /// An empty editor, with these devices to play on besides the default one.
    pub open spec fn initial(output_devices: Seq<Seq<char>>) -> AppModel {
        AppModel {
            audio: None,
            loading: false,
            exporting: false,
            markers: Seq::empty(),
            next_id: 0,
            album_title: Seq::empty(),
            album_artist: Seq::empty(),
            pending_cue: None,
            playhead: 0,
            playing: false,
            play_anchor: None,
            devices: seq!["System default"@] + output_devices,
            selected_device: "System default"@,
            read_only: false,
            status: "Open a WAV or FLAC file to get started."@,
        }
    }

    /// The number of frames of the recording, none without one.
    pub open spec fn frames(self) -> nat {
        match self.audio {
            Some(audio) => audio.frames_spec(),
            None => 0,
        }
    }

    /// A frame, or the end of the recording where it lies behind it.
    pub open spec fn limited(self, frame: nat) -> nat {
        if frame < self.frames() {
            frame
        } else {
            self.frames()
        }
    }

    /// What holds of the editor at any time: the recording has its peaks, markers can be told
    /// apart and are in the order of their positions, and playback goes on if and only if it
    /// started at some frame of the recording.
    pub open spec fn inv(self) -> bool {
        &&& self.audio matches Some(audio) ==> audio.wf()
        &&& distinct_ids(self.markers, self.next_id)
        &&& ascend(self.markers)
        &&& self.plays_in_order()
    }

    /// Whether playback goes on if and only if it started at some frame of the recording.
    pub open spec fn plays_in_order(self) -> bool {
        &&& self.playing <==> self.play_anchor is Some
        &&& self.play_anchor matches Some(frame) ==> self.audio is Some && frame <= self.frames()
    }

    /// Nothing happens.
    pub open spec fn unchanged(self) -> Outcome {
        (self, Seq::empty())
    }

    /// The user is told something.
    pub open spec fn telling(self, status: Seq<char>) -> AppModel {
        AppModel { status, ..self }
    }

    /// Playback has stopped.
    pub open spec fn stopped(self) -> AppModel {
        AppModel { playing: false, play_anchor: None, ..self }
    }

    /// Where playback starts: at the playhead, but not behind the end.
    pub open spec fn start(self) -> nat {
        self.limited(self.playhead)
    }

    /// Playback has started anew at the playhead, if there is a recording.
    pub open spec fn started(self) -> Outcome {
        if self.audio is Some {
            (
                AppModel { playing: true, play_anchor: Some(self.start()), ..self },
                seq![EffectModel::Play { start: self.start() }],
            )
        } else {
            self.unchanged()
        }
    }

    /// Playback, if it goes on, has started anew at the playhead.
    pub open spec fn restarted(self) -> Outcome {
        if self.playing {
            self.started()
        } else {
            self.unchanged()
        }
    }

    /// The playhead has moved to a frame that is to be seen.
    pub open spec fn moved_to(self, frame: nat) -> Outcome {
        let (after, effects) = AppModel { playhead: frame, ..self }.restarted();
        (after, seq![EffectModel::ShowPlayhead] + effects)
    }

    /// A file was chosen.
    pub open spec fn chosen(self, choice: Choice) -> Outcome {
        match choice {
            Choice::Cancelled => self.unchanged(),
            Choice::Audio(name) => AppModel { pending_cue: None, ..self }.loading(name@),
            Choice::Cue(Ok(name)) => self.loading(name@),
            Choice::Cue(Err(e)) => (self.telling(e@), Seq::empty()),
        }
    }

    /// The recording of this name is being read.
    pub open spec fn loading(self, name: Seq<char>) -> Outcome {
        (
            AppModel { loading: true, ..self }.telling("Loading "@ + name + "…"@),
            seq![EffectModel::Load],
        )
    }

    /// A recording was read. With a pending cue sheet its tracks are those of the sheet, and are
    /// not to be edited; without one there is a single track.
    pub open spec fn loaded(self, audio: AudioData, positions: Seq<usize>, duration: Time) -> Outcome {
        let ready = AppModel {
            audio: Some(audio),
            loading: false,
            pending_cue: None,
            playhead: 0,
            ..self.stopped()
        };
        let info = loaded_text(audio, duration);
        let after = match self.pending_cue {
            Some(cue) => AppModel {
                markers: loaded_markers(cue, positions, audio.frames_spec()),
                next_id: cue.tracks.len(),
                album_artist: cue.album_artist,
                album_title: cue.album_title,
                read_only: true,
                status: info + cue_note(cue.tracks.len()),
                ..ready
            },
            None => AppModel {
                markers: seq![blank_marker(0, 0)],
                next_id: 1,
                read_only: false,
                status: info,
                ..ready
            },
        };
        (after, seq![EffectModel::StopPlayer, EffectModel::ZoomFit])
    }

    /// The tracks are those that start after silences.
    pub open spec fn detected(
        self,
        quiet: Seq<bool>,
        params: DetectParams,
        threshold: Seq<char>,
        min_gap: Seq<char>,
    ) -> Outcome {
        match self.audio {
            Some(audio) => {
                let starts = track_starts(quiet, audio.sample_rate, params);
                (
                    AppModel {
                        markers: blank_markers(starts, self.next_id),
                        next_id: self.next_id + starts.len(),
                        ..self
                    }.telling(detected_text(starts.len(), threshold, min_gap)),
                    seq![EffectModel::Redraw],
                )
            },
            None => self.unchanged(),
        }
    }

    /// So many frames have passed since playback started.
    pub open spec fn ticked(self, elapsed: nat) -> Outcome {
        match self.play_anchor {
            Some(frame) => if self.audio is None {
                self.unchanged()
            } else if frame + elapsed >= self.frames() {
                (
                    AppModel { playhead: self.frames(), ..self.stopped() },
                    seq![EffectModel::StopPlayer],
                )
            } else {
                (
                    AppModel { playhead: frame + elapsed, ..self },
                    seq![EffectModel::ShowPlayhead],
                )
            },
            None => self.unchanged(),
        }
    }

    /// The start of the track that the playhead is in.
    pub open spec fn current_start(self) -> Option<nat> {
        start_upto(self.markers, self.playhead)
    }

    /// The last start of a track before a frame.
    pub open spec fn start_before(self, frame: nat) -> Option<nat> {
        if frame == 0 {
            None
        } else {
            start_upto(self.markers, (frame - 1) as nat)
        }
    }

    /// Where going back leads: to the start of the current track from far enough into it, else
    /// to the start of the track before it, if there is one.
    pub open spec fn previous_start(self) -> Option<nat> {
        match (self.audio, self.current_start()) {
            (Some(audio), Some(start)) => if self.playhead - start > RESTART_SECS
                * audio.sample_rate {
                Some(start)
            } else {
                match self.start_before(start) {
                    Some(before) => Some(before),
                    None => Some(start),
                }
            },
            _ => None,
        }
    }

    /// The playhead has moved to the start of a track, if there is one.
    pub open spec fn went_to(self, start: Option<nat>) -> Outcome {
        match start {
            Some(start) => self.moved_to(start),
            None => self.unchanged(),
        }
    }

    /// A marker was added.
    pub open spec fn added(self, frame: nat, time: Time) -> Outcome {
        if self.audio is Some {
            (
                AppModel {
                    markers: in_order(self.markers.push(blank_marker(self.next_id, frame))),
                    next_id: self.next_id + 1,
                    ..self
                }.telling("Marker added at "@ + time.text() + "."@),
                seq![EffectModel::Redraw],
            )
        } else {
            self.unchanged()
        }
    }

    /// The marker at an index, if there is one, has changed.
    pub open spec fn with_marker(self, id: nat, f: spec_fn(MarkerModel) -> MarkerModel) -> AppModel {
        match index_of(self.markers, id) {
            Some(k) => AppModel { markers: self.markers.update(k, f(self.markers[k])), ..self },
            None => self,
        }
    }

    /// A marker was moved.
    pub open spec fn moved(self, id: nat, frame: nat) -> Outcome {
        let placed = self.with_marker(id, |m: MarkerModel| MarkerModel { pos: frame, ..m });
        (
            AppModel { markers: in_order(placed.markers), ..self },
            seq![EffectModel::Redraw],
        )
    }

    /// Playback starts at a marker.
    pub open spec fn gone_to_marker(self, id: nat) -> Outcome {
        match index_of(self.markers, id) {
            Some(k) => {
                let (after, effects) = AppModel { playhead: self.markers[k].pos, ..self }.started();
                (after, seq![EffectModel::ShowPlayhead, EffectModel::Redraw] + effects)
            },
            None => self.unchanged(),
        }
    }

    /// The tracks to export: each runs to the next marker or EOF.
    pub open spec fn tracks(self) -> Seq<ExportModel> {
        tracks_of(self.markers, self.frames())
    }

    /// A cue sheet is to be written.
    pub open spec fn cue_path_chosen(self, starts: Seq<u64>) -> Outcome {
        match self.audio {
            Some(audio) => (
                self,
                seq![
                    EffectModel::WriteCue {
                        text: cue_sheet(
                            audio.name@,
                            self.album_artist,
                            self.album_title,
                            sheet_tracks(self.markers, starts),
                        ),
                        count: self.markers.len(),
                    },
                ],
            ),
            None => self.unchanged(),
        }
    }

    /// Whether an export can start.
    pub open spec fn can_export(self) -> bool {
        self.audio is Some && self.markers.len() > 0 && !self.exporting
    }

    /// The device to play on has changed.
    pub open spec fn device_selected(self, name: Seq<char>) -> Outcome {
        (
            AppModel { selected_device: name, ..self.stopped() },
            seq![
                EffectModel::StopPlayer,
                EffectModel::SetDevice(
                    if name == "System default"@ {
                        None
                    } else {
                        Some(name)
                    },
                ),
            ],
        )
    }

    /// The state after a message, and what it asks for. While the tracks are not to be edited,
    /// messages that edit are dropped.
    pub open spec fn step(self, message: Message) -> Outcome {
        if self.read_only && is_edit(message) {
            self.unchanged()
        } else {
            match message {
                Message::OpenFile => (
                    self,
                    if self.loading {
                        Seq::empty()
                    } else {
                        seq![EffectModel::PickFile]
                    },
                ),
                Message::FileChosen(choice) => self.chosen(choice),
                Message::Loaded(Ok(l)) => self.loaded(*l.audio, l.positions@, l.duration),
                Message::Loaded(Err(e)) => (
                    AppModel { loading: false, pending_cue: None, ..self }.telling(
                        "Load failed: "@ + e@,
                    ),
                    Seq::empty(),
                ),
                Message::Detect { quiet, params, threshold, min_gap } => self.detected(
                    quiet@,
                    params,
                    threshold@,
                    min_gap@,
                ),
                Message::SetPlayhead(frame) => AppModel {
                    playhead: frame as nat,
                    ..self
                }.restarted(),
                Message::PlayPause => if self.playing {
                    (self.stopped(), seq![EffectModel::StopPlayer])
                } else {
                    self.started()
                },
                Message::Stop => (self.stopped(), seq![EffectModel::StopPlayer]),
                Message::SeekVisible(frame) => if self.audio is Some {
                    let (after, effects) = AppModel {
                        playhead: self.limited(frame as nat),
                        ..self
                    }.restarted();
                    (after, seq![EffectModel::ShiftView] + effects)
                } else {
                    self.unchanged()
                },
                Message::Tick(elapsed) => self.ticked(elapsed as nat),
                Message::NextTrack => self.went_to(next_start(self.markers, self.playhead)),
                Message::PrevTrack => self.went_to(self.previous_start()),
                Message::AddMarkerAtPlayhead(time) => self.added(self.playhead, time),
                Message::AddMarkerAt(frame, time) => self.added(frame as nat, time),
                Message::MoveMarker(id, frame) => self.moved(id as nat, frame as nat),
                Message::DeleteMarker(id) => (
                    AppModel { markers: without(self.markers, id as nat), ..self },
                    seq![EffectModel::Redraw],
                ),
                Message::MarkerTitle(id, s) => (
                    self.with_marker(id as nat, |m: MarkerModel| MarkerModel { title: s@, ..m }),
                    Seq::empty(),
                ),
                Message::MarkerArtist(id, s) => (
                    self.with_marker(id as nat, |m: MarkerModel| MarkerModel { artist: s@, ..m }),
                    Seq::empty(),
                ),
                Message::GotoMarker(id) => self.gone_to_marker(id as nat),
                Message::AlbumTitle(s) => (AppModel { album_title: s@, ..self }, Seq::empty()),
                Message::AlbumArtist(s) => (AppModel { album_artist: s@, ..self }, Seq::empty()),
                Message::SetReadOnly(read_only) => (AppModel { read_only, ..self }, Seq::empty()),
                Message::ExportCue => if self.audio is None {
                    self.unchanged()
                } else if self.markers.len() == 0 {
                    (self.telling("No markers to export."@), Seq::empty())
                } else {
                    (self, seq![EffectModel::PickCuePath])
                },
                Message::CuePathChosen(None) => self.unchanged(),
                Message::CuePathChosen(Some(starts)) => self.cue_path_chosen(starts@),
                Message::CueWritten(tracks, Ok(name)) => (
                    self.telling(
                        "Wrote "@ + name@ + " ("@ + decimal(tracks as nat) + " tracks)."@,
                    ),
                    Seq::empty(),
                ),
                Message::CueWritten(_, Err(e)) => (self.telling(e@), Seq::empty()),
                Message::ExportFlac => (
                    self,
                    if self.can_export() {
                        seq![EffectModel::PickFlacDir]
                    } else {
                        Seq::empty()
                    },
                ),
                Message::FlacDirChosen(chosen) => if chosen && self.audio is Some {
                    (
                        AppModel { exporting: true, ..self }.telling(
                            "Exporting "@ + decimal(self.markers.len()) + " FLAC files…"@,
                        ),
                        seq![
                            EffectModel::ExportTracks {
                                tracks: self.tracks(),
                                album_artist: self.album_artist,
                                album_title: self.album_title,
                            },
                        ],
                    )
                } else {
                    self.unchanged()
                },
                Message::FlacDone(Ok(n)) => (
                    AppModel { exporting: false, ..self }.telling(
                        "Exported "@ + decimal(n as nat) + " FLAC files."@,
                    ),
                    Seq::empty(),
                ),
                Message::FlacDone(Err(e)) => (
                    AppModel { exporting: false, ..self }.telling("FLAC export failed: "@ + e@),
                    Seq::empty(),
                ),
                Message::ExportFlacCue => (
                    self,
                    if self.can_export() {
                        seq![EffectModel::PickFlacCuePath]
                    } else {
                        Seq::empty()
                    },
                ),
                Message::FlacCuePathChosen(target) => if self.audio is None {
                    self.unchanged()
                } else {
                    match target {
                        Target::Cancelled => self.unchanged(),
                        Target::LoadedFile => (
                            self.telling(
                                "Refusing to overwrite the loaded file — pick another name."@,
                            ),
                            Seq::empty(),
                        ),
                        Target::OtherFile => (
                            AppModel { exporting: true, ..self }.telling(
                                "Exporting FLAC with embedded cue sheet…"@,
                            ),
                            seq![
                                EffectModel::ExportSingle {
                                    tracks: self.tracks(),
                                    album_artist: self.album_artist,
                                    album_title: self.album_title,
                                },
                            ],
                        ),
                    }
                },
                Message::FlacCueDone(Ok(name)) => (
                    AppModel { exporting: false, ..self }.telling(
                        "Wrote "@ + name@ + " with embedded cue sheet."@,
                    ),
                    Seq::empty(),
                ),
                Message::FlacCueDone(Err(e)) => (
                    AppModel { exporting: false, ..self }.telling("FLAC+CUE export failed: "@ + e@),
                    Seq::empty(),
                ),
                Message::DeviceSelected(name) => self.device_selected(name@),
            }
        }
    }

    /// Whether a message goes with the state: what was computed for it is of the right length,
    /// the tracks of a cue sheet are placed in order, and there are ids for the markers it adds.
    pub open spec fn accepts(self, message: Message) -> bool {
        match message {
            Message::Loaded(Ok(l)) => {
                &&& l.audio.wf()
                &&& self.pending_cue matches Some(cue) ==> l.positions@.len() == cue.tracks.len()
                    && positions_ascend(l.positions@)
            },
            Message::Detect { quiet, .. } => self.audio matches Some(audio) ==> {
                &&& quiet@.len() == window_count_spec(audio.frames_spec(), audio.sample_rate)
                &&& self.next_id + quiet@.len() + 1 <= u64::MAX
            },
            Message::AddMarkerAtPlayhead(_) => self.next_id < u64::MAX,
            Message::AddMarkerAt(_, _) => self.next_id < u64::MAX,
            Message::CuePathChosen(Some(starts)) => starts@.len() == self.markers.len(),
            _ => true,
        }
    }
}

proof fn lemma_step_keeps_audio(app: AppModel, message: Message)
    requires
        app.audio matches Some(audio) ==> audio.wf(),
        app.accepts(message),
    ensures
        app.step(message).0.audio matches Some(audio) ==> audio.wf(),
{
}

proof fn lemma_started_plays(app: AppModel)
    ensures
        app.plays_in_order() ==> app.started().0.plays_in_order(),
        app.plays_in_order() ==> app.restarted().0.plays_in_order(),
        app.stopped().plays_in_order(),
{
}

/// Whether playback is the same in two states.
spec fn same_playback(a: AppModel, b: AppModel) -> bool {
    a.audio == b.audio && a.playing == b.playing && a.play_anchor == b.play_anchor
}

/// Whether a message has no effect on playback, whatever the state.
spec fn leaves_playback(message: Message) -> bool {
    match message {
        Message::Loaded(Ok(_)) => false,
        Message::SetPlayhead(_) => false,
        Message::PlayPause => false,
        Message::Stop => false,
        Message::SeekVisible(_) => false,
        Message::Tick(_) => false,
        Message::NextTrack => false,
        Message::PrevTrack => false,
        Message::GotoMarker(_) => false,
        Message::DeviceSelected(_) => false,
        _ => true,
    }
}

proof fn lemma_leaves_playback(app: AppModel, message: Message)
    requires
        leaves_playback(message),
    ensures
        same_playback(app, app.step(message).0),
{
}

proof fn lemma_step_keeps_playback(app: AppModel, message: Message)
    requires
        app.plays_in_order(),
    ensures
        app.step(message).0.plays_in_order(),
{
    if leaves_playback(message) {
        lemma_leaves_playback(app, message);
    }
    match message {
        Message::SetPlayhead(frame) => {
            lemma_started_plays(AppModel { playhead: frame as nat, ..app });
        },
        Message::SeekVisible(frame) => {
            lemma_started_plays(AppModel { playhead: app.limited(frame as nat), ..app });
        },
        Message::NextTrack => {
            if let Some(start) = next_start(app.markers, app.playhead) {
                lemma_started_plays(AppModel { playhead: start, ..app });
            }
        },
        Message::PrevTrack => {
            if let Some(start) = app.previous_start() {
                lemma_started_plays(AppModel { playhead: start, ..app });
            }
        },
        Message::GotoMarker(id) => {
            if let Some(k) = index_of(app.markers, id as nat) {
                lemma_started_plays(AppModel { playhead: app.markers[k].pos, ..app });
            }
        },
        _ => {
            lemma_started_plays(app);
        },
    }
}

#[verifier::rlimit(40)]
proof fn lemma_step_keeps_ids(app: AppModel, message: Message)
    requires
        distinct_ids(app.markers, app.next_id),
        app.accepts(message),
    ensures
        distinct_ids(app.step(message).0.markers, app.step(message).0.next_id),
{
    match message {
        Message::MoveMarker(id, frame) => {
            let placed = app.with_marker(
                id as nat,
                |m: MarkerModel| MarkerModel { pos: frame as nat, ..m },
            );
            lemma_index_of(app.markers, id as nat);
            lemma_in_order_ids(placed.markers, app.next_id);
        },
        Message::MarkerTitle(id, _) => {
            lemma_index_of(app.markers, id as nat);
        },
        Message::MarkerArtist(id, _) => {
            lemma_index_of(app.markers, id as nat);
        },
        Message::DeleteMarker(id) => {
            lemma_without(app.markers, id as nat, app.next_id);
        },
        Message::AddMarkerAtPlayhead(_) => {
            lemma_in_order_ids(
                app.markers.push(blank_marker(app.next_id, app.playhead)),
                app.next_id + 1,
            );
        },
        Message::AddMarkerAt(frame, _) => {
            lemma_in_order_ids(
                app.markers.push(blank_marker(app.next_id, frame as nat)),
                app.next_id + 1,
            );
        },
        _ => {},
    }
}

proof fn lemma_step_keeps_order(app: AppModel, message: Message)
    requires
        ascend(app.markers),
        app.accepts(message),
    ensures
        ascend(app.step(message).0.markers),
{
    match message {
        Message::MoveMarker(id, frame) => {
            let placed = app.with_marker(
                id as nat,
                |m: MarkerModel| MarkerModel { pos: frame as nat, ..m },
            );
            lemma_in_order_ascends(placed.markers);
        },
        Message::MarkerTitle(id, _) => {
            lemma_index_of(app.markers, id as nat);
        },
        Message::MarkerArtist(id, _) => {
            lemma_index_of(app.markers, id as nat);
        },
        Message::DeleteMarker(id) => {
            lemma_without_ascends(app.markers, id as nat);
        },
        Message::AddMarkerAtPlayhead(_) => {
            lemma_in_order_ascends(app.markers.push(blank_marker(app.next_id, app.playhead)));
        },
        Message::AddMarkerAt(frame, _) => {
            lemma_in_order_ascends(app.markers.push(blank_marker(app.next_id, frame as nat)));
        },
        Message::Detect { quiet, params, .. } => {
            if let Some(audio) = app.audio {
                let starts = track_starts(quiet@, audio.sample_rate, params);
                assert forall|i: int, j: int| 0 <= i <= j < starts.len() implies (
                #[trigger] starts[i]) <= (#[trigger] starts[j]) by {
                    lemma_starts_ascend(quiet@, audio.sample_rate, params, i, j);
                }
            }
        },
        _ => {},
    }
}

/// Whatever happens, the editor stays in order: its recording has its peaks, its markers can be
/// told apart and are in the order of their positions, and playback goes on if and only if it
/// started at some frame of the recording.
pub proof fn step_keeps_inv(app: AppModel, message: Message)
    requires
        app.inv(),
        app.accepts(message),
    ensures
        app.step(message).0.inv(),
{
    lemma_step_keeps_audio(app, message);
    lemma_step_keeps_playback(app, message);
    lemma_step_keeps_ids(app, message);
    lemma_step_keeps_order(app, message);
}

fn none() -> (r: Vec<Effect>)
    ensures
        effect_models(r@) == Seq::<EffectModel>::empty(),
{
    let r: Vec<Effect> = Vec::new();
    assert(effect_models(r@) =~= Seq::<EffectModel>::empty());
    r
}

fn one(effect: Effect) -> (r: Vec<Effect>)
    ensures
        effect_models(r@) == seq![effect@],
{
    let mut r: Vec<Effect> = Vec::new();
    r.push(effect);
    assert(effect_models(r@) =~= seq![effect@]);
    r
}

fn pair(first: Effect, second: Effect) -> (r: Vec<Effect>)
    ensures
        effect_models(r@) == seq![first@, second@],
{
    let mut r: Vec<Effect> = Vec::new();
    r.push(first);
    r.push(second);
    assert(effect_models(r@) =~= seq![first@, second@]);
    r
}

fn followed_by(first: Vec<Effect>, second: Vec<Effect>) -> (r: Vec<Effect>)
    ensures
        effect_models(r@) == effect_models(first@) + effect_models(second@),
{
    let mut r = first;
    let mut rest = second;
    r.append(&mut rest);
    assert(effect_models(r@) =~= effect_models(first@) + effect_models(second@));
    r
}

impl App {
    /// The number of frames of the recording, none without one.
    fn frames(&self) -> (r: usize)
        ensures
            r == self@.frames(),
    {
        match &self.audio {
            Some(audio) => audio.frames(),
            None => 0,
        }
    }

    fn limited(&self, frame: usize) -> (r: usize)
        ensures
            r == self@.limited(frame as nat),
    {
        let frames = self.frames();
        if frame < frames {
            frame
        } else {
            frames
        }
    }

    /// Starts playback anew at the playhead, if there is a recording.
    fn start_playback(&mut self) -> (r: Vec<Effect>)
        ensures
            (final(self)@, effect_models(r@)) == old(self)@.started(),
    {
        if self.audio.is_none() {
            return none();
        }
        let start = self.limited(self.playhead);
        self.playing = true;
        self.play_anchor = Some(start);
        one(Effect::Play { start })
    }

    /// Stops playback.
    fn stop_playback(&mut self)
        ensures
            final(self)@ == old(self)@.stopped(),
    {
        self.playing = false;
        self.play_anchor = None;
    }

    /// Starts playback anew at the playhead, if it goes on.
    fn restart_playback(&mut self) -> (r: Vec<Effect>)
        ensures
            (final(self)@, effect_models(r@)) == old(self)@.restarted(),
    {
        if self.playing {
            self.start_playback()
        } else {
            none()
        }
    }

    /// An empty editor, with these devices to play on besides the default one.
    pub fn new(output_devices: Vec<String>) -> (r: App)
        ensures
            r@ == AppModel::initial(names(output_devices@)),
            r@.inv(),
    {
        let mut devices: Vec<String> = Vec::new();
        devices.push("System default".to_string());
        let mut others = output_devices;
        devices.append(&mut others);
        let r = App {
            audio: None,
            loading: false,
            exporting: false,
            markers: Vec::new(),
            next_id: 0,
            album_title: String::new(),
            album_artist: String::new(),
            pending_cue: None,
            playhead: 0,
            playing: false,
            play_anchor: None,
            devices,
            selected_device: "System default".to_string(),
            read_only: false,
            status: "Open a WAV or FLAC file to get started.".to_string(),
        };
        assert(r@.markers =~= Seq::<MarkerModel>::empty());
        assert(r@.album_title =~= Seq::<char>::empty());
        assert(r@.album_artist =~= Seq::<char>::empty());
        assert(r@.devices =~= seq!["System default"@] + names(output_devices@));
        r
    }

    /// Takes a cue sheet whose recording was found: under the path as written, or else under its
    /// file name beside the sheet. The sheet then waits for the recording to be read.
    pub fn read_cue_file(&mut self, cue: ParsedCue, as_written: bool, beside: bool) -> (r: Result<
        Location,
        String,
    >)
        requires
            old(self)@.inv(),
        ensures
            match r {
                Ok(location) => {
                    &&& as_written || beside
                    &&& location == if as_written {
                        Location::AsWritten
                    } else {
                        Location::BesideSheet
                    }
                    &&& final(self)@ == (AppModel { pending_cue: Some(cue@), ..old(self)@ })
                },
                Err(e) => {
                    &&& !as_written && !beside
                    &&& e@ == "Audio file \""@ + cue.audio_file@
                        + "\" referenced by the cue sheet was not found"@
                    &&& final(self)@ == old(self)@
                },
            },
            final(self)@.inv(),
    {
        if as_written {
            self.pending_cue = Some(cue);
            Ok(Location::AsWritten)
        } else if beside {
            self.pending_cue = Some(cue);
            Ok(Location::BesideSheet)
        } else {
            let mut e = String::new();
            e.append("Audio file \"");
            e.append(cue.audio_file.as_str());
            e.append("\" referenced by the cue sheet was not found");
            assert(e@ =~= "Audio file \""@ + cue.audio_file@
                + "\" referenced by the cue sheet was not found"@);
            Err(e)
        }
    }

    /// What the controls offer.
    pub fn controls(&self) -> (r: Controls)
        ensures
            r.file_label@ == match self@.audio {
                Some(audio) => audio.name@,
                None => "No file loaded"@,
            },
            r.play_label@ == if self@.playing {
                "Pause"@
            } else {
                "Play"@
            },
            r.placeholder@ == if self@.loading {
                "Loading…"@
            } else {
                "Open a WAV or FLAC file to see its waveform here."@
            },
            r.has_audio == self@.audio is Some,
            r.can_export_cue == (self@.audio is Some && self@.markers.len() > 0),
            r.can_export_flac == self@.can_export(),
    {
        let file_label = match &self.audio {
            Some(audio) => audio.file_name(),
            None => "No file loaded".to_string(),
        };
        let play_label = if self.playing {
            "Pause".to_string()
        } else {
            "Play".to_string()
        };
        let placeholder = if self.loading {
            "Loading…".to_string()
        } else {
            "Open a WAV or FLAC file to see its waveform here.".to_string()
        };
        Controls {
            file_label,
            play_label,
            placeholder,
            has_audio: self.audio.is_some(),
            can_export_cue: self.audio.is_some() && self.markers.len() > 0,
            can_export_flac: self.can_export(),
        }
    }

    fn went_to(&mut self, start: Option<usize>) -> (r: Vec<Effect>)
        ensures
            (final(self)@, effect_models(r@)) == old(self)@.went_to(
                match start {
                    Some(frame) => Some(frame as nat),
                    None => None,
                },
            ),
    {
        match start {
            Some(frame) => {
                self.playhead = frame;
                let effects = self.restart_playback();
                followed_by(one(Effect::ShowPlayhead), effects)
            },
            None => none(),
        }
    }

    fn load(&mut self, name: &str) -> (r: Vec<Effect>)
        ensures
            (final(self)@, effect_models(r@)) == old(self)@.loading(name@),
    {
        self.loading = true;
        let mut status = String::new();
        status.append("Loading ");
        status.append(name);
        status.append("…");
        assert(status@ =~= "Loading "@ + name@ + "…"@);
        self.status = status;
        one(Effect::Load)
    }

    fn file_chosen(&mut self, choice: Choice) -> (r: Vec<Effect>)
        ensures
            (final(self)@, effect_models(r@)) == old(self)@.chosen(choice),
    {
        match choice {
            Choice::Cancelled => none(),
            Choice::Audio(name) => {
                self.pending_cue = None;
                self.load(name.as_str())
            },
            Choice::Cue(Ok(name)) => self.load(name.as_str()),
            Choice::Cue(Err(e)) => {
                self.status = e;
                none()
            },
        }
    }

    fn loaded(&mut self, loaded: Loaded) -> (r: Vec<Effect>)
        requires
            old(self)@.pending_cue matches Some(cue) ==> loaded.positions@.len()
                == cue.tracks.len(),
        ensures
            (final(self)@, effect_models(r@)) == old(self)@.loaded(
                *loaded.audio,
                loaded.positions@,
                loaded.duration,
            ),
    {
        self.loading = false;
        self.stop_playback();
        let mut status = loaded_status(&loaded.audio, loaded.duration);
        match self.pending_cue.take() {
            Some(cue) => {
                let frames = loaded.audio.frames();
                self.markers = markers_from_cue(&cue, &loaded.positions, frames);
                self.next_id = cue.tracks.len() as u64;
                let ghost info = status@;
                status.append(" — ");
                push_decimal(&mut status, cue.tracks.len() as u64);
                status.append(" tracks from cue sheet");
                assert(status@ =~= info + cue_note(cue.tracks@.len()));
                self.album_artist = cue.album_artist;
                self.album_title = cue.album_title;
                self.read_only = true;
            },
            None => {
                self.markers = Vec::new();
                self.markers.push(new_marker(0, 0));
                assert(marker_models(self.markers@) =~= seq![blank_marker(0, 0)]);
                self.next_id = 1;
                self.read_only = false;
            },
        }
        self.status = status;
        self.audio = Some(loaded.audio);
        self.playhead = 0;
        pair(Effect::StopPlayer, Effect::ZoomFit)
    }

    fn detected(
        &mut self,
        quiet: &Vec<bool>,
        params: &DetectParams,
        threshold: &str,
        min_gap: &str,
    ) -> (r: Vec<Effect>)
        requires
            old(self)@.audio matches Some(audio) ==> quiet@.len() == window_count_spec(
                audio.frames_spec(),
                audio.sample_rate,
            ) && old(self)@.next_id + quiet@.len() + 1 <= u64::MAX,
        ensures
            (final(self)@, effect_models(r@)) == old(self)@.detected(
                quiet@,
                *params,
                threshold@,
                min_gap@,
            ),
    {
        let sample_rate = match &self.audio {
            Some(audio) => {
                let frames = audio.frames();
                proof {
                    let win = window_spec(audio.sample_rate) as int;
                    vstd::arithmetic::div_mod::lemma_fundamental_div_mod(frames as int, win);
                    vstd::arithmetic::mul::lemma_mul_is_commutative(win, frames as int / win);
                }
                audio.sample_rate
            },
            None => return none(),
        };
        let starts = detect_track_starts(quiet.as_slice(), sample_rate, params);
        assert(as_frames(starts@).len() == starts@.len());
        self.markers = markers_from_starts(&starts, self.next_id);
        self.next_id = self.next_id + starts.len() as u64;
        let mut status = String::new();
        status.append("Detected ");
        push_decimal(&mut status, starts.len() as u64);
        status.append(" tracks (threshold ");
        status.append(threshold);
        status.append(" dB, min gap ");
        status.append(min_gap);
        status.append(" s). Existing markers were replaced.");
        assert(status@ =~= detected_text(starts@.len(), threshold@, min_gap@));
        self.status = status;
        one(Effect::Redraw)
    }

    fn ticked(&mut self, elapsed: usize) -> (r: Vec<Effect>)
        ensures
            (final(self)@, effect_models(r@)) == old(self)@.ticked(elapsed as nat),
    {
        let frame = match self.play_anchor {
            Some(frame) => frame,
            None => return none(),
        };
        if self.audio.is_none() {
            return none();
        }
        let frames = self.frames();
        if frame >= frames || elapsed >= frames - frame {
            self.playhead = frames;
            self.stop_playback();
            one(Effect::StopPlayer)
        } else {
            self.playhead = frame + elapsed;
            one(Effect::ShowPlayhead)
        }
    }

    fn previous_start(&self) -> (r: Option<usize>)
        ensures
            match r {
                Some(frame) => self@.previous_start() == Some(frame as nat),
                None => self@.previous_start() is None,
            },
    {
        let sample_rate = match &self.audio {
            Some(audio) => audio.sample_rate,
            None => return None,
        };
        let start = match find_start_upto(&self.markers, self.playhead) {
            Some(start) => start,
            None => return None,
        };
        if (self.playhead - start) as u64 > RESTART_SECS * sample_rate as u64 {
            return Some(start);
        }
        if start == 0 {
            return Some(start);
        }
        match find_start_upto(&self.markers, start - 1) {
            Some(before) => Some(before),
            None => Some(start),
        }
    }

    fn added(&mut self, frame: usize, time: Time) -> (r: Vec<Effect>)
        requires
            old(self).next_id < u64::MAX,
        ensures
            (final(self)@, effect_models(r@)) == old(self)@.added(frame as nat, time),
    {
        if self.audio.is_none() {
            return none();
        }
        let ghost before = self.markers@;
        self.markers.push(new_marker(self.next_id, frame));
        assert(marker_models(self.markers@) =~= marker_models(before).push(
            blank_marker(self.next_id as nat, frame as nat),
        ));
        self.next_id = self.next_id + 1;
        sort_markers(&mut self.markers);
        let mut status = String::new();
        status.append("Marker added at ");
        let text = format_time(time.secs, time.ms);
        status.append(text.as_str());
        status.append(".");
        assert(status@ =~= "Marker added at "@ + time.text() + "."@);
        self.status = status;
        one(Effect::Redraw)
    }

    fn moved(&mut self, id: u64, frame: usize) -> (r: Vec<Effect>)
        ensures
            (final(self)@, effect_models(r@)) == old(self)@.moved(id as nat, frame as nat),
    {
        let ghost before = self@;
        if let Some(k) = find_marker(&self.markers, id) {
            let ghost markers = self.markers@;
            self.markers[k].pos = frame;
            assert(marker_models(self.markers@) =~= marker_models(markers).update(
                k as int,
                MarkerModel { pos: frame as nat, ..markers[k as int]@ },
            ));
        }
        assert(marker_models(self.markers@) =~= before.with_marker(
            id as nat,
            |m: MarkerModel| MarkerModel { pos: frame as nat, ..m },
        ).markers);
        sort_markers(&mut self.markers);
        one(Effect::Redraw)
    }

    fn set_title(&mut self, id: u64, title: String)
        ensures
            final(self)@ == old(self)@.with_marker(
                id as nat,
                |m: MarkerModel| MarkerModel { title: title@, ..m },
            ),
    {
        if let Some(k) = find_marker(&self.markers, id) {
            let ghost markers = self.markers@;
            self.markers[k].title = title;
            assert(marker_models(self.markers@) =~= marker_models(markers).update(
                k as int,
                MarkerModel { title: title@, ..markers[k as int]@ },
            ));
        }
    }

    fn set_artist(&mut self, id: u64, artist: String)
        ensures
            final(self)@ == old(self)@.with_marker(
                id as nat,
                |m: MarkerModel| MarkerModel { artist: artist@, ..m },
            ),
    {
        if let Some(k) = find_marker(&self.markers, id) {
            let ghost markers = self.markers@;
            self.markers[k].artist = artist;
            assert(marker_models(self.markers@) =~= marker_models(markers).update(
                k as int,
                MarkerModel { artist: artist@, ..markers[k as int]@ },
            ));
        }
    }

    fn go_to_marker(&mut self, id: u64) -> (r: Vec<Effect>)
        ensures
            (final(self)@, effect_models(r@)) == old(self)@.gone_to_marker(id as nat),
    {
        match find_marker(&self.markers, id) {
            Some(k) => {
                self.playhead = self.markers[k].pos;
                let effects = self.start_playback();
                followed_by(pair(Effect::ShowPlayhead, Effect::Redraw), effects)
            },
            None => none(),
        }
    }

    /// Marker list as export tracks: each runs to the next marker or EOF.
    pub fn export_tracks(&self) -> (r: Vec<ExportTrack>)
        ensures
            export_models(r@) == self@.tracks(),
    {
        export_list(&self.markers, self.frames())
    }

    fn sheet_tracks(&self, starts: &Vec<u64>) -> (r: Vec<CueTrack>)
        requires
            starts@.len() == self.markers@.len(),
        ensures
            track_models(r@) == sheet_tracks(self@.markers, starts@),
    {
        let ghost models = sheet_tracks(self@.markers, starts@);
        let mut tracks: Vec<CueTrack> = Vec::new();
        let mut i: usize = 0;
        while i < self.markers.len()
            invariant
                i <= self.markers@.len(),
                starts@.len() == self.markers@.len(),
                models == sheet_tracks(self@.markers, starts@),
                tracks@.len() == i,
                forall|k: int| 0 <= k < i ==> (#[trigger] tracks@[k])@ == models[k],
            decreases self.markers@.len() - i,
        {
            let marker = &self.markers[i];
            assert(self@.markers[i as int] == marker@);
            tracks.push(
                CueTrack {
                    start: starts[i] as u128,
                    title: marker.title.clone(),
                    artist: marker.artist.clone(),
                },
            );
            i = i + 1;
        }
        assert(track_models(tracks@) =~= models);
        tracks
    }

    fn cue_path_chosen(&self, starts: &Vec<u64>) -> (r: Vec<Effect>)
        requires
            starts@.len() == self.markers@.len(),
        ensures
            (self@, effect_models(r@)) == self@.cue_path_chosen(starts@),
    {
        match &self.audio {
            Some(audio) => {
                let tracks = self.sheet_tracks(starts);
                let text = cue_text(
                    audio.name.as_str(),
                    self.album_artist.as_str(),
                    self.album_title.as_str(),
                    tracks.as_slice(),
                );
                one(Effect::WriteCue { text, count: self.markers.len() })
            },
            None => none(),
        }
    }

    fn cue_written(&mut self, tracks: usize, name: &str)
        ensures
            final(self)@ == old(self)@.telling(
                "Wrote "@ + name@ + " ("@ + decimal(tracks as nat) + " tracks)."@,
            ),
    {
        let mut status = String::new();
        status.append("Wrote ");
        status.append(name);
        status.append(" (");
        push_decimal(&mut status, tracks as u64);
        status.append(" tracks).");
        assert(status@ =~= "Wrote "@ + name@ + " ("@ + decimal(tracks as nat) + " tracks)."@);
        self.status = status;
    }

    fn can_export(&self) -> (r: bool)
        ensures
            r == self@.can_export(),
    {
        self.audio.is_some() && self.markers.len() > 0 && !self.exporting
    }

    fn flac_dir_chosen(&mut self) -> (r: Vec<Effect>)
        ensures
            (final(self)@, effect_models(r@)) == old(self)@.step(Message::FlacDirChosen(true)),
    {
        if self.audio.is_none() {
            return none();
        }
        let tracks = self.export_tracks();
        self.exporting = true;
        let mut status = String::new();
        status.append("Exporting ");
        push_decimal(&mut status, self.markers.len() as u64);
        status.append(" FLAC files…");
        assert(status@ =~= "Exporting "@ + decimal(self.markers@.len()) + " FLAC files…"@);
        self.status = status;
        one(
            Effect::ExportTracks {
                tracks,
                album_artist: self.album_artist.clone(),
                album_title: self.album_title.clone(),
            },
        )
    }

    fn flac_cue_path_chosen(&mut self, target: Target) -> (r: Vec<Effect>)
        ensures
            (final(self)@, effect_models(r@)) == old(self)@.step(
                Message::FlacCuePathChosen(target),
            ),
    {
        if self.audio.is_none() {
            return none();
        }
        match target {
            Target::Cancelled => none(),
            Target::LoadedFile => {
                self.status =
                "Refusing to overwrite the loaded file — pick another name.".to_string();
                none()
            },
            Target::OtherFile => {
                let tracks = self.export_tracks();
                self.exporting = true;
                self.status = "Exporting FLAC with embedded cue sheet…".to_string();
                one(
                    Effect::ExportSingle {
                        tracks,
                        album_artist: self.album_artist.clone(),
                        album_title: self.album_title.clone(),
                    },
                )
            },
        }
    }

    fn device_selected(&mut self, name: String) -> (r: Vec<Effect>)
        ensures
            (final(self)@, effect_models(r@)) == old(self)@.device_selected(name@),
    {
        self.stop_playback();
        let chosen = to_chars(name.as_str());
        let default = to_chars("System default");
        let device = if eq_chars(chosen.as_slice(), default.as_slice()) {
            None
        } else {
            Some(name.clone())
        };
        self.selected_device = name;
        pair(Effect::StopPlayer, Effect::SetDevice(device))
    }

    /// Takes in what has happened, and says what is to be done about it.
    pub fn update(&mut self, message: Message) -> (r: Vec<Effect>)
        requires
            old(self)@.inv(),
            old(self)@.accepts(message),
        ensures
            (final(self)@, effect_models(r@)) == old(self)@.step(message),
            final(self)@.inv(),
    {
        proof {
            step_keeps_inv(self@, message);
        }
        if self.read_only && is_an_edit(&message) {
            return none();
        }
        match message {
            Message::OpenFile => {
                if self.loading {
                    none()
                } else {
                    one(Effect::PickFile)
                }
            },
            Message::FileChosen(choice) => self.file_chosen(choice),
            Message::Loaded(Ok(loaded)) => self.loaded(loaded),
            Message::Loaded(Err(e)) => {
                self.loading = false;
                self.pending_cue = None;
                self.status = prefixed("Load failed: ", e.as_str());
                none()
            },
            Message::Detect { quiet, params, threshold, min_gap } => self.detected(
                &quiet,
                &params,
                threshold.as_str(),
                min_gap.as_str(),
            ),
            Message::SetPlayhead(frame) => {
                self.playhead = frame;
                self.restart_playback()
            },
            Message::PlayPause => {
                if self.playing {
                    self.stop_playback();
                    one(Effect::StopPlayer)
                } else {
                    self.start_playback()
                }
            },
            Message::Stop => {
                self.stop_playback();
                one(Effect::StopPlayer)
            },
            Message::SeekVisible(frame) => {
                if self.audio.is_none() {
                    return none();
                }
                self.playhead = self.limited(frame);
                let effects = self.restart_playback();
                followed_by(one(Effect::ShiftView), effects)
            },
            Message::Tick(elapsed) => self.ticked(elapsed),
            Message::NextTrack => {
                let start = find_next_start(&self.markers, self.playhead);
                self.went_to(start)
            },
            Message::PrevTrack => {
                let start = self.previous_start();
                self.went_to(start)
            },
            Message::AddMarkerAtPlayhead(time) => self.added(self.playhead, time),
            Message::AddMarkerAt(frame, time) => self.added(frame, time),
            Message::MoveMarker(id, frame) => self.moved(id, frame),
            Message::DeleteMarker(id) => {
                remove_marker(&mut self.markers, id);
                one(Effect::Redraw)
            },
            Message::MarkerTitle(id, title) => {
                self.set_title(id, title);
                none()
            },
            Message::MarkerArtist(id, artist) => {
                self.set_artist(id, artist);
                none()
            },
            Message::GotoMarker(id) => self.go_to_marker(id),
            Message::AlbumTitle(title) => {
                self.album_title = title;
                none()
            },
            Message::AlbumArtist(artist) => {
                self.album_artist = artist;
                none()
            },
            Message::SetReadOnly(read_only) => {
                self.read_only = read_only;
                none()
            },
            Message::ExportCue => {
                if self.audio.is_none() {
                    none()
                } else if self.markers.len() == 0 {
                    self.status = "No markers to export.".to_string();
                    none()
                } else {
                    one(Effect::PickCuePath)
                }
            },
            Message::CuePathChosen(None) => none(),
            Message::CuePathChosen(Some(starts)) => self.cue_path_chosen(&starts),
            Message::CueWritten(tracks, Ok(name)) => {
                self.cue_written(tracks, name.as_str());
                none()
            },
            Message::CueWritten(_, Err(e)) => {
                self.status = e;
                none()
            },
            Message::ExportFlac => {
                if self.can_export() {
                    one(Effect::PickFlacDir)
                } else {
                    none()
                }
            },
            Message::FlacDirChosen(chosen) => {
                if chosen {
                    self.flac_dir_chosen()
                } else {
                    none()
                }
            },
            Message::FlacDone(Ok(n)) => {
                self.exporting = false;
                let mut status = String::new();
                status.append("Exported ");
                push_decimal(&mut status, n as u64);
                status.append(" FLAC files.");
                assert(status@ =~= "Exported "@ + decimal(n as nat) + " FLAC files."@);
                self.status = status;
                none()
            },
            Message::FlacDone(Err(e)) => {
                self.exporting = false;
                self.status = prefixed("FLAC export failed: ", e.as_str());
                none()
            },
            Message::ExportFlacCue => {
                if self.can_export() {
                    one(Effect::PickFlacCuePath)
                } else {
                    none()
                }
            },
            Message::FlacCuePathChosen(target) => self.flac_cue_path_chosen(target),
            Message::FlacCueDone(Ok(name)) => {
                self.exporting = false;
                let mut status = String::new();
                status.append("Wrote ");
                status.append(name.as_str());
                status.append(" with embedded cue sheet.");
                assert(status@ =~= "Wrote "@ + name@ + " with embedded cue sheet."@);
                self.status = status;
                none()
            },
            Message::FlacCueDone(Err(e)) => {
                self.exporting = false;
                self.status = prefixed("FLAC+CUE export failed: ", e.as_str());
                none()
            },
            Message::DeviceSelected(name) => self.device_selected(name),
        }
    }
}

impl Default for App {
    fn default() -> (r: App)
        ensures
            r@ == AppModel::initial(Seq::empty()),
            r@.inv(),
    {
        let devices: Vec<String> = Vec::new();
        assert(names(devices@) =~= Seq::<Seq<char>>::empty());
        App::new(devices)
    }
}

/// Whether a file is opened as a cue sheet: by its extension, ignoring ASCII case.
pub fn is_cue_file(extension: Option<&str>) -> (r: bool)
    ensures
        r == (extension matches Some(e) && same_ignoring_case(e@, "cue"@)),
{
    match extension {
        Some(extension) => {
            let e = to_chars(extension);
            let cue = to_chars("cue");
            eq_ignore_case(e.as_slice(), cue.as_slice())
        },
        None => false,
    }
}

/// The name suggested for a file to write: that of the loaded one, or "album", and an ending.
pub open spec fn suggested_name(stem: Option<Seq<char>>, ending: Seq<char>) -> Seq<char> {
    match stem {
        Some(stem) => stem + ending,
        None => "album"@ + ending,
    }
}

fn stem_and(stem: Option<&str>, ending: &str) -> (r: String)
    ensures
        r@ == suggested_name(
            match stem {
                Some(stem) => Some(stem@),
                None => None,
            },
            ending@,
        ),
{
    match stem {
        Some(stem) => prefixed(stem, ending),
        None => prefixed("album", ending),
    }
}

/// The name suggested for a cue sheet.
pub fn cue_file_name(stem: Option<&str>) -> (r: String)
    ensures
        r@ == suggested_name(
            match stem {
                Some(stem) => Some(stem@),
                None => None,
            },
            ".cue"@,
        ),
{
    stem_and(stem, ".cue")
}

/// The name suggested for a recording with its cue sheet.
pub fn flac_cue_file_name(stem: Option<&str>) -> (r: String)
    ensures
        r@ == suggested_name(
            match stem {
                Some(stem) => Some(stem@),
                None => None,
            },
            " (with cue).flac"@,
        ),
{
    stem_and(stem, " (with cue).flac")
}

/// Where the playhead is, and how long the recording lasts if there is one.
pub fn position_text(playhead: Time, duration: Option<Time>) -> (r: String)
    ensures
        r@ == "Playhead: "@ + playhead.text() + "  /  "@ + match duration {
            Some(duration) => duration.text(),
            None => "--:--"@,
        },
{
    let mut out = String::new();
    out.append("Playhead: ");
    let at = format_time(playhead.secs, playhead.ms);
    out.append(at.as_str());
    out.append("  /  ");
    match duration {
        Some(duration) => {
            let text = format_time(duration.secs, duration.ms);
            out.append(text.as_str());
            assert(out@ =~= "Playhead: "@ + playhead.text() + "  /  "@ + duration.text());
        },
        None => {
            out.append("--:--");
            assert(out@ =~= "Playhead: "@ + playhead.text() + "  /  "@ + "--:--"@);
        },
    }
    out
}

fn is_an_edit(message: &Message) -> (r: bool)
    ensures
        r == is_edit(*message),
{
    match message {
        Message::Detect { .. } => true,
        Message::AddMarkerAtPlayhead(_) => true,
        Message::AddMarkerAt(_, _) => true,
        Message::MoveMarker(_, _) => true,
        Message::DeleteMarker(_) => true,
        Message::MarkerTitle(_, _) => true,
        Message::MarkerArtist(_, _) => true,
        Message::AlbumTitle(_) => true,
        Message::AlbumArtist(_) => true,
        _ => false,
    }
}

fn loaded_status(audio: &AudioData, duration: Time) -> (r: String)
    ensures
        r@ == loaded_text(*audio, duration),
{
    let mut status = String::new();
    status.append("Loaded ");
    status.append(audio.name.as_str());
    status.append(" — ");
    push_decimal(&mut status, audio.channels as u64);
    status.append(" ch, ");
    push_decimal(&mut status, audio.sample_rate as u64);
    status.append(" Hz, ");
    push_decimal(&mut status, audio.bits_per_sample as u64);
    status.append(" bit, ");
    let text = format_time(duration.secs, duration.ms);
    status.append(text.as_str());
    assert(status@ =~= loaded_text(*audio, duration));
    status
}

} // verus!

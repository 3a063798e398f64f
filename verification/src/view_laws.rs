//! What the contents of the library's values are: each field stands for itself, and each list for
//! its items in their order.

use vstd::prelude::*;

use crate::app::{effect_models, names, App, Effect, EffectModel};
use crate::comments::texts;
use crate::cue::{cue_view, track_models, CueTrack, ParsedCue};
use crate::detect::as_frames;
use crate::flac_export::{export_models, file_models, outcome, ExportTrack, TrackFile};
use crate::markers::{marker_models, Marker};
use crate::player::{
    action_models, known_names, name_view, ActionModel, Player, PlayerAction,
};

verus! {

/// A marker is what its fields say.
pub proof fn marker_content(marker: Marker)
    ensures
        marker@.id == marker.id,
        marker@.pos == marker.pos,
        marker@.title == marker.title@,
        marker@.artist == marker.artist@,
{
}

/// A track of a cue sheet is what its fields say.
pub proof fn cue_track_content(track: CueTrack)
    ensures
        track@.start == track.start,
        track@.title == track.title@,
        track@.artist == track.artist@,
{
}

/// A cue sheet is what its fields say.
pub proof fn cue_content(cue: ParsedCue)
    ensures
        cue@.audio_file == cue.audio_file@,
        cue@.album_artist == cue.album_artist@,
        cue@.album_title == cue.album_title@,
        cue@.tracks == track_models(cue.tracks@),
        cue_view(Some(cue)) == Some(cue@),
        cue_view(None) is None,
{
}

/// A track to export is what its fields say.
pub proof fn export_track_content(track: ExportTrack)
    ensures
        track@.start_frame == track.start_frame,
        track@.end_frame == track.end_frame,
        track@.title == track.title@,
        track@.artist == track.artist@,
{
}

/// A file to write is what its fields say.
pub proof fn track_file_content(file: TrackFile)
    ensures
        file@.number == file.number,
        file@.title == file.title@,
        file@.artist == file.artist@,
        file@.file_name == file.file_name@,
        file@.begin == file.begin,
        file@.end == file.end,
{
}

/// Lists hold what their items are, in their order.
pub proof fn list_contents(
    markers: Seq<Marker>,
    tracks: Seq<CueTrack>,
    exports: Seq<ExportTrack>,
    files: Seq<TrackFile>,
    strings: Seq<String>,
    frames: Seq<usize>,
    i: int,
)
    ensures
        marker_models(markers).len() == markers.len(),
        0 <= i < markers.len() ==> marker_models(markers)[i] == markers[i]@,
        track_models(tracks).len() == tracks.len(),
        0 <= i < tracks.len() ==> track_models(tracks)[i] == tracks[i]@,
        export_models(exports).len() == exports.len(),
        0 <= i < exports.len() ==> export_models(exports)[i] == exports[i]@,
        file_models(files).len() == files.len(),
        0 <= i < files.len() ==> file_models(files)[i] == files[i]@,
        names(strings).len() == strings.len(),
        0 <= i < strings.len() ==> names(strings)[i] == strings[i]@,
        as_frames(frames).len() == frames.len(),
        0 <= i < frames.len() ==> as_frames(frames)[i] == frames[i],
        texts(strings).len() == strings.len(),
        0 <= i < strings.len() ==> texts(strings)[i] == strings[i]@,
{
}

/// Effects and actions come in their order.
pub proof fn effect_contents(effects: Seq<Effect>, actions: Seq<PlayerAction>, i: int)
    ensures
        effect_models(effects).len() == effects.len(),
        0 <= i < effects.len() ==> effect_models(effects)[i] == effects[i]@,
        action_models(actions).len() == actions.len(),
        0 <= i < actions.len() ==> action_models(actions)[i] == actions[i]@,
{
}

/// An effect asks for what it says.
pub proof fn effect_content(effect: Effect)
    ensures
        match effect {
            Effect::PickFile => effect@ is PickFile,
            Effect::Load => effect@ is Load,
            Effect::PickCuePath => effect@ is PickCuePath,
            Effect::WriteCue { text, count } => effect@ == (EffectModel::WriteCue {
                text: text@,
                count: count as nat,
            }),
            Effect::PickFlacDir => effect@ is PickFlacDir,
            Effect::ExportTracks { tracks, album_artist, album_title } => effect@ == (
            EffectModel::ExportTracks {
                tracks: export_models(tracks@),
                album_artist: album_artist@,
                album_title: album_title@,
            }),
            Effect::PickFlacCuePath => effect@ is PickFlacCuePath,
            Effect::ExportSingle { tracks, album_artist, album_title } => effect@ == (
            EffectModel::ExportSingle {
                tracks: export_models(tracks@),
                album_artist: album_artist@,
                album_title: album_title@,
            }),
            Effect::Play { start } => effect@ == (EffectModel::Play { start: start as nat }),
            Effect::StopPlayer => effect@ is StopPlayer,
            Effect::SetDevice(name) => effect@ == EffectModel::SetDevice(name_view(name)),
            Effect::ZoomFit => effect@ is ZoomFit,
            Effect::Redraw => effect@ is Redraw,
            Effect::ShowPlayhead => effect@ is ShowPlayhead,
            Effect::ShiftView => effect@ is ShiftView,
        },
{
}

/// An editor is what its fields say.
pub proof fn app_content(app: App)
    ensures
        app.audio is None ==> app@.audio is None,
        app.audio matches Some(audio) ==> app@.audio == Some(*audio),
        app@.loading == app.loading,
        app@.exporting == app.exporting,
        app@.markers == marker_models(app.markers@),
        app@.next_id == app.next_id,
        app@.album_title == app.album_title@,
        app@.album_artist == app.album_artist@,
        app@.pending_cue == cue_view(app.pending_cue),
        app@.playhead == app.playhead,
        app@.playing == app.playing,
        app.play_anchor is None ==> app@.play_anchor is None,
        app.play_anchor matches Some(frame) ==> app@.play_anchor == Some(frame as nat),
        app@.devices == names(app.devices@),
        app@.selected_device == app.selected_device@,
        app@.read_only == app.read_only,
        app@.status == app.status@,
{
}

/// The playback thread is what its fields say, and does what its actions say.
pub proof fn player_content(player: Player, action: PlayerAction)
    ensures
        player@.device == name_view(player.device),
        player@.stream == player.stream,
        player@.sink == player.sink,
        player@.waiting == player.waiting,
        match action {
            PlayerAction::StopSink => action@ is StopSink,
            PlayerAction::DropStream => action@ is DropStream,
            PlayerAction::OpenStream(name) => action@ == ActionModel::OpenStream(name_view(name)),
            PlayerAction::MakeSink => action@ is MakeSink,
        },
{
}

/// A name is its characters, where there is one. Of a list, the names are those that there are, in
/// their order.
pub proof fn name_contents(devices: Seq<Option<String>>, name: String)
    ensures
        name_view(None) is None,
        name_view(Some(name)) == Some(name@),
        known_names(Seq::empty()).len() == 0,
        known_names(devices.push(None)) == known_names(devices),
        known_names(devices.push(Some(name))) == known_names(devices).push(name@),
{
    assert(devices.push(None).drop_last() =~= devices);
    assert(devices.push(Some(name)).drop_last() =~= devices);
}

/// The outcome of an attempt to encode is its bytes, or what it says.
pub proof fn outcome_contents(bytes: Vec<u8>, e: String)
    ensures
        outcome(Ok(bytes)) == Ok::<Seq<u8>, Seq<char>>(bytes@),
        outcome(Err(e)) == Err::<Seq<u8>, Seq<char>>(e@),
{
}

} // verus!

//! What holds of the editor.

use vstd::prelude::*;

use crate::app::{
    sheet_tracks, step_keeps_inv, suggested_name, AppModel, Choice, EffectModel, Loaded, Message,
    Target, Time,
};
use crate::audio::{time_text, AudioData};
use crate::cue::{cue_model, cue_sheet, escaped, is_default_title_spec, TrackModel};
use crate::cue_laws::{
    default_title_is_escaped, default_title_is_its_own, one_line, one_line_tracks,
    ordered_sheet_reads_back,
};
use crate::detect::{track_starts, DetectParams};
use crate::export_laws::{files_are_those_with_samples, follow_on, joined, split_is_whole};
use crate::flac_export::{file_of, files_of, FileModel};
use crate::markers::{
    ascend, blank_marker, in_order, index_of, lemma_count_before, lemma_in_order_ascends,
    lemma_index_of, lemma_without, loaded_marker, next_start, tracks_of, without, MarkerModel,
};
use crate::number::{decimal, zero_padded};
use crate::playback_laws::frames_are_whole;
use crate::sort::{
    insert_sorted, is_sorted, lemma_insert_somewhere, sorted_is_stable, sorted_of_sorted,
    with_key,
};

verus! {

/// The state after messages, one after the other.
pub open spec fn run(app: AppModel, messages: Seq<Message>) -> AppModel
    decreases messages.len(),
{
    if messages.len() == 0 {
        app
    } else {
        run(app, messages.drop_last()).step(messages.last()).0
    }
}

/// Whether each of the messages goes with the state it meets.
pub open spec fn accepts_all(app: AppModel, messages: Seq<Message>) -> bool
    decreases messages.len(),
{
    messages.len() > 0 ==> {
        &&& accepts_all(app, messages.drop_last())
        &&& run(app, messages.drop_last()).accepts(messages.last())
    }
}

/// In every state that an empty editor can get to, markers are in the order of their positions,
/// no two share an id, and all ids lie below the next one.
pub proof fn markers_stay_in_order(
    output_devices: Seq<Seq<char>>,
    messages: Seq<Message>,
    i: int,
    j: int,
)
    requires
        accepts_all(AppModel::initial(output_devices), messages),
        0 <= i <= j < run(AppModel::initial(output_devices), messages).markers.len(),
    ensures
        ({
            let app = run(AppModel::initial(output_devices), messages);
            &&& app.markers[i].pos <= app.markers[j].pos
            &&& i < j ==> app.markers[i].id != app.markers[j].id
            &&& app.markers[i].id < app.next_id
        }),
{
    runs_keep_inv(AppModel::initial(output_devices), messages);
}

/// However many things happen, the editor stays in order.
pub proof fn runs_keep_inv(app: AppModel, messages: Seq<Message>)
    requires
        app.inv(),
        accepts_all(app, messages),
    ensures
        run(app, messages).inv(),
    decreases messages.len(),
{
    if messages.len() > 0 {
        runs_keep_inv(app, messages.drop_last());
        step_keeps_inv(run(app, messages.drop_last()), messages.last());
    }
}

/// A cue-derived track list opens read-only; raw audio opens editable.
pub proof fn cue_sheets_open_read_only(app: AppModel, loaded: Loaded)
    ensures
        app.step(Message::Loaded(Ok(loaded))).0.read_only == app.pending_cue is Some,
{
}

/// While the tracks are read-only nothing but another recording changes them or the album.
pub proof fn read_only_keeps_tracks(app: AppModel, message: Message)
    requires
        app.read_only,
        !(message matches Message::Loaded(Ok(_))),
    ensures
        ({
            let after = app.step(message).0;
            &&& after.markers == app.markers
            &&& after.next_id == app.next_id
            &&& after.album_title == app.album_title
            &&& after.album_artist == app.album_artist
        }),
{
}

/// Whether a message is meant to change the tracks or the album.
pub open spec fn edits(message: Message) -> bool {
    ||| message is Detect
    ||| message is AddMarkerAtPlayhead
    ||| message is AddMarkerAt
    ||| message is MoveMarker
    ||| message is DeleteMarker
    ||| message is MarkerTitle
    ||| message is MarkerArtist
    ||| message is AlbumTitle
    ||| message is AlbumArtist
}

/// Read-only tracks keep nothing but edits out: whatever else happens has the same effects, and
/// leads to the same state, as where the tracks can be edited.
#[verifier::rlimit(60)]
pub proof fn read_only_drops_edits_only(app: AppModel, message: Message)
    requires
        !edits(message),
    ensures
        ({
            let locked = AppModel { read_only: true, ..app }.step(message);
            let open = AppModel { read_only: false, ..app }.step(message);
            &&& locked.1 == open.1
            &&& locked.0 == AppModel { read_only: locked.0.read_only, ..open.0 }
        }),
{
    let locked = AppModel { read_only: true, ..app };
    let open = AppModel { read_only: false, ..app };
    match message {
        Message::NextTrack => {
            let start = next_start(app.markers, app.playhead);
            assert(locked.step(message) == locked.went_to(start));
            assert(open.step(message) == open.went_to(start));
        },
        Message::PrevTrack => {
            assert(locked.previous_start() == open.previous_start());
        },
        Message::GotoMarker(_) => {},
        Message::Loaded(_) => {},
        Message::CuePathChosen(_) => {},
        Message::FlacDirChosen(_) => {
            assert(locked.tracks() == open.tracks());
        },
        Message::FlacCuePathChosen(_) => {
            assert(locked.tracks() == open.tracks());
        },
        Message::DeviceSelected(_) => {},
        _ => {},
    }
}

/// Whether tracks can be edited changes when it is asked for, and with a recording that is read;
/// nothing else changes it.
pub proof fn lock_is_set_by_hand(app: AppModel, message: Message)
    ensures
        message matches Message::SetReadOnly(read_only) ==> app.step(message) == (
            AppModel { read_only, ..app },
            Seq::<EffectModel>::empty(),
        ),
        !(message is SetReadOnly) && !(message matches Message::Loaded(Ok(_))) ==> app.step(
            message,
        ).0.read_only == app.read_only,
{
}

/// Editing messages are dropped while the tracks are read-only: the state stays as it is, and
/// nothing is asked for.
pub proof fn read_only_drops_edits(app: AppModel, message: Message)
    requires
        app.read_only,
        edits(message),
    ensures
        app.step(message) == (app, Seq::<EffectModel>::empty()),
{
}

/// Going on leads forward to the start of a track, or nowhere.
pub proof fn next_track_goes_forward(app: AppModel)
    ensures
        ({
            let after = app.step(Message::NextTrack).0;
            after.playhead == app.playhead || after.playhead > app.playhead
        }),
        (forall|i: int|
            0 <= i < app.markers.len() ==> (#[trigger] app.markers[i]).pos <= app.playhead)
            ==> app.step(Message::NextTrack).0 == app,
{
}

/// Going back leads back to the start of a track, or nowhere.
pub proof fn prev_track_goes_back(app: AppModel)
    ensures
        app.step(Message::PrevTrack).0.playhead <= app.playhead,
{
    if let Some(start) = app.current_start() {
        if let Some(before) = app.start_before(start) {
            assert(before <= start);
        }
    }
}

/// Playing and pausing alternate.
pub proof fn play_pause_alternates(app: AppModel)
    requires
        app.audio is Some,
    ensures
        app.step(Message::PlayPause).0.playing == !app.playing,
        !app.playing && app.play_anchor is None ==> app.step(Message::PlayPause).0.step(
            Message::PlayPause,
        ).0 == app,
{
}

/// A step of the playhead never leads outside the recording, and inside it leads where it is
/// meant to.
pub proof fn seeking_stays_inside(app: AppModel, frame: usize)
    requires
        app.audio is Some,
    ensures
        ({
            let after = app.step(Message::SeekVisible(frame)).0;
            &&& after.playhead <= after.frames()
            &&& frame <= app.frames() ==> after.playhead == frame
        }),
{
}

/// Playback ends at the end of the recording: a tick never moves the playhead behind it, and
/// stops playback there.
pub proof fn ticks_stay_inside(app: AppModel, elapsed: usize)
    requires
        app.inv(),
        app.playing,
    ensures
        ({
            let after = app.step(Message::Tick(elapsed)).0;
            &&& after.playhead <= app.frames()
            &&& after.playing <==> after.playhead < app.frames()
        }),
{
}

/// The loaded file is never written over: choosing it only tells the user so.
pub proof fn loaded_file_is_kept(app: AppModel)
    ensures
        ({
            let (after, effects) = app.step(Message::FlacCuePathChosen(Target::LoadedFile));
            &&& effects == Seq::<EffectModel>::empty()
            &&& after == AppModel { status: after.status, ..app }
        }),
{
}

proof fn lemma_in_order_contains(markers: Seq<MarkerModel>, marker: MarkerModel)
    requires
        markers.contains(marker),
    ensures
        in_order(markers).contains(marker),
{
    broadcast use vstd::seq_lib::group_to_multiset_ensures;

    sorted_is_stable(markers, |m: MarkerModel| m.pos as int);
    assert(in_order(markers).to_multiset().contains(marker));
}

/// An added marker is there, at its frame and with an id that no other has; the others stay.
pub proof fn added_marker_is_there(app: AppModel, frame: usize, time: Time, i: int)
    requires
        app.inv(),
        app.audio is Some,
        !app.read_only,
        0 <= i < app.markers.len(),
    ensures
        ({
            let after = app.step(Message::AddMarkerAt(frame, time)).0.markers;
            &&& after.contains(
                MarkerModel {
                    id: app.next_id,
                    pos: frame as nat,
                    title: Seq::empty(),
                    artist: Seq::empty(),
                },
            )
            &&& after.contains(app.markers[i])
            &&& app.markers[i].id != app.next_id
        }),
{
    let new = blank_marker(app.next_id, frame as nat);
    let all = app.markers.push(new);
    assert(all[all.len() - 1] == new);
    assert(all[i] == app.markers[i]);
    lemma_in_order_contains(all, new);
    lemma_in_order_contains(all, app.markers[i]);
}

proof fn lemma_without_none(markers: Seq<MarkerModel>, id: nat)
    requires
        forall|i: int| 0 <= i < markers.len() ==> (#[trigger] markers[i]).id != id,
    ensures
        without(markers, id) == markers,
    decreases markers.len(),
{
    if markers.len() > 0 {
        let rest = markers.drop_last();
        assert forall|i: int| 0 <= i < rest.len() implies (#[trigger] rest[i]).id != id by {
            assert(rest[i] == markers[i]);
        }
        lemma_without_none(rest, id);
        assert(markers[markers.len() - 1].id != id);
        assert(rest.push(markers.last()) =~= markers);
    }
}

proof fn lemma_without_inserted(markers: Seq<MarkerModel>, j: int, marker: MarkerModel)
    requires
        0 <= j <= markers.len(),
        forall|i: int| 0 <= i < markers.len() ==> (#[trigger] markers[i]).id != marker.id,
    ensures
        without(markers.insert(j, marker), marker.id) == markers,
    decreases markers.len(),
{
    let all = markers.insert(j, marker);
    if j == markers.len() {
        assert(all.drop_last() =~= markers);
        lemma_without_none(markers, marker.id);
    } else {
        let rest = markers.drop_last();
        assert forall|i: int| 0 <= i < rest.len() implies (#[trigger] rest[i]).id != marker.id by {
            assert(rest[i] == markers[i]);
        }
        lemma_without_inserted(rest, j, marker);
        assert(all.drop_last() =~= rest.insert(j, marker));
        assert(all.last() == markers[markers.len() - 1]);
        assert(rest.push(markers.last()) =~= markers);
    }
}

/// Adding a marker and deleting it again gives the old markers back, in their order; but for the
/// id that is used up and what the user is told, all is as before.
pub proof fn added_marker_can_be_deleted(app: AppModel, message: Message)
    requires
        app.inv(),
        app.audio is Some,
        !app.read_only,
        message is AddMarkerAt || message is AddMarkerAtPlayhead,
        app.accepts(message),
    ensures
        ({
            let added = app.step(message).0;
            let after = added.step(Message::DeleteMarker(app.next_id as u64)).0;
            &&& after.markers == app.markers
            &&& after.next_id == app.next_id + 1
            &&& after == AppModel { next_id: after.next_id, status: after.status, ..app }
        }),
{
    let key = |m: MarkerModel| m.pos as int;
    let frame = match message {
        Message::AddMarkerAt(frame, _) => frame as nat,
        _ => app.playhead,
    };
    let new = blank_marker(app.next_id, frame);
    let all = app.markers.push(new);
    assert(is_sorted(app.markers, key));
    sorted_of_sorted(app.markers, key);
    assert(all.drop_last() =~= app.markers);
    let j = lemma_insert_somewhere(app.markers, new, key);
    assert(in_order(all) == app.markers.insert(j, new));
    lemma_without_inserted(app.markers, j, new);
}

/// A moved marker is at its new frame, with the title and the artist it had.
pub proof fn moved_marker_is_there(app: AppModel, id: u64, frame: usize, i: int)
    requires
        app.inv(),
        !app.read_only,
        0 <= i < app.markers.len(),
        app.markers[i].id == id,
    ensures
        app.step(Message::MoveMarker(id, frame)).0.markers.contains(
            MarkerModel { pos: frame as nat, ..app.markers[i] },
        ),
{
    lemma_index_of(app.markers, id as nat);
    let k = index_of(app.markers, id as nat);
    assert(k is Some);
    assert(k->0 == i);
    let placed = app.with_marker(
        id as nat,
        |m: MarkerModel| MarkerModel { pos: frame as nat, ..m },
    ).markers;
    assert(placed[i] == MarkerModel { pos: frame as nat, ..app.markers[i] });
    lemma_in_order_contains(placed, placed[i]);
}

/// A deleted marker is gone, and only that.
pub proof fn deleted_marker_is_gone(app: AppModel, id: u64, i: int)
    requires
        app.inv(),
        !app.read_only,
        0 <= i < app.step(Message::DeleteMarker(id)).0.markers.len(),
    ensures
        app.step(Message::DeleteMarker(id)).0.markers[i].id != id,
        app.markers.contains(app.step(Message::DeleteMarker(id)).0.markers[i]),
{
    lemma_without(app.markers, id as nat, app.next_id);
}

proof fn lemma_tracks_follow_on(markers: Seq<MarkerModel>, frames: nat)
    requires
        ascend(markers),
        markers.len() > 0 ==> markers.last().pos <= frames,
    ensures
        follow_on(tracks_of(markers, frames)),
{
    let tracks = tracks_of(markers, frames);
    assert forall|i: int| 0 <= i < tracks.len() implies (#[trigger] tracks[i]).start_frame
        <= tracks[i].end_frame by {
        if i + 1 < markers.len() {
            assert(markers[i].pos <= markers[i + 1].pos);
        }
    }
}

/// Splitting loses nothing: the files of the editor's tracks, one after the other, hold the
/// samples of the recording from the first marker to its last whole frame.
#[verifier::rlimit(40)]
pub proof fn export_is_whole(app: AppModel, audio: AudioData)
    requires
        app.audio == Some(audio),
        app.inv(),
        app.markers.len() > 0,
        app.markers.last().pos <= app.frames(),
    ensures
        joined(
            audio.samples@,
            files_of(
                app.tracks(),
                app.album_artist,
                audio.channels as nat,
                audio.samples@.len(),
                app.tracks().len(),
            ),
        ) == audio.samples@.subrange(
            (app.markers[0].pos * audio.channels) as int,
            (app.frames() * audio.channels) as int,
        ),
{
    let channels = audio.channels as nat;
    let len = audio.samples@.len();
    let tracks = app.tracks();
    lemma_tracks_follow_on(app.markers, app.frames());
    split_is_whole(audio.samples@, tracks, app.album_artist, channels);
    vstd::arithmetic::div_mod::lemma_fundamental_div_mod(len as int, channels as int);
    assert(app.frames() * channels <= len) by (nonlinear_arith)
        requires
            len == channels * app.frames() + len as int % channels as int,
            len as int % channels as int >= 0,
    ;
    assert(app.markers[0].pos <= app.markers.last().pos);
    assert(app.markers[0].pos * channels <= app.frames() * channels) by (nonlinear_arith)
        requires
            app.markers[0].pos <= app.frames(),
    ;
}

/// Reopening a cue sheet restores the tracks: a marker comes back with its title and its artist,
/// empty ones included, their double quotes made single. A title that is the placeholder for its
/// track, and an artist that is the album's, come back empty.
pub proof fn reopened_sheet_restores_tracks(
    file_name: Seq<char>,
    album_artist: Seq<char>,
    album_title: Seq<char>,
    tracks: Seq<TrackModel>,
    i: int,
    pos: nat,
    frames: nat,
)
    requires
        one_line(file_name),
        one_line(album_artist),
        one_line(album_title),
        one_line_tracks(tracks),
        is_sorted(tracks, |t: TrackModel| t.start as int),
        0 <= i < tracks.len(),
    ensures
        cue_model(cue_sheet(file_name, album_artist, album_title, tracks)) matches Ok(cue)
            && cue.album_artist == escaped(album_artist) && cue.album_title == escaped(album_title)
            && cue.tracks.len() == tracks.len() && ({
            let marker = loaded_marker(
                cue.tracks[i],
                (i + 1) as nat,
                cue.album_artist,
                pos,
                frames,
            );
            let title = escaped(tracks[i].title);
            let artist = escaped(tracks[i].artist);
            &&& marker.title == if is_default_title_spec(title, (i + 1) as nat) {
                Seq::empty()
            } else {
                title
            }
            &&& marker.artist == if artist == escaped(album_artist) {
                Seq::empty()
            } else {
                artist
            }
        }),
{
    ordered_sheet_reads_back(file_name, album_artist, album_title, tracks, i);
    let number = (i + 1) as nat;
    default_title_is_its_own(number, number);
    default_title_is_escaped(number);
    if tracks[i].title.len() == 0 {
        assert(escaped(tracks[i].title) =~= Seq::<char>::empty());
    }
    if tracks[i].artist.len() == 0 {
        assert(escaped(tracks[i].artist) =~= Seq::<char>::empty());
    }
}

/// An editor starts empty: nothing loaded, nothing marked, nothing playing, to play on the
/// default device, which is offered before the others.
pub proof fn editor_starts_empty(output_devices: Seq<Seq<char>>)
    ensures
        ({
            let app = AppModel::initial(output_devices);
            &&& app.audio is None && app.pending_cue is None
            &&& !app.loading && !app.exporting && !app.playing && !app.read_only
            &&& app.markers.len() == 0
            &&& app.album_title.len() == 0 && app.album_artist.len() == 0
            &&& app.playhead == 0 && app.play_anchor is None
            &&& app.selected_device == "System default"@
            &&& app.devices.len() == output_devices.len() + 1
            &&& app.devices[0] == "System default"@
            &&& forall|i: int|
                0 <= i < output_devices.len() ==> #[trigger] app.devices[i + 1]
                    == output_devices[i]
            &&& app.status == "Open a WAV or FLAC file to get started."@
        }),
{
    let app = AppModel::initial(output_devices);
    assert forall|i: int| 0 <= i < output_devices.len() implies #[trigger] app.devices[i + 1]
        == output_devices[i] by {}
}

/// A file can be asked for whenever none is being read.
pub proof fn files_are_asked_for(app: AppModel)
    ensures
        app.loading ==> app.step(Message::OpenFile) == (app, Seq::<EffectModel>::empty()),
        !app.loading ==> app.step(Message::OpenFile) == (app, seq![EffectModel::PickFile]),
{
}

/// A chosen recording is read, and a cue sheet that waited is forgotten.
pub proof fn chosen_recordings_are_read(app: AppModel, name: String)
    ensures
        app.step(Message::FileChosen(Choice::Audio(name))) == (
            AppModel {
                loading: true,
                pending_cue: None,
                status: "Loading "@ + name@ + "…"@,
                ..app
            },
            seq![EffectModel::Load],
        ),
{
}

/// The recording of a chosen cue sheet is read, and the sheet waits for it. What is wrong with a
/// sheet is told, and nothing is read.
pub proof fn chosen_sheets_wait(app: AppModel, name: String, e: String)
    ensures
        app.step(Message::FileChosen(Choice::Cue(Ok(name)))) == (
            AppModel { loading: true, status: "Loading "@ + name@ + "…"@, ..app },
            seq![EffectModel::Load],
        ),
        app.step(Message::FileChosen(Choice::Cue(Err(e)))) == (
            AppModel { status: e@, ..app },
            Seq::<EffectModel>::empty(),
        ),
        app.step(Message::FileChosen(Choice::Cancelled)) == (app, Seq::<EffectModel>::empty()),
{
}

/// What is read replaces what was there: the recording is the new one, the playhead is at its
/// start, nothing plays, and all of it is shown.
pub proof fn loading_starts_anew(app: AppModel, loaded: Loaded)
    ensures
        ({
            let (after, effects) = app.step(Message::Loaded(Ok(loaded)));
            &&& after.audio == Some(*loaded.audio)
            &&& !after.loading && after.pending_cue is None
            &&& after.playhead == 0 && !after.playing && after.play_anchor is None
            &&& after.exporting == app.exporting
            &&& after.devices == app.devices && after.selected_device == app.selected_device
            &&& effects == seq![EffectModel::StopPlayer, EffectModel::ZoomFit]
        }),
{
}

/// A recording without a cue sheet is one untitled track from its start, which can be edited; the
/// album stays.
pub proof fn raw_recordings_are_one_track(app: AppModel, loaded: Loaded)
    requires
        app.pending_cue is None,
    ensures
        ({
            let after = app.step(Message::Loaded(Ok(loaded))).0;
            &&& after.markers == seq![
                MarkerModel { id: 0, pos: 0, title: Seq::empty(), artist: Seq::empty() },
            ]
            &&& after.next_id == 1
            &&& !after.read_only
            &&& after.album_title == app.album_title
            &&& after.album_artist == app.album_artist
        }),
{
}

/// A recording with a cue sheet has the sheet's album and tracks, which cannot be edited: each
/// where the sheet says, but not behind the end, with its title unless it is the placeholder and
/// its artist unless it is the album's.
pub proof fn sheet_recordings_have_its_tracks(app: AppModel, loaded: Loaded, i: int)
    requires
        app.pending_cue is Some,
        0 <= i < app.pending_cue->0.tracks.len(),
    ensures
        ({
            let cue = app.pending_cue->0;
            let after = app.step(Message::Loaded(Ok(loaded))).0;
            let marker = after.markers[i];
            let track = cue.tracks[i];
            &&& after.markers.len() == cue.tracks.len()
            &&& after.next_id == cue.tracks.len()
            &&& after.read_only
            &&& after.album_artist == cue.album_artist
            &&& after.album_title == cue.album_title
            &&& marker.id == i
            &&& loaded.positions@[i] <= after.frames() ==> marker.pos == loaded.positions@[i]
            &&& loaded.positions@[i] > after.frames() ==> marker.pos == after.frames()
            &&& is_default_title_spec(track.title, (i + 1) as nat) ==> marker.title.len() == 0
            &&& !is_default_title_spec(track.title, (i + 1) as nat) ==> marker.title
                == track.title
            &&& track.artist == cue.album_artist ==> marker.artist.len() == 0
            &&& track.artist != cue.album_artist ==> marker.artist == track.artist
        }),
{
}

/// What the user is told of a recording: its name, its properties and how long it lasts.
pub proof fn loading_is_told(app: AppModel, loaded: Loaded)
    ensures
        ({
            let audio = *loaded.audio;
            let info = "Loaded "@ + audio.name@ + " — "@ + decimal(audio.channels as nat)
                + " ch, "@ + decimal(audio.sample_rate as nat) + " Hz, "@ + decimal(
                audio.bits_per_sample as nat,
            ) + " bit, "@ + time_text(loaded.duration.secs as nat, loaded.duration.ms as nat);
            let status = app.step(Message::Loaded(Ok(loaded))).0.status;
            match app.pending_cue {
                None => status == info,
                Some(cue) => status == info + (" — "@ + decimal(cue.tracks.len())
                    + " tracks from cue sheet"@),
            }
        }),
{
}

/// What could not be read changes nothing but that nothing is being read and no sheet waits.
pub proof fn failed_loading_keeps_editor(app: AppModel, e: String)
    ensures
        app.step(Message::Loaded(Err(e))) == (
            AppModel {
                loading: false,
                pending_cue: None,
                status: "Load failed: "@ + e@,
                ..app
            },
            Seq::<EffectModel>::empty(),
        ),
{
}

/// Opening a recording after a cue sheet takes nothing from the sheet.
pub proof fn recordings_forget_sheets(app: AppModel, name: String, loaded: Loaded)
    ensures
        ({
            let after = app.step(Message::FileChosen(Choice::Audio(name))).0.step(
                Message::Loaded(Ok(loaded)),
            ).0;
            &&& after.markers.len() == 1
            &&& !after.read_only
            &&& after.album_title == app.album_title
            &&& after.album_artist == app.album_artist
        }),
{
}

/// Detected tracks replace the markers: one untitled marker for each start, in their order, with
/// ids that were not used before. All else stays.
pub proof fn detected_starts_are_marked(
    app: AppModel,
    quiet: Vec<bool>,
    params: DetectParams,
    threshold: String,
    min_gap: String,
    i: int,
)
    requires
        app.audio is Some,
        !app.read_only,
        0 <= i < track_starts(quiet@, app.audio->0.sample_rate, params).len(),
    ensures
        ({
            let starts = track_starts(quiet@, app.audio->0.sample_rate, params);
            let (after, effects) = app.step(
                Message::Detect { quiet, params, threshold, min_gap },
            );
            &&& after.markers.len() == starts.len()
            &&& after.markers[i] == MarkerModel {
                id: (app.next_id + i) as nat,
                pos: starts[i],
                title: Seq::empty(),
                artist: Seq::empty(),
            }
            &&& after == AppModel {
                markers: after.markers,
                next_id: app.next_id + starts.len(),
                status: "Detected "@ + decimal(starts.len()) + " tracks (threshold "@ + threshold@
                    + " dB, min gap "@ + min_gap@ + " s). Existing markers were replaced."@,
                ..app
            }
            &&& effects == seq![EffectModel::Redraw]
        }),
{
}

/// Without a recording nothing is detected and nothing marked.
pub proof fn nothing_to_mark_without_recording(app: AppModel, message: Message)
    requires
        app.audio is None,
        message is Detect || message is AddMarkerAt || message is AddMarkerAtPlayhead,
    ensures
        app.step(message) == (app, Seq::<EffectModel>::empty()),
{
}

proof fn lemma_sorted_insert(markers: Seq<MarkerModel>, new: MarkerModel) -> (j: int)
    requires
        ascend(markers),
    ensures
        0 <= j <= markers.len(),
        in_order(markers.push(new)) == markers.insert(j, new),
        forall|i: int| 0 <= i < j ==> (#[trigger] markers[i]).pos <= new.pos,
        forall|i: int| j <= i < markers.len() ==> (#[trigger] markers[i]).pos > new.pos,
{
    let key = |m: MarkerModel| m.pos as int;
    assert(is_sorted(markers, key));
    sorted_of_sorted(markers, key);
    assert(markers.push(new).drop_last() =~= markers);
    lemma_insert_place(markers, new)
}

proof fn lemma_insert_place(markers: Seq<MarkerModel>, new: MarkerModel) -> (j: int)
    requires
        ascend(markers),
    ensures
        0 <= j <= markers.len(),
        insert_sorted(markers, new, |m: MarkerModel| m.pos as int) == markers.insert(j, new),
        forall|i: int| 0 <= i < j ==> (#[trigger] markers[i]).pos <= new.pos,
        forall|i: int| j <= i < markers.len() ==> (#[trigger] markers[i]).pos > new.pos,
    decreases markers.len(),
{
    if markers.len() > 0 && markers.last().pos > new.pos {
        let rest = markers.drop_last();
        let j = lemma_insert_place(rest, new);
        assert(rest.insert(j, new).push(markers.last()) =~= markers.insert(j, new));
        assert forall|i: int| 0 <= i < j implies (#[trigger] markers[i]).pos <= new.pos by {
            assert(rest[i] == markers[i]);
        }
        assert forall|i: int| j <= i < markers.len() implies (#[trigger] markers[i]).pos
            > new.pos by {
            if i < rest.len() {
                assert(rest[i] == markers[i]);
            }
        }
        j
    } else {
        assert(markers.push(new) =~= markers.insert(markers.len() as int, new));
        assert forall|i: int| 0 <= i < markers.len() implies (#[trigger] markers[i]).pos
            <= new.pos by {
            assert(markers[i].pos <= markers[markers.len() - 1].pos);
        }
        markers.len() as int
    }
}

/// Whether `after` is `markers` with `new` put in: behind those that do not lie behind it, and
/// before the others.
pub open spec fn is_put_in(
    markers: Seq<MarkerModel>,
    new: MarkerModel,
    after: Seq<MarkerModel>,
    j: int,
) -> bool {
    &&& 0 <= j <= markers.len()
    &&& after == markers.insert(j, new)
    &&& forall|i: int| 0 <= i < j ==> (#[trigger] markers[i]).pos <= new.pos
    &&& forall|i: int| j <= i < markers.len() ==> (#[trigger] markers[i]).pos > new.pos
}

/// A marker is added where it belongs, untitled and with a new id; the others stay as they are.
/// One that is added at the playhead is added at the frame where the playhead is.
pub proof fn added_marker_is_put_in(app: AppModel, frame: usize, time: Time)
    requires
        app.inv(),
        app.audio is Some,
        !app.read_only,
    ensures
        ({
            let (after, effects) = app.step(Message::AddMarkerAt(frame, time));
            let new = MarkerModel {
                id: app.next_id,
                pos: frame as nat,
                title: Seq::empty(),
                artist: Seq::empty(),
            };
            &&& exists|j: int| is_put_in(app.markers, new, after.markers, j)
            &&& after == AppModel {
                markers: after.markers,
                next_id: app.next_id + 1,
                status: "Marker added at "@ + time_text(time.secs as nat, time.ms as nat) + "."@,
                ..app
            }
            &&& effects == seq![EffectModel::Redraw]
            &&& app.playhead == frame ==> app.step(Message::AddMarkerAtPlayhead(time)) == (
                after,
                effects,
            )
        }),
{
    let new = blank_marker(app.next_id, frame as nat);
    let j = lemma_sorted_insert(app.markers, new);
    let after = app.step(Message::AddMarkerAt(frame, time)).0;
    assert(is_put_in(app.markers, new, after.markers, j));
}

/// Moving a marker changes its position and nothing else: it keeps its id, its title and its
/// artist, the others keep all they have, and they are in order again, those at one frame as they
/// were.
pub proof fn moving_changes_one_position(app: AppModel, id: u64, frame: usize, k: int, pos: int)
    requires
        app.inv(),
        !app.read_only,
        0 <= k < app.markers.len(),
        app.markers[k].id == id,
    ensures
        ({
            let (after, effects) = app.step(Message::MoveMarker(id, frame));
            let moved = MarkerModel { pos: frame as nat, ..app.markers[k] };
            &&& after == AppModel { markers: after.markers, ..app }
            &&& after.markers.to_multiset() == app.markers.update(k, moved).to_multiset()
            &&& ascend(after.markers)
            &&& with_key(after.markers, |m: MarkerModel| m.pos as int, pos) == with_key(
                app.markers.update(k, moved),
                |m: MarkerModel| m.pos as int,
                pos,
            )
            &&& effects == seq![EffectModel::Redraw]
        }),
{
    lemma_count_before(app.markers, id as nat, k as nat);
    let placed = app.with_marker(
        id as nat,
        |m: MarkerModel| MarkerModel { pos: frame as nat, ..m },
    ).markers;
    assert(placed =~= app.markers.update(k, MarkerModel { pos: frame as nat, ..app.markers[k] }));
    sorted_is_stable(placed, |m: MarkerModel| m.pos as int);
    lemma_in_order_ascends(placed);
}

/// A marker that is not there cannot be changed.
pub proof fn missing_markers_are_not_changed(app: AppModel, id: u64, frame: usize, s: String)
    requires
        app.inv(),
        !app.read_only,
        forall|i: int| 0 <= i < app.markers.len() ==> (#[trigger] app.markers[i]).id != id,
    ensures
        app.step(Message::MoveMarker(id, frame)).0 == app,
        app.step(Message::DeleteMarker(id)).0 == app,
        app.step(Message::MarkerTitle(id, s)).0 == app,
        app.step(Message::MarkerArtist(id, s)).0 == app,
{
    let key = |m: MarkerModel| m.pos as int;
    lemma_count_before(app.markers, id as nat, app.markers.len());
    assert(is_sorted(app.markers, key));
    sorted_of_sorted(app.markers, key);
    lemma_without_none(app.markers, id as nat);
}

/// Deleting a marker takes out that one; the others stay, in their order.
pub proof fn deleting_takes_one_out(app: AppModel, id: u64, k: int)
    requires
        app.inv(),
        !app.read_only,
        0 <= k < app.markers.len(),
        app.markers[k].id == id,
    ensures
        app.step(Message::DeleteMarker(id)) == (
            AppModel { markers: app.markers.remove(k), ..app },
            seq![EffectModel::Redraw],
        ),
{
    let rest = app.markers.remove(k);
    assert forall|i: int| 0 <= i < rest.len() implies (#[trigger] rest[i]).id
        != app.markers[k].id by {
        if i < k {
            assert(rest[i] == app.markers[i]);
        } else {
            assert(rest[i] == app.markers[i + 1]);
        }
    }
    lemma_without_inserted(rest, k, app.markers[k]);
    assert(rest.insert(k, app.markers[k]) =~= app.markers);
}

/// A track is called what it is given as its title, and is by whom it is given as its artist;
/// nothing else changes.
pub proof fn tracks_are_named(app: AppModel, id: u64, s: String, k: int)
    requires
        app.inv(),
        !app.read_only,
        0 <= k < app.markers.len(),
        app.markers[k].id == id,
    ensures
        app.step(Message::MarkerTitle(id, s)) == (
            AppModel {
                markers: app.markers.update(k, MarkerModel { title: s@, ..app.markers[k] }),
                ..app
            },
            Seq::<EffectModel>::empty(),
        ),
        app.step(Message::MarkerArtist(id, s)) == (
            AppModel {
                markers: app.markers.update(k, MarkerModel { artist: s@, ..app.markers[k] }),
                ..app
            },
            Seq::<EffectModel>::empty(),
        ),
{
    lemma_count_before(app.markers, id as nat, k as nat);
}

/// The album is called what it is given as its title, and is by whom it is given as its artist;
/// nothing else changes.
pub proof fn album_is_named(app: AppModel, s: String)
    requires
        !app.read_only,
    ensures
        app.step(Message::AlbumTitle(s)) == (
            AppModel { album_title: s@, ..app },
            Seq::<EffectModel>::empty(),
        ),
        app.step(Message::AlbumArtist(s)) == (
            AppModel { album_artist: s@, ..app },
            Seq::<EffectModel>::empty(),
        ),
{
}

/// The tracks to export are the markers: each from its own marker to the next one, the last to
/// the end of the recording, with the title and the artist of its own marker.
pub proof fn exported_tracks_are_markers(app: AppModel, i: int)
    requires
        0 <= i < app.markers.len(),
    ensures
        app.tracks().len() == app.markers.len(),
        app.tracks()[i].start_frame == app.markers[i].pos,
        i + 1 < app.markers.len() ==> app.tracks()[i].end_frame == app.markers[i + 1].pos,
        i + 1 == app.markers.len() ==> app.tracks()[i].end_frame == app.frames(),
        app.tracks()[i].title == app.markers[i].title,
        app.tracks()[i].artist == app.markers[i].artist,
{
}

/// The file of a track carries that track's names: its own title and artist, or the placeholder
/// and the album's artist where it has none, and its own number.
pub proof fn exported_files_carry_their_names(
    app: AppModel,
    audio: AudioData,
    files: Seq<FileModel>,
    i: int,
)
    requires
        app.audio == Some(audio),
        audio.wf(),
        0 <= i < app.markers.len(),
        app.markers[i].pos < app.tracks()[i].end_frame <= app.frames(),
        files == files_of(
            app.tracks(),
            app.album_artist,
            audio.channels as nat,
            audio.samples@.len(),
            app.tracks().len(),
        ),
    ensures
        exists|k: int|
            #![trigger files[k]]
            {
                let marker = app.markers[i];
                let file = files[k];
                &&& 0 <= k < files.len()
                &&& file.number == i + 1
                &&& marker.title.len() > 0 ==> file.title == marker.title
                &&& marker.title.len() == 0 ==> file.title == "Track "@ + zero_padded(
                    (i + 1) as nat,
                    2,
                )
                &&& marker.artist.len() > 0 ==> file.artist == marker.artist
                &&& marker.artist.len() == 0 ==> file.artist == app.album_artist
                &&& file.begin == marker.pos * audio.channels
                &&& file.end == app.tracks()[i].end_frame * audio.channels
            },
{
    let channels = audio.channels as nat;
    let len = audio.samples@.len();
    let track = app.tracks()[i];
    let end = track.end_frame;
    frames_are_whole(app);
    assert(end * channels <= app.frames() * channels) by (nonlinear_arith)
        requires
            end <= app.frames(),
    ;
    assert(track.start_frame * channels < end * channels) by (nonlinear_arith)
        requires
            track.start_frame < end,
            channels > 0,
    ;
    files_are_those_with_samples(
        app.tracks(),
        app.album_artist,
        channels,
        len,
        app.tracks().len(),
        i,
    );
    let file = file_of(track, (i + 1) as nat, app.album_artist, channels, len);
    assert(files.contains(file));
    let k = choose|k: int| 0 <= k < files.len() && files[k] == file;
    assert(files[k] == file);
}

/// An export can be asked for where there is a recording with markers that is not being exported.
pub proof fn exports_are_asked_for(app: AppModel)
    ensures
        ({
            let ready = app.audio is Some && app.markers.len() > 0 && !app.exporting;
            &&& app.can_export() == ready
            &&& app.step(Message::ExportFlac) == (
                app,
                if ready {
                    seq![EffectModel::PickFlacDir]
                } else {
                    Seq::empty()
                },
            )
            &&& app.step(Message::ExportFlacCue) == (
                app,
                if ready {
                    seq![EffectModel::PickFlacCuePath]
                } else {
                    Seq::empty()
                },
            )
        }),
        app.audio is None ==> app.step(Message::ExportCue) == (app, Seq::<EffectModel>::empty()),
        app.audio is Some && app.markers.len() == 0 ==> app.step(Message::ExportCue) == (
            AppModel { status: "No markers to export."@, ..app },
            Seq::<EffectModel>::empty(),
        ),
        app.audio is Some && app.markers.len() > 0 ==> app.step(Message::ExportCue) == (
            app,
            seq![EffectModel::PickCuePath],
        ),
{
}

/// What is exported is the album that was typed in: its artist as its artist, its title as its
/// title, and the tracks of the markers.
pub proof fn exports_carry_album(app: AppModel, artist: String, title: String)
    requires
        app.audio is Some,
        !app.read_only,
    ensures
        ({
            let named = app.step(Message::AlbumArtist(artist)).0.step(
                Message::AlbumTitle(title),
            ).0;
            let tracks = app.tracks();
            &&& named.step(Message::FlacCuePathChosen(Target::OtherFile)) == (
                AppModel {
                    exporting: true,
                    status: "Exporting FLAC with embedded cue sheet…"@,
                    ..named
                },
                seq![
                    EffectModel::ExportSingle {
                        tracks,
                        album_artist: artist@,
                        album_title: title@,
                    },
                ],
            )
            &&& named.step(Message::FlacDirChosen(true)) == (
                AppModel {
                    exporting: true,
                    status: "Exporting "@ + decimal(app.markers.len()) + " FLAC files…"@,
                    ..named
                },
                seq![
                    EffectModel::ExportTracks {
                        tracks,
                        album_artist: artist@,
                        album_title: title@,
                    },
                ],
            )
        }),
{
}

/// What is exported carries the editor's album, whether it was typed in or read from a cue sheet.
pub proof fn exports_carry_editors_album(app: AppModel)
    requires
        app.audio is Some,
    ensures
        app.step(Message::FlacCuePathChosen(Target::OtherFile)).1 == seq![
            EffectModel::ExportSingle {
                tracks: app.tracks(),
                album_artist: app.album_artist,
                album_title: app.album_title,
            },
        ],
        app.step(Message::FlacDirChosen(true)).1 == seq![
            EffectModel::ExportTracks {
                tracks: app.tracks(),
                album_artist: app.album_artist,
                album_title: app.album_title,
            },
        ],
{
}

/// Nothing is exported where nothing was chosen, or there is nothing to export.
pub proof fn nothing_chosen_exports_nothing(app: AppModel, starts: Vec<u64>, target: Target)
    ensures
        app.step(Message::FlacDirChosen(false)) == (app, Seq::<EffectModel>::empty()),
        app.step(Message::CuePathChosen(None)) == (app, Seq::<EffectModel>::empty()),
        app.step(Message::FlacCuePathChosen(Target::Cancelled)) == (
            app,
            Seq::<EffectModel>::empty(),
        ),
        app.audio is None ==> {
            &&& app.step(Message::FlacDirChosen(true)) == (app, Seq::<EffectModel>::empty())
            &&& app.step(Message::CuePathChosen(Some(starts))) == (
                app,
                Seq::<EffectModel>::empty(),
            )
            &&& app.step(Message::FlacCuePathChosen(target)) == (app, Seq::<EffectModel>::empty())
        },
{
}

/// An export that has ended, well or not, leaves the editor ready for the next, and the user is
/// told what came of it.
pub proof fn ended_exports_are_told(app: AppModel, n: usize, name: String, e: String)
    ensures
        app.step(Message::FlacDone(Ok(n))) == (
            AppModel {
                exporting: false,
                status: "Exported "@ + decimal(n as nat) + " FLAC files."@,
                ..app
            },
            Seq::<EffectModel>::empty(),
        ),
        app.step(Message::FlacDone(Err(e))) == (
            AppModel { exporting: false, status: "FLAC export failed: "@ + e@, ..app },
            Seq::<EffectModel>::empty(),
        ),
        app.step(Message::FlacCueDone(Ok(name))) == (
            AppModel {
                exporting: false,
                status: "Wrote "@ + name@ + " with embedded cue sheet."@,
                ..app
            },
            Seq::<EffectModel>::empty(),
        ),
        app.step(Message::FlacCueDone(Err(e))) == (
            AppModel { exporting: false, status: "FLAC+CUE export failed: "@ + e@, ..app },
            Seq::<EffectModel>::empty(),
        ),
        app.step(Message::CueWritten(n, Ok(name))) == (
            AppModel {
                status: "Wrote "@ + name@ + " ("@ + decimal(n as nat) + " tracks)."@,
                ..app
            },
            Seq::<EffectModel>::empty(),
        ),
        app.step(Message::CueWritten(n, Err(e))) == (
            AppModel { status: e@, ..app },
            Seq::<EffectModel>::empty(),
        ),
{
}

/// The cue sheet that is written is that of the recording, the album and the markers, and
/// reading it gives them back: the name of the recording, the album, and for each marker its
/// title or the placeholder, its artist or the album's, and its start, with double quotes made
/// single.
pub proof fn written_cue_is_that_of_markers(app: AppModel, starts: Vec<u64>, i: int)
    requires
        app.audio is Some,
        starts@.len() == app.markers.len(),
        one_line(app.audio->0.name@),
        one_line(app.album_artist),
        one_line(app.album_title),
        forall|k: int|
            0 <= k < app.markers.len() ==> one_line((#[trigger] app.markers[k]).title)
                && one_line(app.markers[k].artist),
        forall|a: int, b: int|
            0 <= a <= b < starts@.len() ==> #[trigger] starts@[a] <= #[trigger] starts@[b],
        0 <= i < app.markers.len(),
    ensures
        ({
            let (after, effects) = app.step(Message::CuePathChosen(Some(starts)));
            let marker = app.markers[i];
            &&& after == app
            &&& effects.len() == 1
            &&& effects[0] is WriteCue
            &&& effects[0]->count == app.markers.len()
            &&& cue_model(effects[0]->text) is Ok
            &&& ({
                let cue = cue_model(effects[0]->text)->Ok_0;
                &&& cue.audio_file == escaped(app.audio->0.name@)
                &&& cue.album_artist == escaped(app.album_artist)
                &&& cue.album_title == escaped(app.album_title)
                &&& cue.tracks.len() == app.markers.len()
                &&& cue.tracks[i].start == starts@[i]
                &&& cue.tracks[i].title == escaped(
                    if marker.title.len() > 0 {
                        marker.title
                    } else {
                        "Track "@ + zero_padded((i + 1) as nat, 2)
                    },
                )
                &&& cue.tracks[i].artist == escaped(
                    if marker.artist.len() > 0 {
                        marker.artist
                    } else {
                        app.album_artist
                    },
                )
            })
        }),
{
    let tracks = sheet_tracks(app.markers, starts@);
    let name = app.audio->0.name@;
    assert forall|k: int| 0 <= k < tracks.len() implies one_line((#[trigger] tracks[k]).title)
        && one_line(tracks[k].artist) by {
        assert(one_line(app.markers[k].title));
    }
    ordered_sheet_reads_back(name, app.album_artist, app.album_title, tracks, i);
}

/// A file to write is named after the loaded one, or after an album, with its ending.
pub proof fn names_are_suggested(stem: Seq<char>, ending: Seq<char>)
    ensures
        suggested_name(Some(stem), ending) == stem + ending,
        suggested_name(None, ending) == "album"@ + ending,
{
}

} // verus!

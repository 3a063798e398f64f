//! What holds of playback, and of the playhead that follows it.

use vstd::prelude::*;

use crate::app::{AppModel, EffectModel, Message};
use crate::markers::{
    is_next_start, is_start_upto, lemma_count_before, lemma_next_start, lemma_start_upto,
    next_start, start_upto, starts_track, MarkerModel,
};

verus! {

/// The frames of a recording are whole: as many samples as it has channels each, and what is
/// left over makes none. Without a recording there are none.
pub proof fn frames_are_whole(app: AppModel)
    ensures
        app.audio is None ==> app.frames() == 0,
        app.audio matches Some(audio) ==> audio.channels > 0 ==> {
            &&& app.frames() * audio.channels <= audio.samples@.len()
            &&& audio.samples@.len() < (app.frames() + 1) * audio.channels
        },
{
    if let Some(audio) = app.audio {
        if audio.channels > 0 {
            let c = audio.channels as int;
            let n = app.frames() as int;
            vstd::arithmetic::div_mod::lemma_fundamental_div_mod(audio.samples@.len() as int, c);
            assert(n * c == c * n) by (nonlinear_arith);
            assert((n + 1) * c == c * n + c) by (nonlinear_arith);
        }
    }
}

/// While it plays the playhead is where the sound is: as far behind the frame at which playback
/// started as time has passed. At the end of the recording playback stops.
pub proof fn playhead_follows_sound(app: AppModel, frame: nat, elapsed: usize)
    requires
        app.audio is Some,
        app.play_anchor == Some(frame),
    ensures
        frame + elapsed < app.frames() ==> app.step(Message::Tick(elapsed)) == (
            AppModel { playhead: frame + elapsed as nat, ..app },
            seq![EffectModel::ShowPlayhead],
        ),
        frame + elapsed >= app.frames() ==> app.step(Message::Tick(elapsed)) == (
            AppModel { playhead: app.frames(), playing: false, play_anchor: None, ..app },
            seq![EffectModel::StopPlayer],
        ),
{
}

/// Where the playhead is depends on the time that has passed since playback started, not on how
/// often it was looked at; it never falls behind the frame at which playback started.
pub proof fn ticks_do_not_add_up(app: AppModel, frame: nat, first: usize, second: usize)
    requires
        app.audio is Some,
        app.play_anchor == Some(frame),
        frame <= app.frames(),
        first <= second,
    ensures
        ({
            let once = app.step(Message::Tick(first)).0;
            let later = app.step(Message::Tick(second)).0;
            &&& frame <= once.playhead <= later.playhead
            &&& frame + first < app.frames() ==> once.step(Message::Tick(second)).0 == later
        }),
{
}

/// What plays from a frame on has, some frames later, got that much further.
pub proof fn playing_gets_on(app: AppModel, frame: usize, elapsed: usize)
    requires
        app.audio is Some,
        !app.playing,
        frame + elapsed < app.frames(),
    ensures
        ({
            let playing = app.step(Message::SetPlayhead(frame)).0.step(Message::PlayPause).0;
            &&& playing.playing
            &&& playing.playhead == frame
            &&& playing.step(Message::Tick(elapsed)).0.playhead == frame + elapsed
        }),
{
}

/// Where nothing plays, time passes without effect.
pub proof fn silence_has_no_ticks(app: AppModel, elapsed: usize)
    requires
        app.play_anchor is None || app.audio is None,
    ensures
        app.step(Message::Tick(elapsed)) == (app, Seq::<EffectModel>::empty()),
{
}

/// Playback starts at the playhead, or at the end of the recording where the playhead lies behind
/// it; nothing but what plays changes.
pub proof fn playing_starts_at_playhead(app: AppModel, start: nat)
    requires
        app.audio is Some,
        !app.playing,
        app.playhead <= app.frames() ==> start == app.playhead,
        app.playhead > app.frames() ==> start == app.frames(),
    ensures
        app.step(Message::PlayPause) == (
            AppModel { playing: true, play_anchor: Some(start), ..app },
            seq![EffectModel::Play { start }],
        ),
{
}

/// Without a recording nothing is played.
pub proof fn nothing_plays_without_recording(app: AppModel)
    requires
        app.audio is None,
        !app.playing,
    ensures
        app.step(Message::PlayPause) == (app, Seq::<EffectModel>::empty()),
{
}

/// Pausing and stopping end what plays, and leave the playhead where it is.
pub proof fn stopping_keeps_playhead(app: AppModel)
    ensures
        app.step(Message::Stop) == (
            AppModel { playing: false, play_anchor: None, ..app },
            seq![EffectModel::StopPlayer],
        ),
        app.playing ==> app.step(Message::PlayPause) == app.step(Message::Stop),
{
}

/// The playhead goes where it is put. What plays goes on from there, not behind the end; what
/// does not play stays silent.
pub proof fn playhead_goes_where_put(app: AppModel, frame: usize, start: nat)
    requires
        frame <= app.frames() ==> start == frame,
        frame > app.frames() ==> start == app.frames(),
    ensures
        app.playing && app.audio is Some ==> app.step(Message::SetPlayhead(frame)) == (
            AppModel { playhead: frame as nat, play_anchor: Some(start), ..app },
            seq![EffectModel::Play { start }],
        ),
        !app.playing ==> app.step(Message::SetPlayhead(frame)) == (
            AppModel { playhead: frame as nat, ..app },
            Seq::<EffectModel>::empty(),
        ),
{
}

/// A step of the playhead goes where it is meant to, but not behind the end. The view scrolls
/// along; what plays goes on from there.
pub proof fn seeking_goes_on_from_there(app: AppModel, frame: usize, start: nat)
    requires
        app.audio is Some,
        frame <= app.frames() ==> start == frame,
        frame > app.frames() ==> start == app.frames(),
    ensures
        app.playing ==> app.step(Message::SeekVisible(frame)) == (
            AppModel { playhead: start, play_anchor: Some(start), ..app },
            seq![EffectModel::ShiftView, EffectModel::Play { start }],
        ),
        !app.playing ==> app.step(Message::SeekVisible(frame)) == (
            AppModel { playhead: start, ..app },
            seq![EffectModel::ShiftView],
        ),
{
    assert(seq![EffectModel::ShiftView] + seq![EffectModel::Play { start }] =~= seq![
        EffectModel::ShiftView,
        EffectModel::Play { start },
    ]);
    assert(seq![EffectModel::ShiftView] + Seq::<EffectModel>::empty() =~= seq![
        EffectModel::ShiftView,
    ]);
}

/// Without a recording the playhead does not step.
pub proof fn nothing_to_seek_without_recording(app: AppModel, frame: usize)
    requires
        app.audio is None,
    ensures
        app.step(Message::SeekVisible(frame)) == (app, Seq::<EffectModel>::empty()),
{
}

/// Going to a track plays it: the playhead is at its marker, and playback starts there.
pub proof fn tracks_play_from_their_marker(app: AppModel, id: u64, k: int, start: nat)
    requires
        app.audio is Some,
        0 <= k < app.markers.len(),
        app.markers[k].id == id,
        forall|i: int| 0 <= i < k ==> (#[trigger] app.markers[i]).id != id,
        app.markers[k].pos <= app.frames() ==> start == app.markers[k].pos,
        app.markers[k].pos > app.frames() ==> start == app.frames(),
    ensures
        app.step(Message::GotoMarker(id)) == (
            AppModel {
                playhead: app.markers[k].pos,
                playing: true,
                play_anchor: Some(start),
                ..app
            },
            seq![EffectModel::ShowPlayhead, EffectModel::Redraw, EffectModel::Play { start }],
        ),
{
    lemma_count_before(app.markers, id as nat, k as nat);
    assert(seq![EffectModel::ShowPlayhead, EffectModel::Redraw] + seq![
        EffectModel::Play { start },
    ] =~= seq![EffectModel::ShowPlayhead, EffectModel::Redraw, EffectModel::Play { start }]);
}

/// There is no going to a marker that is not there.
pub proof fn missing_markers_play_nothing(app: AppModel, id: u64)
    requires
        forall|i: int| 0 <= i < app.markers.len() ==> (#[trigger] app.markers[i]).id != id,
    ensures
        app.step(Message::GotoMarker(id)) == (app, Seq::<EffectModel>::empty()),
{
    lemma_count_before(app.markers, id as nat, app.markers.len());
}

/// What comes of going to the start of a track: the playhead is there and in view, and what
/// plays goes on from there.
pub open spec fn arrives_at(app: AppModel, outcome: (AppModel, Seq<EffectModel>), pos: nat) -> bool {
    let start = if pos <= app.frames() {
        pos
    } else {
        app.frames()
    };
    if app.playing && app.audio is Some {
        outcome == (
            AppModel { playhead: pos, play_anchor: Some(start), ..app },
            seq![EffectModel::ShowPlayhead, EffectModel::Play { start }],
        )
    } else {
        outcome == (AppModel { playhead: pos, ..app }, seq![EffectModel::ShowPlayhead])
    }
}

proof fn lemma_arrives(app: AppModel, pos: nat)
    requires
        app.playing ==> app.audio is Some,
    ensures
        arrives_at(app, app.moved_to(pos), pos),
{
    let start = AppModel { playhead: pos, ..app }.start();
    assert(seq![EffectModel::ShowPlayhead] + seq![EffectModel::Play { start }] =~= seq![
        EffectModel::ShowPlayhead,
        EffectModel::Play { start },
    ]);
    assert(seq![EffectModel::ShowPlayhead] + Seq::<EffectModel>::empty() =~= seq![
        EffectModel::ShowPlayhead,
    ]);
}

/// Going on leads to the nearest marker behind the playhead.
pub proof fn next_track_is_nearest(app: AppModel, k: int)
    requires
        app.inv(),
        0 <= k < app.markers.len(),
        app.markers[k].pos > app.playhead,
        forall|i: int|
            0 <= i < app.markers.len() && (#[trigger] app.markers[i]).pos > app.playhead
                ==> app.markers[k].pos <= app.markers[i].pos,
    ensures
        arrives_at(app, app.step(Message::NextTrack), app.markers[k].pos),
{
    assert(starts_track(app.markers, app.markers[k].pos));
    assert(is_next_start(app.markers, app.playhead, app.markers[k].pos));
    lemma_next_start(app.markers, app.playhead, app.markers[k].pos);
    lemma_arrives(app, app.markers[k].pos);
}

/// From the last track there is no going on.
pub proof fn last_track_has_no_next(app: AppModel)
    requires
        forall|i: int|
            0 <= i < app.markers.len() ==> (#[trigger] app.markers[i]).pos <= app.playhead,
    ensures
        app.step(Message::NextTrack) == (app, Seq::<EffectModel>::empty()),
{
    assert(next_start(app.markers, app.playhead) is None);
}

/// Whether the marker at `k` is the last one at a frame up to `limit`.
pub open spec fn is_last_upto(markers: Seq<MarkerModel>, limit: int, k: int) -> bool {
    &&& 0 <= k < markers.len()
    &&& markers[k].pos <= limit
    &&& forall|i: int|
        0 <= i < markers.len() && (#[trigger] markers[i]).pos <= limit ==> markers[i].pos
            <= markers[k].pos
}

proof fn lemma_last_upto(markers: Seq<MarkerModel>, limit: nat, k: int)
    requires
        is_last_upto(markers, limit as int, k),
    ensures
        start_upto(markers, limit) == Some(markers[k].pos),
{
    assert(starts_track(markers, markers[k].pos));
    assert(is_start_upto(markers, limit, markers[k].pos));
    lemma_start_upto(markers, limit, markers[k].pos);
}

/// More than three seconds into a track, going back leads to its start.
pub proof fn prev_track_restarts(app: AppModel, k: int)
    requires
        app.inv(),
        app.audio is Some,
        is_last_upto(app.markers, app.playhead as int, k),
        app.playhead - app.markers[k].pos > 3 * app.audio->0.sample_rate,
    ensures
        arrives_at(app, app.step(Message::PrevTrack), app.markers[k].pos),
{
    lemma_last_upto(app.markers, app.playhead, k);
    lemma_arrives(app, app.markers[k].pos);
}

/// Within the first three seconds of a track, going back leads to the start of the track before
/// it.
pub proof fn prev_track_goes_to_one_before(app: AppModel, k: int, j: int)
    requires
        app.inv(),
        app.audio is Some,
        is_last_upto(app.markers, app.playhead as int, k),
        app.playhead - app.markers[k].pos <= 3 * app.audio->0.sample_rate,
        is_last_upto(app.markers, app.markers[k].pos - 1, j),
    ensures
        arrives_at(app, app.step(Message::PrevTrack), app.markers[j].pos),
{
    lemma_last_upto(app.markers, app.playhead, k);
    lemma_last_upto(app.markers, (app.markers[k].pos - 1) as nat, j);
    lemma_arrives(app, app.markers[j].pos);
}

/// Within the first three seconds of the first track, going back leads to its start.
pub proof fn prev_track_stays_in_first(app: AppModel, k: int)
    requires
        app.inv(),
        app.audio is Some,
        is_last_upto(app.markers, app.playhead as int, k),
        forall|i: int|
            0 <= i < app.markers.len() ==> (#[trigger] app.markers[i]).pos >= app.markers[k].pos,
    ensures
        arrives_at(app, app.step(Message::PrevTrack), app.markers[k].pos),
{
    let start = app.markers[k].pos;
    lemma_last_upto(app.markers, app.playhead, k);
    if start > 0 {
        assert(start_upto(app.markers, (start - 1) as nat) is None);
    }
    lemma_arrives(app, start);
}

/// Before the first track, and without a recording, there is no going back.
pub proof fn nothing_before_first_track(app: AppModel)
    requires
        app.audio is None || forall|i: int|
            0 <= i < app.markers.len() ==> (#[trigger] app.markers[i]).pos > app.playhead,
    ensures
        app.step(Message::PrevTrack) == (app, Seq::<EffectModel>::empty()),
{
    if app.audio is Some {
        assert(start_upto(app.markers, app.playhead) is None);
    }
}

/// Selecting a device stops what plays, and later sounds go to it: to the device of that name,
/// or to the default one.
pub proof fn selected_device_is_asked_for(app: AppModel, name: String)
    ensures
        app.step(Message::DeviceSelected(name)) == (
            AppModel { selected_device: name@, playing: false, play_anchor: None, ..app },
            seq![
                EffectModel::StopPlayer,
                EffectModel::SetDevice(
                    if name@ == "System default"@ {
                        None
                    } else {
                        Some(name@)
                    },
                ),
            ],
        ),
{
}

} // verus!

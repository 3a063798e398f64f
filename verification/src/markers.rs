//! Markers: where the tracks of a recording start.

use vstd::prelude::*;

use crate::cue::{is_default_title_spec, CueModel, TrackModel};
use crate::cue::{is_default_title, ParsedCue};
use crate::detect::as_frames;
use crate::flac_export::{export_models, ExportModel, ExportTrack};
use crate::sort::{
    lemma_insert_somewhere, lemma_sorted_map, sort_by_rank, sorted, sorted_is_stable, Ranked,
};
use crate::text::{eq_chars, to_chars};

verus! {

/// The start of a track.
pub struct Marker {
    pub id: u64,
    /// The frame at which the track starts.
    pub pos: usize,
    pub title: String,
    /// Empty where it is the album's artist.
    pub artist: String,
}

/// The content of a [`Marker`].
pub struct MarkerModel {
    pub id: nat,
    pub pos: nat,
    pub title: Seq<char>,
    pub artist: Seq<char>,
}

impl View for Marker {
    type V = MarkerModel;

    open spec fn view(&self) -> MarkerModel {
        MarkerModel {
            id: self.id as nat,
            pos: self.pos as nat,
            title: self.title@,
            artist: self.artist@,
        }
    }
}

impl Ranked for Marker {
    open spec fn rank(&self) -> int {
        self.pos as int
    }

    fn not_after(&self, other: &Self) -> (r: bool) {
        self.pos <= other.pos
    }
}

/// The content of a list of markers.
pub open spec fn marker_models(markers: Seq<Marker>) -> Seq<MarkerModel> {
    markers.map_values(|m: Marker| m@)
}

/// A marker without a title and an artist.
pub open spec fn blank_marker(id: nat, pos: nat) -> MarkerModel {
    MarkerModel { id, pos, title: Seq::empty(), artist: Seq::empty() }
}

/// A marker without a title and an artist.
pub fn new_marker(id: u64, pos: usize) -> (r: Marker)
    ensures
        r@ == blank_marker(id as nat, pos as nat),
{
    let r = Marker { id, pos, title: String::new(), artist: String::new() };
    assert(r.title@ =~= Seq::<char>::empty());
    assert(r.artist@ =~= Seq::<char>::empty());
    r
}

/// Markers by position, those at the same position in the order they had.
pub open spec fn in_order(markers: Seq<MarkerModel>) -> Seq<MarkerModel> {
    sorted(markers, |m: MarkerModel| m.pos as int)
}

/// Puts markers in the order of their positions.
pub fn sort_markers(markers: &mut Vec<Marker>)
    ensures
        marker_models(final(markers)@) == in_order(marker_models(old(markers)@)),
{
    let ghost before = markers@;
    sort_by_rank(markers);
    proof {
        lemma_sorted_map(
            before,
            |m: Marker| m@,
            |m: Marker| m.rank(),
            |m: MarkerModel| m.pos as int,
        );
    }
}

/// The number of markers before the first one with an id, or all of them without one.
pub open spec fn count_before(markers: Seq<MarkerModel>, id: nat) -> nat
    decreases markers.len(),
{
    if markers.len() == 0 || markers[0].id == id {
        0
    } else {
        1 + count_before(markers.drop_first(), id)
    }
}

/// The index of the first marker with an id.
pub open spec fn index_of(markers: Seq<MarkerModel>, id: nat) -> Option<int> {
    let n = count_before(markers, id);
    if n < markers.len() {
        Some(n as int)
    } else {
        None
    }
}

/// An index from the first marker with this id: it has the id, and none before it has.
pub proof fn lemma_index_of(markers: Seq<MarkerModel>, id: nat)
    ensures
        count_before(markers, id) <= markers.len(),
        index_of(markers, id) matches Some(k) ==> markers[k].id == id,
        forall|i: int|
            0 <= i < count_before(markers, id) ==> (#[trigger] markers[i]).id != id,
    decreases markers.len(),
{
    if markers.len() > 0 && markers[0].id != id {
        let rest = markers.drop_first();
        lemma_index_of(rest, id);
        assert forall|i: int| 0 <= i < count_before(markers, id) implies (
        #[trigger] markers[i]).id != id by {
            if i > 0 {
                assert(markers[i] == rest[i - 1]);
            }
        }
    }
}

/// The first marker with an id is where it is.
pub proof fn lemma_count_before(markers: Seq<MarkerModel>, id: nat, n: nat)
    requires
        n <= markers.len(),
        forall|i: int| 0 <= i < n ==> (#[trigger] markers[i]).id != id,
        n < markers.len() ==> markers[n as int].id == id,
    ensures
        count_before(markers, id) == n,
    decreases n,
{
    if n > 0 {
        let rest = markers.drop_first();
        assert forall|i: int| 0 <= i < n - 1 implies (#[trigger] rest[i]).id != id by {
            assert(rest[i] == markers[i + 1]);
        }
        lemma_count_before(rest, id, (n - 1) as nat);
    }
}

/// The index of the first marker with an id.
pub fn find_marker(markers: &Vec<Marker>, id: u64) -> (r: Option<usize>)
    ensures
        match r {
            Some(k) => index_of(marker_models(markers@), id as nat) == Some(k as int),
            None => index_of(marker_models(markers@), id as nat) is None,
        },
        r matches Some(k) ==> k < markers@.len(),
{
    let ghost models = marker_models(markers@);
    let mut i: usize = 0;
    while i < markers.len()
        invariant
            i <= markers@.len(),
            models == marker_models(markers@),
            forall|k: int| 0 <= k < i ==> (#[trigger] models[k]).id != id,
        decreases markers@.len() - i,
    {
        assert(models[i as int] == markers@[i as int]@);
        if markers[i].id == id {
            proof {
                lemma_count_before(models, id as nat, i as nat);
            }
            return Some(i);
        }
        i = i + 1;
    }
    proof {
        lemma_count_before(models, id as nat, i as nat);
    }
    None
}

/// Markers without those of an id.
pub open spec fn without(markers: Seq<MarkerModel>, id: nat) -> Seq<MarkerModel>
    decreases markers.len(),
{
    if markers.len() == 0 {
        markers
    } else {
        let before = without(markers.drop_last(), id);
        if markers.last().id == id {
            before
        } else {
            before.push(markers.last())
        }
    }
}

/// Removes the markers with an id.
pub fn remove_marker(markers: &mut Vec<Marker>, id: u64)
    ensures
        marker_models(final(markers)@) == without(marker_models(old(markers)@), id as nat),
{
    let ghost all = marker_models(markers@);
    let n: usize = markers.len();
    let ghost mut seen: int = 0;
    let mut i: usize = 0;
    assert(all.take(0) =~= Seq::<MarkerModel>::empty());
    assert(without(all.take(0), id as nat) + all.skip(0) =~= all);
    while i < markers.len()
        invariant
            0 <= seen <= all.len(),
            i == without(all.take(seen), id as nat).len(),
            marker_models(markers@) == without(all.take(seen), id as nat) + all.skip(seen),
        decreases all.len() - seen,
    {
        let ghost kept = without(all.take(seen), id as nat);
        let ghost now = marker_models(markers@);
        proof {
            assert(now.len() == markers@.len());
            assert(seen < all.len());
            assert(now[i as int] == all[seen]);
            assert(markers@[i as int]@ == all[seen]);
            assert(all.take(seen + 1).drop_last() =~= all.take(seen));
        }
        if markers[i].id == id {
            let _ = markers.remove(i);
            assert(marker_models(markers@) =~= now.remove(i as int));
            assert(now.remove(i as int) =~= kept + all.skip(seen + 1));
        } else {
            i = i + 1;
            assert(now =~= kept.push(all[seen]) + all.skip(seen + 1));
        }
        proof {
            seen = seen + 1;
        }
    }
    proof {
        assert(marker_models(markers@).len() == markers@.len());
        assert(all.skip(seen).len() == 0);
        assert(all.take(seen) =~= all);
        assert(marker_models(markers@) =~= without(all, id as nat));
    }
}

/// The marker for track `number` of a cue sheet. Placeholder titles ("Track 01") mean that the
/// title was never filled in; a track performer equal to the album artist stands for an empty
/// artist. A start behind the end of the recording is moved there.
pub open spec fn loaded_marker(
    track: TrackModel,
    number: nat,
    album_artist: Seq<char>,
    pos: nat,
    frames: nat,
) -> MarkerModel {
    MarkerModel {
        id: (number - 1) as nat,
        pos: if pos < frames {
            pos
        } else {
            frames
        },
        title: if is_default_title_spec(track.title, number) {
            Seq::empty()
        } else {
            track.title
        },
        artist: if track.artist == album_artist {
            Seq::empty()
        } else {
            track.artist
        },
    }
}

/// The markers for a cue sheet whose tracks start at these frames.
pub open spec fn loaded_markers(cue: CueModel, positions: Seq<usize>, frames: nat) -> Seq<
    MarkerModel,
> {
    Seq::new(
        cue.tracks.len(),
        |i: int|
            loaded_marker(
                cue.tracks[i],
                (i + 1) as nat,
                cue.album_artist,
                positions[i] as nat,
                frames,
            ),
    )
}

/// The markers for a cue sheet whose tracks start at these frames.
pub fn markers_from_cue(cue: &ParsedCue, positions: &Vec<usize>, frames: usize) -> (r: Vec<Marker>)
    requires
        positions@.len() == cue.tracks@.len(),
    ensures
        marker_models(r@) == loaded_markers(cue@, positions@, frames as nat),
{
    let ghost models = loaded_markers(cue@, positions@, frames as nat);
    let album_artist = to_chars(cue.album_artist.as_str());
    let mut markers: Vec<Marker> = Vec::new();
    let mut i: usize = 0;
    while i < cue.tracks.len()
        invariant
            i <= cue.tracks@.len(),
            positions@.len() == cue.tracks@.len(),
            album_artist@ == cue.album_artist@,
            models == loaded_markers(cue@, positions@, frames as nat),
            markers@.len() == i,
            forall|k: int| 0 <= k < i ==> (#[trigger] markers@[k])@ == models[k],
        decreases cue.tracks@.len() - i,
    {
        let track = &cue.tracks[i];
        assert(cue@.tracks[i as int] == track@);
        let title = if is_default_title(track.title.as_str(), i + 1) {
            String::new()
        } else {
            track.title.clone()
        };
        let own_artist = to_chars(track.artist.as_str());
        let artist = if eq_chars(own_artist.as_slice(), album_artist.as_slice()) {
            String::new()
        } else {
            track.artist.clone()
        };
        let pos: usize = if positions[i] < frames {
            positions[i]
        } else {
            frames
        };
        let marker = Marker { id: i as u64, pos, title, artist };
        assert(marker@.title =~= models[i as int].title);
        assert(marker@.artist =~= models[i as int].artist);
        markers.push(marker);
        i = i + 1;
    }
    assert(marker_models(markers@) =~= models);
    markers
}

/// Blank markers with ascending ids.
pub open spec fn blank_markers(starts: Seq<nat>, first_id: nat) -> Seq<MarkerModel> {
    Seq::new(starts.len(), |i: int| blank_marker((first_id + i) as nat, starts[i]))
}

/// Blank markers with ascending ids.
pub fn markers_from_starts(starts: &Vec<usize>, first_id: u64) -> (r: Vec<Marker>)
    requires
        first_id + starts@.len() <= u64::MAX,
    ensures
        marker_models(r@) == blank_markers(as_frames(starts@), first_id as nat),
{
    let ghost models = blank_markers(as_frames(starts@), first_id as nat);
    let mut markers: Vec<Marker> = Vec::new();
    let mut i: usize = 0;
    while i < starts.len()
        invariant
            i <= starts@.len(),
            first_id + starts@.len() <= u64::MAX,
            models == blank_markers(as_frames(starts@), first_id as nat),
            markers@.len() == i,
            forall|k: int| 0 <= k < i ==> (#[trigger] markers@[k])@ == models[k],
        decreases starts@.len() - i,
    {
        markers.push(new_marker(first_id + i as u64, starts[i]));
        i = i + 1;
    }
    assert(marker_models(markers@) =~= models);
    markers
}

/// Marker list as export tracks: each runs to the next marker or EOF.
pub open spec fn tracks_of(markers: Seq<MarkerModel>, frames: nat) -> Seq<ExportModel> {
    Seq::new(
        markers.len(),
        |i: int|
            ExportModel {
                start_frame: markers[i].pos,
                end_frame: if i + 1 < markers.len() {
                    markers[i + 1].pos
                } else {
                    frames
                },
                title: markers[i].title,
                artist: markers[i].artist,
            },
    )
}

/// Marker list as export tracks: each runs to the next marker or EOF.
pub fn export_list(markers: &Vec<Marker>, frames: usize) -> (r: Vec<ExportTrack>)
    ensures
        export_models(r@) == tracks_of(marker_models(markers@), frames as nat),
{
    let ghost models = tracks_of(marker_models(markers@), frames as nat);
    let mut tracks: Vec<ExportTrack> = Vec::new();
    let mut i: usize = 0;
    while i < markers.len()
        invariant
            i <= markers@.len(),
            models == tracks_of(marker_models(markers@), frames as nat),
            tracks@.len() == i,
            forall|k: int| 0 <= k < i ==> (#[trigger] tracks@[k])@ == models[k],
        decreases markers@.len() - i,
    {
        let marker = &markers[i];
        assert(marker_models(markers@)[i as int] == marker@);
        let end_frame: usize = if i + 1 < markers.len() {
            assert(marker_models(markers@)[i + 1] == markers@[i + 1]@);
            markers[i + 1].pos
        } else {
            frames
        };
        tracks.push(
            ExportTrack {
                start_frame: marker.pos,
                end_frame,
                title: marker.title.clone(),
                artist: marker.artist.clone(),
            },
        );
        i = i + 1;
    }
    assert(export_models(tracks@) =~= models);
    tracks
}

/// Whether a track starts at `pos`.
pub open spec fn starts_track(markers: Seq<MarkerModel>, pos: nat) -> bool {
    exists|i: int| 0 <= i < markers.len() && (#[trigger] markers[i]).pos == pos
}

/// Whether `pos` is where the next track starts: the first start behind the playhead.
pub open spec fn is_next_start(markers: Seq<MarkerModel>, playhead: nat, pos: nat) -> bool {
    &&& starts_track(markers, pos)
    &&& pos > playhead
    &&& forall|i: int|
        0 <= i < markers.len() && (#[trigger] markers[i]).pos > playhead ==> pos <= markers[i].pos
}

/// Whether `pos` is the last start of a track up to the frame `limit`.
pub open spec fn is_start_upto(markers: Seq<MarkerModel>, limit: nat, pos: nat) -> bool {
    &&& starts_track(markers, pos)
    &&& pos <= limit
    &&& forall|i: int|
        0 <= i < markers.len() && (#[trigger] markers[i]).pos <= limit ==> markers[i].pos <= pos
}

/// Where the next track starts.
pub open spec fn next_start(markers: Seq<MarkerModel>, playhead: nat) -> Option<nat> {
    if exists|pos: nat| #[trigger] is_next_start(markers, playhead, pos) {
        Some(choose|pos: nat| #[trigger] is_next_start(markers, playhead, pos))
    } else {
        None
    }
}

/// The last start of a track up to the frame `limit`.
pub open spec fn start_upto(markers: Seq<MarkerModel>, limit: nat) -> Option<nat> {
    if exists|pos: nat| #[trigger] is_start_upto(markers, limit, pos) {
        Some(choose|pos: nat| #[trigger] is_start_upto(markers, limit, pos))
    } else {
        None
    }
}

/// The next start, if there is one, is the only one.
pub proof fn lemma_next_start(markers: Seq<MarkerModel>, playhead: nat, pos: nat)
    requires
        is_next_start(markers, playhead, pos),
    ensures
        next_start(markers, playhead) == Some(pos),
{
    let other = choose|p: nat| #[trigger] is_next_start(markers, playhead, p);
    let i = choose|i: int| 0 <= i < markers.len() && (#[trigger] markers[i]).pos == pos;
    let j = choose|j: int| 0 <= j < markers.len() && (#[trigger] markers[j]).pos == other;
    assert(other <= markers[i].pos);
    assert(pos <= markers[j].pos);
}

/// The last start up to a frame, if there is one, is the only one.
pub proof fn lemma_start_upto(markers: Seq<MarkerModel>, limit: nat, pos: nat)
    requires
        is_start_upto(markers, limit, pos),
    ensures
        start_upto(markers, limit) == Some(pos),
{
    let other = choose|p: nat| #[trigger] is_start_upto(markers, limit, p);
    let i = choose|i: int| 0 <= i < markers.len() && (#[trigger] markers[i]).pos == pos;
    let j = choose|j: int| 0 <= j < markers.len() && (#[trigger] markers[j]).pos == other;
    assert(other >= markers[i].pos);
    assert(pos >= markers[j].pos);
}

/// Where the next track starts.
pub fn find_next_start(markers: &Vec<Marker>, playhead: usize) -> (r: Option<usize>)
    ensures
        match r {
            Some(pos) => next_start(marker_models(markers@), playhead as nat) == Some(pos as nat),
            None => next_start(marker_models(markers@), playhead as nat) is None,
        },
{
    let ghost models = marker_models(markers@);
    let mut best: Option<usize> = None;
    let mut i: usize = 0;
    while i < markers.len()
        invariant
            i <= markers@.len(),
            models == marker_models(markers@),
            match best {
                Some(pos) => is_next_start(models.take(i as int), playhead as nat, pos as nat),
                None => forall|k: int| 0 <= k < i ==> (#[trigger] models[k]).pos <= playhead,
            },
        decreases markers@.len() - i,
    {
        let pos: usize = markers[i].pos;
        let nearer = match best {
            Some(b) => pos < b,
            None => true,
        };
        let ghost now = models.take(i as int);
        let ghost next = models.take(i + 1);
        assert(next[i as int].pos == pos);
        assert(forall|k: int| 0 <= k < i ==> now[k] == #[trigger] next[k]);
        if pos > playhead && nearer {
            best = Some(pos);
            assert(is_next_start(next, playhead as nat, pos as nat));
        } else {
            proof {
                if let Some(b) = best {
                    let w = choose|w: int| 0 <= w < now.len() && (#[trigger] now[w]).pos == b;
                    assert(next[w].pos == b);
                    assert(is_next_start(next, playhead as nat, b as nat));
                }
            }
        }
        i = i + 1;
    }
    assert(models.take(i as int) =~= models);
    proof {
        match best {
            Some(pos) => {
                lemma_next_start(models, playhead as nat, pos as nat);
            },
            None => {
                assert forall|pos: nat| !#[trigger] is_next_start(
                    models,
                    playhead as nat,
                    pos,
                ) by {
                    if starts_track(models, pos) {
                        let k = choose|k: int|
                            0 <= k < models.len() && (#[trigger] models[k]).pos == pos;
                        assert(models[k].pos <= playhead);
                    }
                }
            },
        }
    }
    best
}

/// The last start of a track up to the frame `limit`.
pub fn find_start_upto(markers: &Vec<Marker>, limit: usize) -> (r: Option<usize>)
    ensures
        match r {
            Some(pos) => start_upto(marker_models(markers@), limit as nat) == Some(pos as nat),
            None => start_upto(marker_models(markers@), limit as nat) is None,
        },
        r matches Some(pos) ==> pos <= limit,
{
    let ghost models = marker_models(markers@);
    let mut best: Option<usize> = None;
    let mut i: usize = 0;
    while i < markers.len()
        invariant
            i <= markers@.len(),
            models == marker_models(markers@),
            match best {
                Some(pos) => is_start_upto(models.take(i as int), limit as nat, pos as nat),
                None => forall|k: int| 0 <= k < i ==> (#[trigger] models[k]).pos > limit,
            },
        decreases markers@.len() - i,
    {
        let pos: usize = markers[i].pos;
        let nearer = match best {
            Some(b) => pos > b,
            None => true,
        };
        let ghost now = models.take(i as int);
        let ghost next = models.take(i + 1);
        assert(next[i as int].pos == pos);
        assert(forall|k: int| 0 <= k < i ==> now[k] == #[trigger] next[k]);
        if pos <= limit && nearer {
            best = Some(pos);
            assert(is_start_upto(next, limit as nat, pos as nat));
        } else {
            proof {
                if let Some(b) = best {
                    let w = choose|w: int| 0 <= w < now.len() && (#[trigger] now[w]).pos == b;
                    assert(next[w].pos == b);
                    assert(is_start_upto(next, limit as nat, b as nat));
                }
            }
        }
        i = i + 1;
    }
    assert(models.take(i as int) =~= models);
    proof {
        match best {
            Some(pos) => {
                lemma_start_upto(models, limit as nat, pos as nat);
            },
            None => {
                assert forall|pos: nat| !#[trigger] is_start_upto(
                    models,
                    limit as nat,
                    pos,
                ) by {
                    if starts_track(models, pos) {
                        let k = choose|k: int|
                            0 <= k < models.len() && (#[trigger] models[k]).pos == pos;
                        assert(models[k].pos > limit);
                    }
                }
            },
        }
    }
    best
}

/// Whether no two markers share an id, and all ids lie below a bound.
pub open spec fn distinct_ids(markers: Seq<MarkerModel>, bound: nat) -> bool {
    &&& forall|i: int| 0 <= i < markers.len() ==> (#[trigger] markers[i]).id < bound
    &&& forall|i: int, j: int|
        0 <= i < j < markers.len() ==> (#[trigger] markers[i]).id != (#[trigger] markers[j]).id
}

/// Putting markers in order keeps their ids.
pub proof fn lemma_in_order_ids(markers: Seq<MarkerModel>, bound: nat)
    requires
        distinct_ids(markers, bound),
    ensures
        distinct_ids(in_order(markers), bound),
        in_order(markers).len() == markers.len(),
        forall|i: int|
            0 <= i < in_order(markers).len() ==> markers.contains(
                #[trigger] in_order(markers)[i],
            ),
    decreases markers.len(),
{
    let key = |m: MarkerModel| m.pos as int;
    if markers.len() > 0 {
        let rest = markers.drop_last();
        let x = markers.last();
        assert(distinct_ids(rest, bound));
        lemma_in_order_ids(rest, bound);
        let done = in_order(rest);
        let j = lemma_insert_somewhere(done, x, key);
        let all = done.insert(j, x);
        assert(in_order(markers) == all);
        assert forall|i: int| 0 <= i < done.len() implies (#[trigger] done[i]).id != x.id
            && markers.contains(done[i]) by {
            assert(rest.contains(done[i]));
            let k = choose|k: int| 0 <= k < rest.len() && rest[k] == done[i];
            assert(markers[k] == done[i]);
            assert(markers[k].id != markers[markers.len() - 1].id);
        }
        assert forall|i: int| 0 <= i < all.len() implies (#[trigger] all[i]).id < bound
            && markers.contains(all[i]) by {
            if i < j {
                assert(all[i] == done[i]);
            } else if i > j {
                assert(all[i] == done[i - 1]);
            } else {
                assert(all[i] == markers[markers.len() - 1]);
            }
        }
        assert forall|i: int, k: int| 0 <= i < k < all.len() implies (#[trigger] all[i]).id != (
        #[trigger] all[k]).id by {
            if k < j {
                assert(all[i] == done[i] && all[k] == done[k]);
            } else if k == j {
                assert(all[i] == done[i]);
            } else if i == j {
                assert(all[k] == done[k - 1]);
            } else if i < j {
                assert(all[i] == done[i] && all[k] == done[k - 1]);
            } else {
                assert(all[i] == done[i - 1] && all[k] == done[k - 1]);
            }
        }
    }
}

/// Removing markers keeps the others, and removes all with the id.
pub proof fn lemma_without(markers: Seq<MarkerModel>, id: nat, bound: nat)
    requires
        distinct_ids(markers, bound),
    ensures
        distinct_ids(without(markers, id), bound),
        forall|i: int|
            0 <= i < without(markers, id).len() ==> (#[trigger] without(markers, id)[i]).id != id
                && markers.contains(without(markers, id)[i]),
    decreases markers.len(),
{
    if markers.len() > 0 {
        let rest = markers.drop_last();
        assert(distinct_ids(rest, bound));
        lemma_without(rest, id, bound);
        let kept = without(rest, id);
        assert forall|i: int| 0 <= i < kept.len() implies markers.contains(#[trigger] kept[i])
            && kept[i].id != markers.last().id by {
            assert(rest.contains(kept[i]));
            let k = choose|k: int| 0 <= k < rest.len() && rest[k] == kept[i];
            assert(markers[k] == kept[i]);
            assert(markers[k].id != markers[markers.len() - 1].id);
        }
        assert(markers[markers.len() - 1] == markers.last());
        assert(markers.contains(markers.last()));
    }
}

/// Whether markers are in the order of their positions.
pub open spec fn ascend(markers: Seq<MarkerModel>) -> bool {
    forall|i: int, j: int|
        0 <= i <= j < markers.len() ==> (#[trigger] markers[i]).pos <= (#[trigger] markers[j]).pos
}

/// Putting markers in order makes their positions ascend.
pub proof fn lemma_in_order_ascends(markers: Seq<MarkerModel>)
    ensures
        ascend(in_order(markers)),
{
    let key = |m: MarkerModel| m.pos as int;
    sorted_is_stable(markers, key);
    let s = in_order(markers);
    assert forall|i: int, j: int| 0 <= i <= j < s.len() implies (#[trigger] s[i]).pos <= (
    #[trigger] s[j]).pos by {
        assert(key(s[i]) <= key(s[j]));
    }
}

/// Removing markers keeps the order of the others.
pub proof fn lemma_without_ascends(markers: Seq<MarkerModel>, id: nat)
    requires
        ascend(markers),
    ensures
        ascend(without(markers, id)),
        forall|i: int|
            0 <= i < without(markers, id).len() ==> markers.len() > 0 && (
            #[trigger] without(markers, id)[i]).pos <= markers.last().pos,
    decreases markers.len(),
{
    if markers.len() > 0 {
        let rest = markers.drop_last();
        assert(ascend(rest));
        lemma_without_ascends(rest, id);
        if rest.len() > 0 {
            assert(markers[rest.len() - 1].pos <= markers[markers.len() - 1].pos);
        }
    }
}

/// Whether positions ascend.
pub open spec fn positions_ascend(positions: Seq<usize>) -> bool {
    forall|i: int, j: int|
        0 <= i <= j < positions.len() ==> #[trigger] positions[i] <= #[trigger] positions[j]
}

} // verus!

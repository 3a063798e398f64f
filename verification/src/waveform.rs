//! The waveform display: what it draws, and what the mouse does on it.

use vstd::prelude::*;

use crate::audio::{are_channel_peaks, are_extremes, bin_count, bin_end, frame_count};
use crate::audio::{extremes, lemma_join_extremes, AudioData, PEAK_BIN};
use crate::markers::Marker;
use crate::number::{decimal, zero_padded};
use crate::number::{push_decimal, push_two_digits};
use crate::sample::ZERO;

verus! {

fn wider(a: (i32, i32), b: (i32, i32)) -> (r: (i32, i32))
    ensures
        r.0 == if b.0 < a.0 {
            b.0
        } else {
            a.0
        },
        r.1 == if b.1 > a.1 {
            b.1
        } else {
            a.1
        },
{
    (
        if b.0 < a.0 {
            b.0
        } else {
            a.0
        },
        if b.1 > a.1 {
            b.1
        } else {
            a.1
        },
    )
}

/// Min/max of samples in [begin, end) for one channel, using the peak
/// pyramid when the range is large and raw samples when zoomed in.
pub fn min_max(audio: &AudioData, ch: usize, begin: usize, end: usize) -> (r: (i32, i32))
    requires
        audio.wf(),
        ch < audio.channels,
        end <= audio.frames_spec(),
    ensures
        end <= begin ==> r == (ZERO, ZERO),
        begin < end ==> are_extremes(
            audio.samples@,
            audio.channels as nat,
            ch as int,
            begin as int,
            end as int,
            r.0,
            r.1,
        ),
{
    if end <= begin {
        return (ZERO, ZERO);
    }
    let samples = audio.samples.as_slice();
    let channels: usize = audio.channels;
    // The whole bins of the range.
    let b0: usize = if begin % PEAK_BIN == 0 {
        begin / PEAK_BIN
    } else {
        begin / PEAK_BIN + 1
    };
    let b1: usize = end / PEAK_BIN;
    if b0 >= b1 {
        return extremes(samples, channels, ch, begin, end);
    }
    let ghost frames = audio.frames_spec();
    let ghost c = channels as nat;
    let ghost x = ch as int;
    let peaks = &audio.peaks[ch];
    assert(are_channel_peaks(samples@, c, x, peaks@));
    assert(b1 * PEAK_BIN <= end && b0 * PEAK_BIN >= begin);
    let mut r = extremes(samples, channels, ch, begin, b0 * PEAK_BIN);
    let mut b: usize = b0;
    while b < b1
        invariant
            b0 <= b <= b1,
            begin <= b0 * PEAK_BIN,
            b1 * PEAK_BIN <= end <= frames,
            frames == frame_count(samples@.len(), c),
            c == channels as nat,
            x == ch as int,
            are_channel_peaks(samples@, c, x, peaks@),
            are_extremes(samples@, c, x, begin as int, b * PEAK_BIN, r.0, r.1),
        decreases b1 - b,
    {
        assert(b < bin_count(frames));
        let peak = peaks[b];
        assert(bin_end(b as int, frames) == (b + 1) * PEAK_BIN);
        proof {
            lemma_join_extremes(
                samples@,
                c,
                x,
                begin as int,
                b * PEAK_BIN,
                (b + 1) * PEAK_BIN,
                r,
                peak,
            );
        }
        r = wider(r, peak);
        b = b + 1;
    }
    let tail = extremes(samples, channels, ch, b1 * PEAK_BIN, end);
    proof {
        lemma_join_extremes(samples@, c, x, begin as int, b1 * PEAK_BIN, end as int, r, tail);
    }
    wider(r, tail)
}

/// The frames that a pixel column stands for: from the one at its left edge to the one at
/// its right edge, within the recording and at least one.
pub open spec fn column_range(left: nat, right: nat, frames: nat) -> (nat, nat) {
    let limited = if right < frames {
        right
    } else {
        frames
    };
    (
        left,
        if limited > left {
            limited
        } else {
            left + 1
        },
    )
}

/// Min/max of a pixel column, whose edges lie at the frames `left` and `right`.
pub fn column_extremes(audio: &AudioData, ch: usize, left: usize, right: usize) -> (r: (i32, i32))
    requires
        audio.wf(),
        ch < audio.channels,
        left < audio.frames_spec(),
    ensures
        ({
            let (begin, end) = column_range(left as nat, right as nat, audio.frames_spec());
            &&& begin < end <= audio.frames_spec()
            &&& are_extremes(
                audio.samples@,
                audio.channels as nat,
                ch as int,
                begin as int,
                end as int,
                r.0,
                r.1,
            )
        }),
{
    let frames = audio.frames();
    let end: usize = if right < frames {
        if right > left {
            right
        } else {
            left + 1
        }
    } else {
        frames
    };
    min_max(audio, ch, left, end)
}

/// Minutes and seconds on the time ruler.
pub open spec fn ruler_text(secs: nat) -> Seq<char> {
    decimal(secs / 60) + ":"@ + zero_padded(secs % 60, 2)
}

/// The label of a tick of the time ruler at a whole second.
pub fn ruler_label(secs: u64) -> (r: String)
    ensures
        r@ == ruler_text(secs as nat),
{
    let mut out = String::new();
    push_decimal(&mut out, secs / 60);
    out.append(":");
    push_two_digits(&mut out, secs % 60);
    assert(out@ =~= ruler_text(secs as nat));
    out
}

/// The label of the flag of the marker at `index`: its track number, two digits at least.
pub fn flag_label(index: usize) -> (r: String)
    requires
        index < usize::MAX,
    ensures
        r@ == zero_padded((index + 1) as nat, 2),
{
    let mut out = String::new();
    push_two_digits(&mut out, (index + 1) as u64);
    assert(out@ =~= zero_padded((index + 1) as nat, 2));
    out
}

/// Grab distance for marker flags: the bit pattern of 6 pixels.
pub const HIT_PX: u32 = 0x40c0_0000;

/// Whether the marker at `k` is the one that a press hits: it lies within the grab
/// distance, none lies nearer, and none before it lies as near.
pub open spec fn is_hit(distances: Seq<u32>, k: int) -> bool {
    &&& 0 <= k < distances.len()
    &&& distances[k] <= HIT_PX
    &&& forall|j: int| 0 <= j < distances.len() ==> distances[k] <= #[trigger] distances[j]
    &&& forall|j: int| 0 <= j < k ==> distances[k] < #[trigger] distances[j]
}

/// The marker that a press hits, given how far each one is from it. A distance is the bit
/// pattern of a number of pixels that is not negative; such patterns compare as the numbers.
pub fn hit_marker(markers: &[Marker], distances: &[u32]) -> (r: Option<u64>)
    requires
        markers@.len() == distances@.len(),
    ensures
        match r {
            Some(id) => exists|k: int| #[trigger]
                is_hit(distances@, k) && markers@[k].id == id,
            None => forall|j: int|
                0 <= j < distances@.len() ==> #[trigger] distances@[j] > HIT_PX,
        },
{
    let mut best: Option<usize> = None;
    let mut i: usize = 0;
    while i < distances.len()
        invariant
            i <= distances@.len(),
            match best {
                Some(k) => k < i && is_hit(distances@.take(i as int), k as int),
                None => forall|j: int| 0 <= j < i ==> #[trigger] distances@[j] > HIT_PX,
            },
        decreases distances@.len() - i,
    {
        let d: u32 = distances[i];
        let nearer = match best {
            Some(k) => {
                assert(distances@.take(i as int)[k as int] == distances@[k as int]);
                d < distances[k]
            },
            None => true,
        };
        let ghost before = distances@.take(i as int);
        let ghost after = distances@.take(i + 1);
        assert(forall|j: int| 0 <= j < i ==> before[j] == #[trigger] after[j]);
        if d <= HIT_PX && nearer {
            best = Some(i);
        }
        i = i + 1;
    }
    assert(distances@.take(i as int) =~= distances@);
    match best {
        Some(k) => Some(markers[k].id),
        None => None,
    }
}

/// What the mouse is busy with on the waveform.
pub struct WfState {
    /// The marker that is being dragged.
    pub dragging: Option<u64>,
    /// Whether the playhead follows the mouse.
    pub scrubbing: bool,
    /// Whether a shift key is down.
    pub shift: bool,
}

/// The last press on the lanes.
#[derive(Clone, Copy)]
pub struct LastClick {
    /// How long ago it was.
    pub elapsed_ms: u128,
    /// Whether it was where the mouse is now.
    pub near: bool,
}

/// An event on the waveform. Frames are those under the mouse, `hit` is the marker that a
/// press there hits.
pub enum GestureEvent {
    /// The shift key went down or up.
    Shift(bool),
    /// A button was released outside.
    ReleasedOutside,
    /// The wheel moved: sideways more than up or down, or else up, or else not up.
    Wheel { sideways: bool, up: bool },
    /// The left button went down.
    PressLeft { in_strip: bool, hit: Option<u64>, frame: usize, last_click: Option<LastClick> },
    /// The right button went down.
    PressRight { in_strip: bool, hit: Option<u64> },
    /// The mouse moved.
    Moved { frame: usize },
    /// A button was released.
    Released,
    /// Anything else.
    Other,
}

/// What an event calls for.
pub enum Gesture {
    Nothing,
    /// Pan horizontally, by the wheel's horizontal or vertical movement.
    Pan { sideways: bool },
    /// Zoom around the cursor position, in or out.
    Zoom { closer: bool },
    SetPlayhead(usize),
    AddMarkerAt(usize),
    MoveMarker(u64, usize),
    DeleteMarker(u64),
}

/// What came of an event.
pub struct Response {
    pub gesture: Gesture,
    /// Whether the event was used up.
    pub captured: bool,
    /// Whether this was a press on the lanes, which the next one may make a double click.
    pub clicked: bool,
}

/// How long after a press a second one makes a double click.
pub const DOUBLE_CLICK_MS: u128 = 400;

/// Whether a press makes a double click.
pub open spec fn is_double(last_click: Option<LastClick>) -> bool {
    last_click matches Some(c) && c.elapsed_ms < DOUBLE_CLICK_MS && c.near
}

impl WfState {
    /// Nothing held and nothing pressed.
    pub fn new() -> (r: WfState)
        ensures
            r == (WfState { dragging: None, scrubbing: false, shift: false }),
    {
        WfState { dragging: None, scrubbing: false, shift: false }
    }

    /// The state after an event.
    pub open spec fn after(self, event: GestureEvent) -> WfState {
        match event {
            GestureEvent::Shift(down) => WfState { shift: down, ..self },
            GestureEvent::ReleasedOutside => WfState { dragging: None, scrubbing: false, ..self },
            GestureEvent::Released => WfState { dragging: None, scrubbing: false, ..self },
            GestureEvent::PressLeft { in_strip, hit, frame: _, last_click } => if in_strip {
                if hit is Some {
                    WfState { dragging: hit, ..self }
                } else {
                    self
                }
            } else if is_double(last_click) {
                self
            } else {
                WfState { scrubbing: true, ..self }
            },
            _ => self,
        }
    }

    /// What an event calls for.
    pub open spec fn gesture(self, event: GestureEvent) -> Gesture {
        match event {
            GestureEvent::Wheel { sideways, up } => if self.shift || sideways {
                Gesture::Pan { sideways }
            } else {
                Gesture::Zoom { closer: up }
            },
            GestureEvent::PressLeft { in_strip, hit, frame, last_click } => if in_strip {
                if hit is Some {
                    Gesture::Nothing
                } else {
                    Gesture::SetPlayhead(frame)
                }
            } else if is_double(last_click) {
                Gesture::AddMarkerAt(frame)
            } else {
                Gesture::SetPlayhead(frame)
            },
            GestureEvent::PressRight { in_strip, hit } => match hit {
                Some(id) => if in_strip {
                    Gesture::DeleteMarker(id)
                } else {
                    Gesture::Nothing
                },
                None => Gesture::Nothing,
            },
            GestureEvent::Moved { frame } => match self.dragging {
                Some(id) => Gesture::MoveMarker(id, frame),
                None => if self.scrubbing {
                    Gesture::SetPlayhead(frame)
                } else {
                    Gesture::Nothing
                },
            },
            _ => Gesture::Nothing,
        }
    }

    /// Whether an event is used up: one that calls for something, and a press on a flag.
    pub open spec fn captures(self, event: GestureEvent) -> bool {
        self.gesture(event) != Gesture::Nothing || (event matches GestureEvent::PressLeft { .. })
    }

    /// Takes in an event.
    pub fn update(&mut self, event: GestureEvent) -> (r: Response)
        ensures
            *final(self) == old(self).after(event),
            r.gesture == old(self).gesture(event),
            r.captured == old(self).captures(event),
            r.clicked == (event matches GestureEvent::PressLeft { in_strip, .. } && !in_strip),
    {
        match event {
            GestureEvent::Shift(down) => {
                self.shift = down;
                Response { gesture: Gesture::Nothing, captured: false, clicked: false }
            },
            GestureEvent::ReleasedOutside | GestureEvent::Released => {
                self.dragging = None;
                self.scrubbing = false;
                Response { gesture: Gesture::Nothing, captured: false, clicked: false }
            },
            GestureEvent::Wheel { sideways, up } => {
                let gesture = if self.shift || sideways {
                    Gesture::Pan { sideways }
                } else {
                    Gesture::Zoom { closer: up }
                };
                Response { gesture, captured: true, clicked: false }
            },
            GestureEvent::PressLeft { in_strip, hit, frame, last_click } => {
                if in_strip {
                    if hit.is_some() {
                        self.dragging = hit;
                        Response { gesture: Gesture::Nothing, captured: true, clicked: false }
                    } else {
                        Response {
                            gesture: Gesture::SetPlayhead(frame),
                            captured: true,
                            clicked: false,
                        }
                    }
                } else {
                    let double = match last_click {
                        Some(c) => c.elapsed_ms < DOUBLE_CLICK_MS && c.near,
                        None => false,
                    };
                    if double {
                        Response {
                            gesture: Gesture::AddMarkerAt(frame),
                            captured: true,
                            clicked: true,
                        }
                    } else {
                        self.scrubbing = true;
                        Response {
                            gesture: Gesture::SetPlayhead(frame),
                            captured: true,
                            clicked: true,
                        }
                    }
                }
            },
            GestureEvent::PressRight { in_strip, hit } => {
                if in_strip {
                    if let Some(id) = hit {
                        return Response {
                            gesture: Gesture::DeleteMarker(id),
                            captured: true,
                            clicked: false,
                        };
                    }
                }
                Response { gesture: Gesture::Nothing, captured: false, clicked: false }
            },
            GestureEvent::Moved { frame } => {
                if let Some(id) = self.dragging {
                    Response {
                        gesture: Gesture::MoveMarker(id, frame),
                        captured: true,
                        clicked: false,
                    }
                } else if self.scrubbing {
                    Response { gesture: Gesture::SetPlayhead(frame), captured: true, clicked: false }
                } else {
                    Response { gesture: Gesture::Nothing, captured: false, clicked: false }
                }
            },
            GestureEvent::Other => {
                Response { gesture: Gesture::Nothing, captured: false, clicked: false }
            },
        }
    }

    /// The shape of the mouse pointer, given the marker under it if it is over the strip.
    pub fn mouse_interaction(&self, over: Option<u64>) -> (r: Pointer)
        ensures
            r == if self.dragging is Some {
                Pointer::Grabbing
            } else if over is Some {
                Pointer::Grab
            } else {
                Pointer::Default
            },
    {
        if self.dragging.is_some() {
            Pointer::Grabbing
        } else if over.is_some() {
            Pointer::Grab
        } else {
            Pointer::Default
        }
    }
}

/// A shape of the mouse pointer.
pub enum Pointer {
    Default,
    Grab,
    Grabbing,
}

/// A drag ends where the button is released: afterwards a movement moves nothing.
pub proof fn release_ends_gestures(state: WfState, outside: bool, frame: usize)
    ensures
        ({
            let released = state.after(
                if outside {
                    GestureEvent::ReleasedOutside
                } else {
                    GestureEvent::Released
                },
            );
            released.gesture(GestureEvent::Moved { frame }) == Gesture::Nothing
        }),
{
}

/// A press on a flag grabs its marker: the next movement takes that marker along.
pub proof fn flag_press_drags(
    state: WfState,
    id: u64,
    at: usize,
    last_click: Option<LastClick>,
    frame: usize,
)
    ensures
        ({
            let pressed = state.after(
                GestureEvent::PressLeft { in_strip: true, hit: Some(id), frame: at, last_click },
            );
            pressed.gesture(GestureEvent::Moved { frame }) == Gesture::MoveMarker(id, frame)
        }),
{
}

/// A pixel column stands for the frames from its left edge to its right, as far as there are any,
/// and for one at least.
pub proof fn columns_hold_their_frames(left: nat, right: nat, frames: nat)
    requires
        left < frames,
    ensures
        ({
            let (begin, end) = column_range(left, right, frames);
            &&& begin == left
            &&& begin < end <= frames
            &&& left < right <= frames ==> end == right
            &&& right > frames ==> end == frames
            &&& right <= left ==> end == left + 1
        }),
{
}

/// The ruler tells minutes, and seconds with two digits.
pub proof fn ruler_tells_minutes(m: nat, s: nat)
    requires
        s < 60,
    ensures
        ruler_text(m * 60 + s) == decimal(m) + ":"@ + zero_padded(s, 2),
{
    assert((m * 60 + s) / 60 == m);
    assert((m * 60 + s) % 60 == s);
}

/// A press hits one marker at most: the nearest within six pixels, the first of those as near.
/// There is one wherever some marker lies that near.
pub proof fn presses_hit_the_nearest(distances: Seq<u32>, k: int, j: int)
    requires
        is_hit(distances, k),
        0 <= j < distances.len(),
    ensures
        0 <= k < distances.len(),
        distances[k] <= 0x40c0_0000,
        distances[k] <= distances[j],
        j < k ==> distances[k] < distances[j],
        is_hit(distances, j) ==> j == k,
{
}

/// The shift key is held from when it goes down until it goes up; nothing else changes with it.
pub proof fn shift_is_held(state: WfState, down: bool, event: GestureEvent)
    ensures
        state.after(GestureEvent::Shift(down)) == (WfState { shift: down, ..state }),
        !(event is Shift) ==> state.after(event).shift == state.shift,
        state.gesture(GestureEvent::Shift(down)) == Gesture::Nothing,
{
}

/// The wheel zooms, closer when it goes up; sideways, or with shift held, it pans. It grabs
/// nothing and lets nothing go.
pub proof fn wheel_zooms_and_pans(state: WfState, sideways: bool, up: bool)
    ensures
        ({
            let event = GestureEvent::Wheel { sideways, up };
            &&& sideways || state.shift ==> state.gesture(event) == (Gesture::Pan { sideways })
            &&& !sideways && !state.shift ==> state.gesture(event) == (Gesture::Zoom { closer: up })
            &&& state.after(event) == state
        }),
{
}

/// A press on the strip grabs the flag it hits, and calls for nothing else; where it hits none it
/// puts the playhead there.
pub proof fn strip_presses(
    state: WfState,
    hit: Option<u64>,
    frame: usize,
    last_click: Option<LastClick>,
)
    ensures
        ({
            let event = GestureEvent::PressLeft { in_strip: true, hit, frame, last_click };
            &&& hit is Some ==> state.after(event) == (WfState { dragging: hit, ..state })
                && state.gesture(event) == Gesture::Nothing
            &&& hit is None ==> state.after(event) == state && state.gesture(event)
                == Gesture::SetPlayhead(frame)
            &&& state.captures(event)
        }),
{
}

/// A press on the lanes puts the playhead there, which then follows the mouse. A second one at
/// the same place, less than 400 milliseconds later, adds a marker there.
pub proof fn lane_presses(
    state: WfState,
    hit: Option<u64>,
    frame: usize,
    last_click: Option<LastClick>,
    moved: usize,
)
    ensures
        ({
            let event = GestureEvent::PressLeft { in_strip: false, hit, frame, last_click };
            let double = last_click is Some && last_click->0.elapsed_ms < 400
                && last_click->0.near;
            let after = state.after(event);
            &&& double ==> after == state && state.gesture(event) == Gesture::AddMarkerAt(frame)
            &&& !double ==> after == (WfState { scrubbing: true, ..state }) && state.gesture(event)
                == Gesture::SetPlayhead(frame)
            &&& !double && state.dragging is None ==> after.gesture(
                GestureEvent::Moved { frame: moved },
            ) == Gesture::SetPlayhead(moved)
            &&& state.captures(event)
        }),
{
}

/// A right press on a flag deletes its marker; elsewhere it does nothing.
pub proof fn right_presses(state: WfState, in_strip: bool, hit: Option<u64>)
    ensures
        ({
            let event = GestureEvent::PressRight { in_strip, hit };
            &&& in_strip && hit is Some ==> state.gesture(event) == Gesture::DeleteMarker(hit->0)
            &&& !in_strip || hit is None ==> state.gesture(event) == Gesture::Nothing
            &&& state.after(event) == state
        }),
{
}

/// The mouse takes along what it holds: a marker, or else the playhead, or else nothing.
pub proof fn movements_take_along(state: WfState, frame: usize)
    ensures
        ({
            let event = GestureEvent::Moved { frame };
            &&& state.dragging matches Some(id) ==> state.gesture(event) == Gesture::MoveMarker(
                id,
                frame,
            )
            &&& state.dragging is None && state.scrubbing ==> state.gesture(event)
                == Gesture::SetPlayhead(frame)
            &&& state.dragging is None && !state.scrubbing ==> state.gesture(event)
                == Gesture::Nothing
            &&& state.after(event) == state
        }),
{
}

/// Releasing a button lets go of all that is held, and calls for nothing; other events change
/// nothing.
pub proof fn releases_let_go(state: WfState)
    ensures
        state.after(GestureEvent::Released) == (WfState {
            dragging: None,
            scrubbing: false,
            ..state
        }),
        state.after(GestureEvent::ReleasedOutside) == (WfState {
            dragging: None,
            scrubbing: false,
            ..state
        }),
        state.gesture(GestureEvent::Released) == Gesture::Nothing,
        state.gesture(GestureEvent::ReleasedOutside) == Gesture::Nothing,
        state.after(GestureEvent::Other) == state,
        state.gesture(GestureEvent::Other) == Gesture::Nothing,
{
}

/// An event that calls for something is used up, and so is every left press; others are not.
pub proof fn events_are_used_up(state: WfState, event: GestureEvent)
    ensures
        state.captures(event) <==> event is PressLeft || state.gesture(event) != Gesture::Nothing,
{
}

} // verus!

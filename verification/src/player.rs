//! Playback: the steps of the thread that drives the output stream, and the samples it hands on.

use vstd::prelude::*;

use crate::audio::AudioData;
use crate::text::{eq_chars, to_chars};

verus! {

/// What reaches the playback thread: a command, or what came of an action.
pub enum PlayerEvent {
    /// Play from some frame on.
    Play,
    Stop,
    /// Play on the device of this name; `None` selects the system default device.
    SetDevice(Option<String>),
    /// An output stream was opened, or not.
    StreamOpened(bool),
    /// A sink for the stream was made and filled, or not.
    SinkMade(bool),
}

/// What the playback thread does.
pub enum PlayerAction {
    /// Stop the sink and let go of it.
    StopSink,
    /// Let go of the stream, so that exclusive backends release the device.
    DropStream,
    /// Open a stream on the device of this name, or on the default one.
    OpenStream(Option<String>),
    /// Make a sink for the stream, and fill it with what is to be played.
    MakeSink,
}

/// The content of a [`PlayerAction`].
pub enum ActionModel {
    StopSink,
    DropStream,
    OpenStream(Option<Seq<char>>),
    MakeSink,
}

/// The characters of a name that may be missing.
pub open spec fn name_view(name: Option<String>) -> Option<Seq<char>> {
    match name {
        Some(name) => Some(name@),
        None => None,
    }
}

impl View for PlayerAction {
    type V = ActionModel;

    open spec fn view(&self) -> ActionModel {
        match *self {
            PlayerAction::StopSink => ActionModel::StopSink,
            PlayerAction::DropStream => ActionModel::DropStream,
            PlayerAction::OpenStream(name) => ActionModel::OpenStream(name_view(name)),
            PlayerAction::MakeSink => ActionModel::MakeSink,
        }
    }
}

/// The content of a list of actions.
pub open spec fn action_models(actions: Seq<PlayerAction>) -> Seq<ActionModel> {
    actions.map_values(|a: PlayerAction| a@)
}

/// The state of the playback thread.
pub struct Player {
    /// The device to play on, or the default one.
    pub device: Option<String>,
    /// Whether a stream is open.
    pub stream: bool,
    /// Whether a sink is playing.
    pub sink: bool,
    /// Whether something is to be played once a stream is open.
    pub waiting: bool,
}

/// The content of a [`Player`].
pub struct PlayerModel {
    pub device: Option<Seq<char>>,
    pub stream: bool,
    pub sink: bool,
    pub waiting: bool,
}

impl View for Player {
    type V = PlayerModel;

    open spec fn view(&self) -> PlayerModel {
        PlayerModel {
            device: name_view(self.device),
            stream: self.stream,
            sink: self.sink,
            waiting: self.waiting,
        }
    }
}

impl PlayerModel {
    /// What is done to a sink that is to fall silent.
    pub open spec fn silencing(self) -> Seq<ActionModel> {
        if self.sink {
            seq![ActionModel::StopSink]
        } else {
            Seq::empty()
        }
    }

    /// The state after an event, and what is done.
    pub open spec fn step(self, event: PlayerEvent) -> (PlayerModel, Seq<ActionModel>) {
        match event {
            PlayerEvent::Play => if self.stream {
                (
                    PlayerModel { sink: false, ..self },
                    self.silencing().push(ActionModel::MakeSink),
                )
            } else {
                (
                    PlayerModel { sink: false, waiting: true, ..self },
                    self.silencing().push(ActionModel::OpenStream(self.device)),
                )
            },
            PlayerEvent::Stop => (PlayerModel { sink: false, ..self }, self.silencing()),
            PlayerEvent::SetDevice(name) => (
                PlayerModel {
                    device: name_view(name),
                    stream: false,
                    sink: false,
                    waiting: false,
                },
                (if self.stream {
                    self.silencing().push(ActionModel::DropStream)
                } else {
                    self.silencing()
                }).push(ActionModel::OpenStream(name_view(name))),
            ),
            PlayerEvent::StreamOpened(opened) => (
                PlayerModel { stream: opened, waiting: false, ..self },
                if opened && self.waiting {
                    seq![ActionModel::MakeSink]
                } else {
                    Seq::empty()
                },
            ),
            PlayerEvent::SinkMade(made) => (PlayerModel { sink: made, ..self }, Seq::empty()),
        }
    }
}

impl Player {
    /// A thread that is about to open the default device.
    pub fn new() -> (r: (Player, Vec<PlayerAction>))
        ensures
            r.0@ == (PlayerModel { device: None, stream: false, sink: false, waiting: false }),
            action_models(r.1@) == seq![ActionModel::OpenStream(None)],
    {
        let player = Player { device: None, stream: false, sink: false, waiting: false };
        let mut actions: Vec<PlayerAction> = Vec::new();
        actions.push(PlayerAction::OpenStream(None));
        assert(action_models(actions@) =~= seq![ActionModel::OpenStream(None)]);
        (player, actions)
    }

    fn silence(&mut self) -> (r: Vec<PlayerAction>)
        ensures
            final(self)@ == (PlayerModel { sink: false, ..old(self)@ }),
            action_models(r@) == old(self)@.silencing(),
    {
        let mut actions: Vec<PlayerAction> = Vec::new();
        if self.sink {
            actions.push(PlayerAction::StopSink);
            self.sink = false;
        }
        assert(action_models(actions@) =~= old(self)@.silencing());
        actions
    }

    /// Plays from some frame on, in place of what is playing.
    pub fn play(&mut self) -> (r: Vec<PlayerAction>)
        ensures
            (final(self)@, action_models(r@)) == old(self)@.step(PlayerEvent::Play),
    {
        let mut actions = self.silence();
        let ghost before = actions@;
        if self.stream {
            actions.push(PlayerAction::MakeSink);
            assert(action_models(actions@) =~= action_models(before).push(ActionModel::MakeSink));
        } else {
            self.waiting = true;
            actions.push(PlayerAction::OpenStream(clone_name(&self.device)));
            assert(action_models(actions@) =~= action_models(before).push(
                ActionModel::OpenStream(old(self)@.device),
            ));
        }
        actions
    }

    /// Stops what is playing.
    pub fn stop(&mut self) -> (r: Vec<PlayerAction>)
        ensures
            (final(self)@, action_models(r@)) == old(self)@.step(PlayerEvent::Stop),
    {
        self.silence()
    }

    /// `None` selects the system default device. The old stream is dropped before the new one is
    /// opened, so that exclusive backends release the device first.
    pub fn set_device(&mut self, name: Option<String>) -> (r: Vec<PlayerAction>)
        ensures
            (final(self)@, action_models(r@)) == old(self)@.step(PlayerEvent::SetDevice(name)),
    {
        let mut actions = self.silence();
        let ghost before = actions@;
        if self.stream {
            actions.push(PlayerAction::DropStream);
            assert(action_models(actions@) =~= action_models(before).push(ActionModel::DropStream));
        }
        let ghost between = actions@;
        self.stream = false;
        self.waiting = false;
        actions.push(PlayerAction::OpenStream(clone_name(&name)));
        assert(action_models(actions@) =~= action_models(between).push(
            ActionModel::OpenStream(name_view(name)),
        ));
        self.device = name;
        actions
    }

    /// Takes in an event, and says what is to be done about it.
    pub fn update(&mut self, event: PlayerEvent) -> (r: Vec<PlayerAction>)
        ensures
            (final(self)@, action_models(r@)) == old(self)@.step(event),
    {
        match event {
            PlayerEvent::Play => self.play(),
            PlayerEvent::Stop => self.stop(),
            PlayerEvent::SetDevice(name) => self.set_device(name),
            PlayerEvent::StreamOpened(opened) => {
                let mut actions: Vec<PlayerAction> = Vec::new();
                if opened && self.waiting {
                    actions.push(PlayerAction::MakeSink);
                }
                self.stream = opened;
                self.waiting = false;
                assert(action_models(actions@) =~= old(self)@.step(event).1);
                actions
            },
            PlayerEvent::SinkMade(made) => {
                self.sink = made;
                let actions: Vec<PlayerAction> = Vec::new();
                assert(action_models(actions@) =~= Seq::<ActionModel>::empty());
                actions
            },
        }
    }
}

/// A stopped player is silent: nothing is left to stop.
pub proof fn stop_silences(player: PlayerModel)
    ensures
        !player.step(PlayerEvent::Stop).0.sink,
        player.step(PlayerEvent::Stop).0.silencing() == Seq::<ActionModel>::empty(),
{
}

/// One sound at a time: whatever is playing is stopped before anything else is done about a
/// command.
pub proof fn commands_silence_first(player: PlayerModel, event: PlayerEvent)
    requires
        player.sink,
        event is Play || event is Stop || event is SetDevice,
    ensures
        player.step(event).1.len() > 0,
        player.step(event).1[0] == ActionModel::StopSink,
        !player.step(event).0.sink,
{
}

/// A device that is given up is released before another is opened.
pub proof fn device_is_released_first(player: PlayerModel, name: Option<String>)
    requires
        player.stream,
    ensures
        ({
            let actions = player.step(PlayerEvent::SetDevice(name)).1;
            &&& actions.len() >= 2
            &&& actions[actions.len() - 2] == ActionModel::DropStream
            &&& actions.last() == ActionModel::OpenStream(name_view(name))
        }),
{
}

/// The state after events, one after the other.
pub open spec fn run(player: PlayerModel, events: Seq<PlayerEvent>) -> PlayerModel
    decreases events.len(),
{
    if events.len() == 0 {
        player
    } else {
        run(player, events.drop_last()).step(events.last()).0
    }
}

/// A device that was selected is used until another is: whatever happens in between, a stream
/// is opened on that device only, and playing opens one on it where none is open.
pub proof fn device_is_kept(
    player: PlayerModel,
    name: Option<String>,
    events: Seq<PlayerEvent>,
    event: PlayerEvent,
    opened: ActionModel,
)
    requires
        forall|i: int| 0 <= i < events.len() ==> !(#[trigger] events[i] is SetDevice),
        !(event is SetDevice),
    ensures
        ({
            let before = run(player.step(PlayerEvent::SetDevice(name)).0, events);
            let actions = before.step(event).1;
            &&& before.device == name_view(name)
            &&& opened is OpenStream && actions.contains(opened) ==> opened
                == ActionModel::OpenStream(name_view(name))
            &&& event is Play && !before.stream ==> actions.last() == ActionModel::OpenStream(
                name_view(name),
            )
        }),
    decreases events.len(),
{
    if events.len() > 0 {
        let rest = events.drop_last();
        assert forall|i: int| 0 <= i < rest.len() implies !(#[trigger] rest[i] is SetDevice) by {
            assert(rest[i] == events[i]);
        }
        assert(!(events[events.len() - 1] is SetDevice));
        device_is_kept(player, name, rest, events.last(), opened);
    }
}

/// Whether the default device is opened: where no device is named, or the named one is not
/// found or could not be opened.
pub fn fallback(named: bool, found: Option<usize>, opened: bool) -> (r: bool)
    ensures
        r == (!named || found is None || !opened),
{
    !named || found.is_none() || !opened
}

fn clone_name(name: &Option<String>) -> (r: Option<String>)
    ensures
        name_view(r) == name_view(*name),
{
    match name {
        Some(name) => Some(name.clone()),
        None => None,
    }
}

/// The device of a name, the first if there are several. A device whose name cannot be had is
/// none of them.
pub fn find_device(wanted: &str, devices: &Vec<Option<String>>) -> (r: Option<usize>)
    ensures
        match r {
            Some(k) => {
                &&& k < devices@.len()
                &&& name_view(devices@[k as int]) == Some(wanted@)
                &&& forall|j: int|
                    0 <= j < k ==> name_view(#[trigger] devices@[j]) != Some(wanted@)
            },
            None => forall|j: int|
                0 <= j < devices@.len() ==> name_view(#[trigger] devices@[j]) != Some(wanted@),
        },
{
    let name = to_chars(wanted);
    let mut i: usize = 0;
    while i < devices.len()
        invariant
            i <= devices@.len(),
            name@ == wanted@,
            forall|j: int| 0 <= j < i ==> name_view(#[trigger] devices@[j]) != Some(wanted@),
        decreases devices@.len() - i,
    {
        if let Some(other) = &devices[i] {
            let chars = to_chars(other.as_str());
            if eq_chars(chars.as_slice(), name.as_slice()) {
                return Some(i);
            }
        }
        i = i + 1;
    }
    None
}

/// The names that can be had.
pub open spec fn known_names(devices: Seq<Option<String>>) -> Seq<Seq<char>>
    decreases devices.len(),
{
    if devices.len() == 0 {
        Seq::empty()
    } else {
        match devices.last() {
            Some(name) => known_names(devices.drop_last()).push(name@),
            None => known_names(devices.drop_last()),
        }
    }
}

/// Names of the available audio output devices: those that can be had.
pub fn list_output_devices(devices: &Vec<Option<String>>) -> (r: Vec<String>)
    ensures
        r@.map_values(|s: String| s@) == known_names(devices@),
{
    let mut out: Vec<String> = Vec::new();
    let mut i: usize = 0;
    assert(out@.map_values(|s: String| s@) =~= known_names(devices@.take(0)));
    while i < devices.len()
        invariant
            i <= devices@.len(),
            out@.map_values(|s: String| s@) == known_names(devices@.take(i as int)),
        decreases devices@.len() - i,
    {
        let ghost before = out@;
        if let Some(name) = &devices[i] {
            out.push(name.clone());
            assert(out@.map_values(|s: String| s@) =~= before.map_values(|s: String| s@).push(
                name@,
            ));
        }
        i = i + 1;
        assert(devices@.take(i as int).drop_last() =~= devices@.take(i - 1));
    }
    assert(devices@.take(i as int) =~= devices@);
    out
}

/// The samples of a recording from some point on.
pub struct PcmSource {
    /// The index of the next sample.
    pub idx: usize,
}

impl PcmSource {
    /// The samples from a frame on.
    pub fn new(audio: &AudioData, start_frame: usize) -> (r: PcmSource)
        requires
            start_frame * audio.channels <= usize::MAX,
        ensures
            r.idx == start_frame * audio.channels,
    {
        PcmSource { idx: start_frame * audio.channels }
    }

    /// The next sample, by rank. The index counts up past the end too.
    pub fn next_sample(&mut self, audio: &AudioData) -> (r: Option<i32>)
        requires
            old(self).idx < usize::MAX,
        ensures
            r == (if old(self).idx < audio.samples@.len() {
                Some(audio.samples@[old(self).idx as int])
            } else {
                None
            }),
            final(self).idx == old(self).idx + 1,
    {
        let sample: Option<i32> = if self.idx < audio.samples.len() {
            Some(audio.samples[self.idx])
        } else {
            None
        };
        self.idx = self.idx + 1;
        sample
    }
}

/// Playing makes a sink where a stream is open. Where none is, one is opened on the selected
/// device, and the sink is made once it is open; where that fails nothing is played.
pub proof fn playing_makes_a_sink(player: PlayerModel)
    ensures
        ({
            let (after, actions) = player.step(PlayerEvent::Play);
            &&& actions.last() == if player.stream {
                ActionModel::MakeSink
            } else {
                ActionModel::OpenStream(player.device)
            }
            &&& actions.len() == if player.sink {
                2nat
            } else {
                1
            }
            &&& after.device == player.device && after.stream == player.stream && !after.sink
            &&& !player.stream ==> {
                &&& after.step(PlayerEvent::StreamOpened(true)).1 == seq![ActionModel::MakeSink]
                &&& after.step(PlayerEvent::StreamOpened(false)).1 == Seq::<ActionModel>::empty()
            }
        }),
{
}

/// A stream that was opened for no sound makes none: after a device was selected nothing plays
/// until it is asked for.
pub proof fn selecting_plays_nothing(player: PlayerModel, name: Option<String>, opened: bool)
    ensures
        ({
            let after = player.step(PlayerEvent::SetDevice(name)).0;
            let ready = after.step(PlayerEvent::StreamOpened(opened));
            &&& !after.stream && !after.sink
            &&& ready.1 == Seq::<ActionModel>::empty()
            &&& ready.0 == PlayerModel { stream: opened, ..after }
        }),
{
}

/// What is known of the stream and of the sink is what came of opening the one and making the
/// other.
pub proof fn outcomes_are_noted(player: PlayerModel, ok: bool)
    ensures
        player.step(PlayerEvent::StreamOpened(ok)).0 == (PlayerModel {
            stream: ok,
            waiting: false,
            ..player
        }),
        player.step(PlayerEvent::SinkMade(ok)) == (
            PlayerModel { sink: ok, ..player },
            Seq::<ActionModel>::empty(),
        ),
{
}

/// Stopping stops the sink if there is one, and keeps the stream and the device.
pub proof fn stopping_keeps_stream(player: PlayerModel)
    ensures
        player.step(PlayerEvent::Stop) == (
            PlayerModel { sink: false, ..player },
            if player.sink {
                seq![ActionModel::StopSink]
            } else {
                Seq::empty()
            },
        ),
{
}

/// Selecting a device stops the sink, lets go of the stream, and opens one on that device, in
/// this order and as far as there is any.
pub proof fn selecting_opens_device(player: PlayerModel, name: Option<String>)
    ensures
        player.step(PlayerEvent::SetDevice(name)).1 == (if player.sink {
            seq![ActionModel::StopSink]
        } else {
            Seq::empty()
        }) + (if player.stream {
            seq![ActionModel::DropStream]
        } else {
            Seq::empty()
        }) + seq![ActionModel::OpenStream(name_view(name))],
{
    let (_, actions) = player.step(PlayerEvent::SetDevice(name));
    let want = (if player.sink {
        seq![ActionModel::StopSink]
    } else {
        Seq::empty()
    }) + (if player.stream {
        seq![ActionModel::DropStream]
    } else {
        Seq::empty()
    }) + seq![ActionModel::OpenStream(name_view(name))];
    assert(actions =~= want);
}

} // verus!

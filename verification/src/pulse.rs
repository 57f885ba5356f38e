//! The default devices of the sound server: what is shown of them, and what the
//! user can do with them.
use vstd::prelude::*;
use crate::strs::{
    dec, dec_string, joined, law_decimal_stands_for_its_number, law_filling_keeps_the_text,
    number_of, owned, pad_left, padded_left, push_dec, texts,
};
use crate::tui::{
    auto_view, interactive_view, plain_view, stack_view, Axis, CustomId, Direction, Elem, ElemView,
    InteractKind, MouseButton,
};
use crate::xtui::StackBuilder;

verus! {

#[derive(Clone, Copy, Debug, PartialEq, Eq, Structural)]
pub enum PulseDeviceKind {
    Sink,
    Source,
}

impl Default for PulseDeviceKind {
    fn default() -> (r: Self)
        ensures
            r == PulseDeviceKind::Source,
    {
        PulseDeviceKind::Source
    }
}

/// A device: its name, if there is one, its volume in percent, and whether it
/// is muted.
#[derive(Debug)]
pub struct PulseDeviceState {
    pub name: Option<String>,
    pub percent: u32,
    pub muted: bool,
}

impl Clone for PulseDeviceState {
    fn clone(&self) -> (r: Self)
        ensures
            r == *self,
    {
        PulseDeviceState {
            name: match &self.name {
                Some(name) => Some(name.clone()),
                None => None,
            },
            percent: self.percent,
            muted: self.muted,
        }
    }
}

#[derive(Debug)]
pub struct PulseState {
    pub sink: PulseDeviceState,
    pub source: PulseDeviceState,
}

impl Clone for PulseState {
    fn clone(&self) -> (r: Self)
        ensures
            r == *self,
    {
        PulseState { sink: self.sink.clone(), source: self.source.clone() }
    }
}

impl Default for PulseState {
    /// Nothing is known of the devices.
    fn default() -> (r: Self)
        ensures
            r == (PulseState { sink: silent(), source: silent() }),
    {
        PulseState {
            sink: PulseDeviceState { name: None, percent: 0, muted: false },
            source: PulseDeviceState { name: None, percent: 0, muted: false },
        }
    }
}

/// A device of which nothing is known.
pub open spec fn silent() -> PulseDeviceState {
    PulseDeviceState { name: None, percent: 0, muted: false }
}

#[derive(Clone, Copy, Debug, PartialEq, Eq, Structural)]
pub struct PulseUpdate {
    pub kind: PulseUpdateKind,
    pub target: PulseDeviceKind,
}

#[derive(Clone, Copy, Debug, PartialEq, Eq, Structural)]
pub enum PulseUpdateKind {
    VolumeDelta(i32),
    ToggleMute,
    ResetVolume,
}

/// What the user asks for: the left button mutes, the right one resets the
/// volume, the wheel turns it up and down.
pub open spec fn update_kind(kind: InteractKind) -> Option<PulseUpdateKind> {
    match kind {
        InteractKind::Click(MouseButton::Left) => Some(PulseUpdateKind::ToggleMute),
        InteractKind::Click(MouseButton::Right) => Some(PulseUpdateKind::ResetVolume),
        InteractKind::Scroll(Direction::Up) => Some(PulseUpdateKind::VolumeDelta(2)),
        InteractKind::Scroll(Direction::Right) => Some(PulseUpdateKind::VolumeDelta(2)),
        InteractKind::Scroll(Direction::Down) => Some(PulseUpdateKind::VolumeDelta((-2) as i32)),
        InteractKind::Scroll(Direction::Left) => Some(PulseUpdateKind::VolumeDelta((-2) as i32)),
        _ => None,
    }
}

/// What the user asks of a device.
pub open spec fn update_of(target: PulseDeviceKind, kind: InteractKind) -> Option<PulseUpdate> {
    match update_kind(kind) {
        Some(kind) => Some(PulseUpdate { kind, target }),
        None => None,
    }
}

/// What is asked for is asked of the device that it was done with, and of each device
/// the same things can be asked.
pub proof fn law_device_is_asked_for_itself(target: PulseDeviceKind, kind: InteractKind)
    ensures
        update_of(target, kind) is Some <==> update_kind(kind) is Some,
        update_of(target, kind) matches Some(update) ==> update.target == target && Some(
            update.kind,
        ) == update_kind(kind),
{
}

pub fn interact_update(target: PulseDeviceKind, kind: InteractKind) -> (r: Option<PulseUpdate>)
    ensures
        r == update_of(target, kind),
{
    let kind = match kind {
        InteractKind::Click(MouseButton::Left) => PulseUpdateKind::ToggleMute,
        InteractKind::Click(MouseButton::Right) => PulseUpdateKind::ResetVolume,
        InteractKind::Scroll(direction) => {
            let sign: i32 = match direction {
                Direction::Up => 1,
                Direction::Down => -1,
                Direction::Left => -1,
                Direction::Right => 1,
            };
            PulseUpdateKind::VolumeDelta(2 * sign)
        },
        _ => {
            return None;
        },
    };
    Some(PulseUpdate { kind, target })
}

/// The other way.
pub open spec fn opposite(direction: Direction) -> Direction {
    match direction {
        Direction::Up => Direction::Down,
        Direction::Down => Direction::Up,
        Direction::Left => Direction::Right,
        Direction::Right => Direction::Left,
    }
}

/// Turning the wheel one way and then the other leaves the volume as it was.
pub proof fn law_scrolling_back_undoes(direction: Direction)
    ensures
        update_kind(InteractKind::Scroll(direction)) matches Some(
            PulseUpdateKind::VolumeDelta(forth),
        ) && update_kind(InteractKind::Scroll(opposite(direction))) matches Some(
            PulseUpdateKind::VolumeDelta(back),
        ) && forth + back == 0,
{
}

/// What each thing the user can do asks for. Up and right make it louder, down
/// and left make it softer, by the same step.
pub proof fn law_buttons_ask_for_what_they_are_for(kind: InteractKind)
    ensures
        update_kind(InteractKind::Click(MouseButton::Left)) == Some(PulseUpdateKind::ToggleMute),
        update_kind(InteractKind::Click(MouseButton::Right)) == Some(PulseUpdateKind::ResetVolume),
        update_kind(InteractKind::Click(MouseButton::Middle)) is None,
        update_kind(InteractKind::Hover) is None,
        update_kind(InteractKind::Scroll(Direction::Up)) == Some(PulseUpdateKind::VolumeDelta(2)),
        update_kind(InteractKind::Scroll(Direction::Right)) == Some(
            PulseUpdateKind::VolumeDelta(2),
        ),
        update_kind(InteractKind::Scroll(Direction::Down)) matches Some(
            PulseUpdateKind::VolumeDelta(step),
        ) && step == -2,
        update_kind(InteractKind::Scroll(Direction::Left)) matches Some(
            PulseUpdateKind::VolumeDelta(step),
        ) && step == -2,
        update_kind(kind) is Some ==> kind is Click || kind is Scroll,
{
}

/// A number with its sign, whatever it is.
pub open spec fn dec_plus(n: int) -> Seq<char> {
    if n < 0 {
        "-"@ + dec((-n) as nat)
    } else {
        "+"@ + dec(n as nat)
    }
}

/// The arguments of the sound server's command line tool that do what was asked.
pub open spec fn pactl_args(update: PulseUpdate) -> Seq<Seq<char>> {
    let device = match update.target {
        PulseDeviceKind::Sink => "@DEFAULT_SINK@"@,
        PulseDeviceKind::Source => "@DEFAULT_SOURCE@"@,
    };
    let mute = match update.target {
        PulseDeviceKind::Sink => "set-sink-mute"@,
        PulseDeviceKind::Source => "set-source-mute"@,
    };
    let volume = match update.target {
        PulseDeviceKind::Sink => "set-sink-volume"@,
        PulseDeviceKind::Source => "set-source-volume"@,
    };
    match update.kind {
        PulseUpdateKind::VolumeDelta(delta) => seq![volume, device, dec_plus(delta as int) + "%"@],
        PulseUpdateKind::ToggleMute => seq![mute, device, "toggle"@],
        PulseUpdateKind::ResetVolume => seq![volume, device, "100%"@],
    }
}

pub fn mk_pactl_args(update: PulseUpdate) -> (r: Vec<String>)
    ensures
        texts(r@) == pactl_args(update),
{
    let (device, mute, volume) = match update.target {
        PulseDeviceKind::Sink => ("@DEFAULT_SINK@", "set-sink-mute", "set-sink-volume"),
        PulseDeviceKind::Source => ("@DEFAULT_SOURCE@", "set-source-mute", "set-source-volume"),
    };
    let r = match update.kind {
        PulseUpdateKind::VolumeDelta(delta) => {
            let mut step: String = String::new();
            if delta < 0 {
                step.push_str("-");
                push_dec(&mut step, (-(delta as i64)) as u64);
            } else {
                step.push_str("+");
                push_dec(&mut step, delta as u64);
            }
            step.push_str("%");
            proof {
                assert(step@ =~= dec_plus(delta as int) + "%"@);
            }
            vec![owned(volume), owned(device), step]
        },
        PulseUpdateKind::ToggleMute => vec![owned(mute), owned(device), owned("toggle")],
        PulseUpdateKind::ResetVolume => vec![owned(volume), owned(device), owned("100%")],
    };
    proof {
        assert(texts(r@) =~= pactl_args(update));
    }
    r
}

/// The command names the device that is meant, twice over, and ends with what is
/// to be done: a step in percent with its sign, a toggle, or the full volume.
pub proof fn law_command_does_what_was_asked(kind: PulseUpdateKind)
    ensures
        ({
            let sink = pactl_args(PulseUpdate { kind, target: PulseDeviceKind::Sink });
            let source = pactl_args(PulseUpdate { kind, target: PulseDeviceKind::Source });
            &&& sink.len() == 3
            &&& source.len() == 3
            &&& sink[1] == "@DEFAULT_SINK@"@
            &&& source[1] == "@DEFAULT_SOURCE@"@
            &&& sink[2] == source[2]
            &&& kind == PulseUpdateKind::ToggleMute ==> {
                &&& sink[0] == "set-sink-mute"@
                &&& source[0] == "set-source-mute"@
                &&& sink[2] == "toggle"@
            }
            &&& kind != PulseUpdateKind::ToggleMute ==> {
                &&& sink[0] == "set-sink-volume"@
                &&& source[0] == "set-source-volume"@
            }
            &&& kind == PulseUpdateKind::ResetVolume ==> sink[2] == "100%"@
            &&& kind matches PulseUpdateKind::VolumeDelta(step) ==> {
                let text = sink[2];
                &&& text.len() > 2
                &&& text.last() == '%'
                &&& step < 0 ==> text[0] == '-' && number_of(text.subrange(1, text.len() - 1))
                    == -step
                &&& step >= 0 ==> text[0] == '+' && number_of(text.subrange(1, text.len() - 1))
                    == step
            }
        }),
{
    if let PulseUpdateKind::VolumeDelta(step) = kind {
        let size = (if step < 0 {
            -step
        } else {
            step as int
        }) as nat;
        reveal_strlit("-");
        reveal_strlit("+");
        reveal_strlit("%");
        law_decimal_stands_for_its_number(size);
        let text = pactl_args(PulseUpdate { kind, target: PulseDeviceKind::Sink })[2];
        assert(text.subrange(1, text.len() - 1) =~= dec(size));
    }
}

/// The sum of the volumes of the channels.
pub open spec fn volume_sum(volumes: Seq<u32>) -> nat
    decreases volumes.len(),
{
    if volumes.len() == 0 {
        0
    } else {
        volume_sum(volumes.drop_last()) + volumes.last() as nat
    }
}

/// The average volume of the channels above silence.
pub open spec fn average_volume(volumes: Seq<u32>, muted: u32) -> int {
    let average = volume_sum(volumes) as int / volumes.len() as int;
    if average >= muted {
        average - muted
    } else {
        0
    }
}

/// The average volume of the channels above the volume `muted` of silence.
pub fn avg_volume(volumes: &Vec<u32>, muted: u32) -> (r: u64)
    requires
        0 < volumes@.len() <= u32::MAX,
    ensures
        r == average_volume(volumes@, muted),
{
    let mut sum: u64 = 0;
    let mut i: usize = 0;
    proof {
        assert(volumes@.take(0) =~= Seq::empty());
    }
    while i < volumes.len()
        invariant
            0 <= i <= volumes@.len(),
            volumes@.len() <= u32::MAX,
            sum == volume_sum(volumes@.take(i as int)),
            sum <= i * 0xffff_ffff,
        decreases volumes@.len() - i,
    {
        proof {
            assert(volumes@.take(i + 1).drop_last() =~= volumes@.take(i as int));
        }
        sum += volumes[i] as u64;
        i += 1;
    }
    proof {
        assert(volumes@.take(i as int) =~= volumes@);
    }
    (sum / volumes.len() as u64).saturating_sub(muted as u64)
}

proof fn lemma_sum_bound(volumes: Seq<u32>, most: u32)
    requires
        forall|i: int| 0 <= i < volumes.len() ==> #[trigger] volumes[i] <= most,
    ensures
        volume_sum(volumes) <= volumes.len() * most,
    decreases volumes.len(),
{
    if volumes.len() > 0 {
        lemma_sum_bound(volumes.drop_last(), most);
        assert(volumes.len() * most == (volumes.len() - 1) * most + most) by (nonlinear_arith)
            requires
                volumes.len() > 0,
        ;
    }
}

/// The average is never above the loudest channel.
pub proof fn law_average_is_bounded(volumes: Seq<u32>, muted: u32, most: u32)
    requires
        volumes.len() > 0,
        forall|i: int| 0 <= i < volumes.len() ==> #[trigger] volumes[i] <= most,
    ensures
        0 <= average_volume(volumes, muted) <= most,
{
    lemma_sum_bound(volumes, most);
    let n = volumes.len() as int;
    let sum = volume_sum(volumes) as int;
    assert(sum / n <= most as int && sum / n >= 0) by (nonlinear_arith)
        requires
            n > 0,
            0 <= sum <= n * most,
    ;
}

/// The sum counts each channel once, in whatever order they come.
pub proof fn law_sum_counts_each_channel(first: Seq<u32>, volume: u32, others: Seq<u32>)
    ensures
        volume_sum(first + seq![volume] + others) == volume_sum(first + others) + volume,
        volume_sum(Seq::empty()) == 0,
    decreases others.len(),
{
    if others.len() == 0 {
        assert((first + seq![volume] + others).drop_last() =~= first);
        assert(first + others =~= first);
    } else {
        let fewer = others.drop_last();
        law_sum_counts_each_channel(first, volume, fewer);
        assert((first + seq![volume] + others).drop_last() =~= first + seq![volume] + fewer);
        assert((first + others).drop_last() =~= first + fewer);
    }
}

/// The average is the whole number for which all channels together are just as
/// loud, or too loud by less than the number of channels. What is not above
/// silence counts as silence.
pub proof fn law_average_shares_the_sum(volumes: Seq<u32>, muted: u32)
    requires
        volumes.len() > 0,
    ensures
        ({
            let n = volumes.len() as int;
            let above = average_volume(volumes, muted);
            let sum = volume_sum(volumes);
            &&& above >= 0
            &&& sum >= n * muted ==> n * (muted + above) <= sum < n * (muted + above + 1)
            &&& sum < n * muted ==> above == 0
        }),
{
    let n = volumes.len() as int;
    let sum = volume_sum(volumes) as int;
    let quotient = sum / n;
    assert(n * quotient <= sum < n * (quotient + 1)) by (nonlinear_arith)
        requires
            n > 0,
            sum >= 0,
            quotient == sum / n,
    ;
    let m = muted as int;
    if sum >= n * m {
        assert(quotient >= m) by (nonlinear_arith)
            requires
                n > 0,
                sum >= n * m,
                sum < n * (quotient + 1),
        ;
    } else {
        assert(quotient < m) by (nonlinear_arith)
            requires
                n > 0,
                sum < n * m,
                n * quotient <= sum,
        ;
    }
}

/// A part of the sound server that something happened to.
#[derive(Clone, Copy, Debug, PartialEq, Eq, Structural)]
pub enum Facility {
    Server,
    Sink,
    Source,
    Other,
}

/// What the sound server says.
#[derive(Debug)]
pub enum PulseEvent {
    /// The names of the default devices.
    ServerInfo { sink: Option<String>, source: Option<String> },
    /// What a default device is set to.
    DeviceInfo { kind: PulseDeviceKind, percent: u32, muted: bool },
    /// Something changed.
    Changed(Facility),
    /// The user asked for a fresh look.
    Reload,
}

/// What is to be done in answer.
#[derive(Debug)]
pub enum PulseAct {
    QueryServer,
    QueryDevice(PulseDeviceKind, String),
    Publish,
}

impl PulseState {
    /// The device of a kind.
    pub open spec fn device(self, kind: PulseDeviceKind) -> PulseDeviceState {
        match kind {
            PulseDeviceKind::Sink => self.sink,
            PulseDeviceKind::Source => self.source,
        }
    }

    /// The question for a device. One without a name is not asked for.
    pub open spec fn query(self, kind: PulseDeviceKind) -> Seq<PulseAct> {
        match self.device(kind).name {
            Some(name) => seq![PulseAct::QueryDevice(kind, name)],
            None => Seq::empty(),
        }
    }

    /// The state after the server has said something.
    pub open spec fn after(self, event: PulseEvent) -> PulseState {
        match event {
            PulseEvent::ServerInfo { sink, source } => PulseState {
                sink: PulseDeviceState { name: sink, ..self.sink },
                source: PulseDeviceState { name: source, ..self.source },
            },
            PulseEvent::DeviceInfo { kind: PulseDeviceKind::Sink, percent, muted } => PulseState {
                sink: PulseDeviceState { name: self.sink.name, percent, muted },
                source: self.source,
            },
            PulseEvent::DeviceInfo { kind: PulseDeviceKind::Source, percent, muted } => PulseState {
                sink: self.sink,
                source: PulseDeviceState { name: self.source.name, percent, muted },
            },
            _ => self,
        }
    }

    /// What is done in answer. New names lead to questions about both devices;
    /// what is heard of a device is published.
    pub open spec fn acts(self, event: PulseEvent) -> Seq<PulseAct> {
        match event {
            PulseEvent::ServerInfo { .. } => self.after(event).query(PulseDeviceKind::Sink)
                + self.after(event).query(PulseDeviceKind::Source),
            PulseEvent::DeviceInfo { .. } => seq![PulseAct::Publish],
            PulseEvent::Changed(Facility::Server) => seq![PulseAct::QueryServer],
            PulseEvent::Changed(Facility::Sink) => self.query(PulseDeviceKind::Sink),
            PulseEvent::Changed(Facility::Source) => self.query(PulseDeviceKind::Source),
            PulseEvent::Changed(Facility::Other) => Seq::empty(),
            PulseEvent::Reload => seq![PulseAct::QueryServer],
        }
    }

    fn push_query(&self, kind: PulseDeviceKind, acts: &mut Vec<PulseAct>)
        ensures
            final(acts)@ == old(acts)@ + self.query(kind),
    {
        let name = match kind {
            PulseDeviceKind::Sink => &self.sink.name,
            PulseDeviceKind::Source => &self.source.name,
        };
        if let Some(name) = name {
            acts.push(PulseAct::QueryDevice(kind, name.clone()));
        }
        proof {
            assert(acts@ =~= old(acts)@ + self.query(kind));
        }
    }

    /// Takes in what the server says.
    pub fn step(&mut self, event: PulseEvent) -> (r: Vec<PulseAct>)
        ensures
            *final(self) == old(self).after(event),
            r@ == old(self).acts(event),
    {
        let ghost start = *self;
        let mut acts: Vec<PulseAct> = Vec::new();
        match event {
            PulseEvent::ServerInfo { sink, source } => {
                self.sink.name = sink;
                self.source.name = source;
                self.push_query(PulseDeviceKind::Sink, &mut acts);
                self.push_query(PulseDeviceKind::Source, &mut acts);
            },
            PulseEvent::DeviceInfo { kind, percent, muted } => {
                match kind {
                    PulseDeviceKind::Sink => {
                        self.sink.percent = percent;
                        self.sink.muted = muted;
                    },
                    PulseDeviceKind::Source => {
                        self.source.percent = percent;
                        self.source.muted = muted;
                    },
                }
                acts.push(PulseAct::Publish);
            },
            PulseEvent::Changed(facility) => {
                match facility {
                    Facility::Server => {
                        acts.push(PulseAct::QueryServer);
                    },
                    Facility::Sink => {
                        self.push_query(PulseDeviceKind::Sink, &mut acts);
                    },
                    Facility::Source => {
                        self.push_query(PulseDeviceKind::Source, &mut acts);
                    },
                    Facility::Other => {},
                }
            },
            PulseEvent::Reload => {
                acts.push(PulseAct::QueryServer);
            },
        }
        proof {
            assert(acts@ =~= start.acts(event));
        }
        acts
    }
}

/// What is heard of one device changes nothing that is known of the other.
pub proof fn law_devices_are_independent(state: PulseState, kind: PulseDeviceKind, percent: u32, muted: bool)
    ensures
        ({
            let after = state.after(PulseEvent::DeviceInfo { kind, percent, muted });
            &&& kind == PulseDeviceKind::Sink ==> after.source == state.source
            &&& kind == PulseDeviceKind::Source ==> after.sink == state.sink
            &&& after.device(kind).percent == percent
            &&& after.device(kind).muted == muted
            &&& after.device(kind).name == state.device(kind).name
        }),
{
}

/// New names of the default devices are kept, each for its device, with what is
/// known of the volumes. Both devices are then asked for by their new names, the
/// loudspeaker first; a device without a name is not asked for.
pub proof fn law_new_names_are_asked_for(
    state: PulseState,
    sink: Option<String>,
    source: Option<String>,
)
    ensures
        ({
            let event = PulseEvent::ServerInfo { sink, source };
            let after = state.after(event);
            let acts = state.acts(event);
            &&& after.sink.name == sink
            &&& after.source.name == source
            &&& after.sink.percent == state.sink.percent && after.sink.muted == state.sink.muted
            &&& after.source.percent == state.source.percent && after.source.muted
                == state.source.muted
            &&& (sink is None && source is None) ==> acts.len() == 0
            &&& (sink is Some && source is None) ==> acts == seq![
                PulseAct::QueryDevice(PulseDeviceKind::Sink, sink->0),
            ]
            &&& (sink is None && source is Some) ==> acts == seq![
                PulseAct::QueryDevice(PulseDeviceKind::Source, source->0),
            ]
            &&& (sink is Some && source is Some) ==> acts == seq![
                PulseAct::QueryDevice(PulseDeviceKind::Sink, sink->0),
                PulseAct::QueryDevice(PulseDeviceKind::Source, source->0),
            ]
        }),
{
    let acts = state.acts(PulseEvent::ServerInfo { sink, source });
    if sink is Some && source is None {
        assert(acts =~= seq![PulseAct::QueryDevice(PulseDeviceKind::Sink, sink->0)]);
    } else if sink is None && source is Some {
        assert(acts =~= seq![PulseAct::QueryDevice(PulseDeviceKind::Source, source->0)]);
    } else if sink is Some && source is Some {
        assert(acts =~= seq![
            PulseAct::QueryDevice(PulseDeviceKind::Sink, sink->0),
            PulseAct::QueryDevice(PulseDeviceKind::Source, source->0),
        ]);
    }
}

/// What is heard of a device is published, and nothing else is. A change of the
/// server, or the wish for a fresh look, leads to the question for the names; a
/// change of a device leads to the question for that device under its name.
pub proof fn law_changes_are_looked_into(
    state: PulseState,
    kind: PulseDeviceKind,
    percent: u32,
    muted: bool,
)
    ensures
        state.acts(PulseEvent::DeviceInfo { kind, percent, muted }) == seq![PulseAct::Publish],
        state.acts(PulseEvent::Changed(Facility::Server)) == seq![PulseAct::QueryServer],
        state.acts(PulseEvent::Reload) == seq![PulseAct::QueryServer],
        state.acts(PulseEvent::Changed(Facility::Other)).len() == 0,
        state.sink.name is None ==> state.acts(PulseEvent::Changed(Facility::Sink)).len() == 0,
        state.sink.name matches Some(name) ==> state.acts(PulseEvent::Changed(Facility::Sink))
            == seq![PulseAct::QueryDevice(PulseDeviceKind::Sink, name)],
        state.source.name is None ==> state.acts(PulseEvent::Changed(Facility::Source)).len() == 0,
        state.source.name matches Some(name) ==> state.acts(PulseEvent::Changed(Facility::Source))
            == seq![PulseAct::QueryDevice(PulseDeviceKind::Source, name)],
        forall|facility: Facility| state.after(PulseEvent::Changed(facility)) == state,
        state.after(PulseEvent::Reload) == state,
{
}

/// How far the connection to the server is.
#[derive(Clone, Copy, Debug, PartialEq, Eq, Structural)]
pub enum ContextState {
    Ready,
    Failed,
    Terminated,
    Other,
}

/// What to do while the connection is made.
#[derive(Clone, Copy, Debug, PartialEq, Eq, Structural)]
pub enum ConnectStep {
    Done,
    /// Give up: the connection failed.
    Failed,
    /// Give up: the connection was ended.
    Terminated,
    Iterate,
}

pub fn connect_step(state: ContextState) -> (r: ConnectStep)
    ensures
        state is Ready <==> r is Done,
        state is Failed <==> r is Failed,
        state is Terminated <==> r is Terminated,
        state is Other <==> r is Iterate,
{
    match state {
        ContextState::Ready => ConnectStep::Done,
        ContextState::Failed => ConnectStep::Failed,
        ContextState::Terminated => ConnectStep::Terminated,
        ContextState::Other => ConnectStep::Iterate,
    }
}

/// The outcome of one round of the server's main loop.
#[derive(Clone, Copy, Debug, PartialEq, Eq, Structural)]
pub enum Iterated {
    Success,
    Quit,
    Failed,
}

/// A round that did not succeed ends the client.
pub fn handle_iterate_result(res: Iterated) -> (r: Result<(), Iterated>)
    ensures
        res is Success <==> r is Ok,
        r matches Err(failure) ==> failure == res,
{
    match res {
        Iterated::Success => Ok(()),
        Iterated::Quit => Err(Iterated::Quit),
        Iterated::Failed => Err(Iterated::Failed),
    }
}

/// A volume as it is shown.
pub open spec fn volume_text(percent: u32) -> Seq<char> {
    pad_left(dec(percent as nat), 3, ' ') + "%"@
}

pub fn mk_volume_text(percent: u32) -> (r: String)
    ensures
        r@ == volume_text(percent),
{
    let number = dec_string(percent as u64);
    joined(&padded_left(&number, 3), "%")
}

/// A device in the bar: a symbol and the volume.
pub open spec fn device_view(symbol: ElemView, percent: u32, tag: Seq<u8>) -> ElemView {
    interactive_view(
        stack_view(
            Axis::X,
            seq![auto_view(symbol), auto_view(plain_view(volume_text(percent)))],
        ),
        tag,
    )
}

/// The symbol of a device.
pub open spec fn symbol_of(muted: bool, muted_sym: ElemView, unmuted_sym: ElemView) -> ElemView {
    if muted {
        muted_sym
    } else {
        unmuted_sym
    }
}

/// A device that is muted is shown by the one symbol, any other by the other one.
pub proof fn law_symbol_tells_muted(muted_sym: ElemView, unmuted_sym: ElemView)
    ensures
        symbol_of(true, muted_sym, unmuted_sym) == muted_sym,
        symbol_of(false, muted_sym, unmuted_sym) == unmuted_sym,
{
}

/// A device in the bar.
pub fn device_elem(
    percent: u32,
    muted: bool,
    muted_sym: &Elem,
    unmuted_sym: &Elem,
    tag: CustomId,
) -> (r: Elem)
    ensures
        r@ == device_view(symbol_of(muted, muted_sym@, unmuted_sym@), percent, tag@),
{
    let mut stack = StackBuilder::new(Axis::X);
    let symbol = if muted {
        muted_sym.clone()
    } else {
        unmuted_sym.clone()
    };
    let ghost shown = symbol@;
    stack.push(symbol);
    let text = mk_volume_text(percent);
    stack.push(Elem::plain(&text));
    proof {
        assert(stack@ =~= seq![auto_view(shown), auto_view(plain_view(volume_text(percent)))]);
    }
    stack.build().interactive(tag)
}

/// A volume is shown as its number in front of a percent sign, with blanks before
/// it up to four characters.
pub proof fn law_volume_is_shown_as_its_number(percent: u32)
    ensures
        ({
            let text = volume_text(percent);
            let number = dec(percent as nat);
            let blanks = text.len() - number.len() - 1;
            &&& text.last() == '%'
            &&& blanks >= 0
            &&& text.subrange(blanks, text.len() - 1) == number
            &&& number_of(number) == percent
            &&& forall|i: int| 0 <= i < blanks ==> #[trigger] text[i] == ' '
            &&& percent < 1000 ==> text.len() == 4
        }),
{
    let text = volume_text(percent);
    let number = dec(percent as nat);
    let blanks = text.len() - number.len() - 1;
    reveal_strlit("%");
    law_decimal_stands_for_its_number(percent as nat);
    law_filling_keeps_the_text(number, 3, ' ');
    assert(text.subrange(blanks, text.len() - 1) =~= number);
    let filled = pad_left(number, 3, ' ');
    assert forall|i: int| 0 <= i < blanks implies #[trigger] text[i] == ' ' by {
        assert(text[i] == filled[i]);
    }
    if percent < 1000 {
        let n = percent as nat;
        if n >= 100 {
            assert(n / 10 / 10 < 10);
            assert(dec(n / 10).len() == dec(n / 10 / 10).len() + 1);
            assert(dec(n).len() == dec(n / 10).len() + 1);
            law_decimal_stands_for_its_number(n / 10 / 10);
        } else if n >= 10 {
            law_decimal_stands_for_its_number(n / 10);
            assert(dec(n).len() == dec(n / 10).len() + 1);
        }
    }
}

/// Different volumes are shown differently.
pub proof fn law_volumes_are_told_apart(a: u32, b: u32)
    requires
        volume_text(a) == volume_text(b),
    ensures
        a == b,
{
    law_volume_is_shown_as_its_number(a);
    law_volume_is_shown_as_its_number(b);
    let text = volume_text(a);
    let first = dec(a as nat);
    let second = dec(b as nat);
    law_decimal_stands_for_its_number(a as nat);
    law_decimal_stands_for_its_number(b as nat);
    if first.len() < second.len() {
        let i = text.len() - second.len() - 1;
        assert(text[i] == ' ');
        assert(text.subrange(i, text.len() - 1)[0] == text[i]);
        assert(second[0] >= '0');
    } else if second.len() < first.len() {
        let i = text.len() - first.len() - 1;
        assert(text[i] == ' ');
        assert(text.subrange(i, text.len() - 1)[0] == text[i]);
        assert(first[0] >= '0');
    }
}

/// A device is shown as its symbol and behind it its volume, and reacts under its
/// tag. Another volume looks different.
pub proof fn law_device_shows_its_volume(symbol: ElemView, percent: u32, other: u32, tag: Seq<u8>)
    ensures
        device_view(symbol, percent, tag) matches ElemView::Interactive {
            inner,
            tag: own,
            hovered,
        } && {
            &&& own == tag
            &&& hovered is None
            &&& *inner matches ElemView::Stack { axis, items } && {
                &&& axis == Axis::X
                &&& items.len() == 2
                &&& items[0] == auto_view(symbol)
                &&& items[1] == auto_view(plain_view(volume_text(percent)))
            }
        },
        percent != other ==> device_view(symbol, percent, tag) != device_view(symbol, other, tag),
{
    let shown = device_view(symbol, percent, tag);
    if shown == device_view(symbol, other, tag) {
        let items = (*shown->Interactive_inner)->Stack_items;
        assert(items[1] == auto_view(plain_view(volume_text(percent))));
        assert(items[1] == auto_view(plain_view(volume_text(other))));
        law_volumes_are_told_apart(percent, other);
    }
}

} // verus!

//! Playing a recording: what to send and when, and what each command does.
//!
//! Times are whole numbers of nanoseconds since the start of the recording. The
//! player holds no clock and sends nothing: it is told how much time has passed
//! and whether a delivery went well, and says what is to be done next.
use crate::cast::CastEvent;
use vstd::prelude::*;

verus! {

/// How far one seek goes: five seconds.
pub const SEEK_STEP: u128 = 5_000_000_000;

/// The longest time that can be counted: that of `u64::MAX` seconds and
/// 999999999 nanoseconds.
pub const TIME_LIMIT: u128 = 18_446_744_073_709_551_615_999_999_999;

/// What a viewer can ask for.
#[derive(Debug, Clone, Copy, PartialEq, Eq, Structural)]
pub enum PlaybackCommand {
    TogglePause,
    SeekBack,
    SeekForward,
    ToggleOverlay,
    Quit,
}

/// An event of a recording, ready to be played.
#[derive(Debug)]
pub struct Event {
    /// When the event is due. `None` where its seconds are negative or more
    /// than can be counted: such an event cannot be waited for.
    pub time: Option<u128>,
    pub code: String,
    pub data: String,
}

/// Why playback cannot go on.
#[derive(Debug, Clone, Copy, PartialEq, Eq, Structural)]
pub enum Fault {
    /// The event at this index has no time.
    TimeOutOfRange(usize),
    /// The position would be beyond what can be counted.
    ClockOverflow,
    /// The viewer can no longer be reached.
    SendError,
    /// The overlay could not be drawn.
    DrawError,
}

/// One thing to be done for the viewer.
#[derive(Debug)]
pub enum Effect {
    /// Clear the screen and put the cursor in its corner.
    ClearScreen,
    /// Send the data of an event.
    Output(String),
    /// Draw the overlay, with these times on it.
    DrawOverlay { position: u128, total: u128 },
    /// Count the time that passes from now.
    RestartClock,
}

/// Effects that are being carried out, one after the other.
#[derive(Debug)]
pub struct Script {
    pub effects: Vec<Effect>,
    /// How many of the effects have been carried out.
    pub done: usize,
    /// The effects begin with what shows the output of so many events anew.
    pub redrawn: Option<usize>,
    /// How many effects that takes.
    pub after: usize,
    /// The position that the player has once they are carried out.
    pub position: Option<u128>,
    /// What playback ends with once all effects are carried out.
    pub fault: Option<Fault>,
}

/// A recording that is being played, and where it stands.
#[derive(Debug)]
pub struct PlayerState {
    pub events: Vec<Event>,
    pub paused: bool,
    pub overlay_visible: bool,
    /// The position in the recording.
    pub current_time: u128,
    /// The first event that has not been shown.
    pub next_idx: usize,
    /// The position at which the clock was last restarted.
    pub time_offset: u128,
    pub total_duration: u128,
    /// The effects that are under way; none while the player is idle.
    pub script: Script,
}

/// What happens to a player.
#[derive(Debug, Clone, Copy)]
pub enum Signal {
    /// Nothing is under way; so much time has passed on the clock.
    Poll { elapsed: u128 },
    /// The data that was to be delivered has been sent, or could not be.
    Sent { ok: bool },
    /// A command came, or none will come any more.
    Command { command: Option<PlaybackCommand>, elapsed: u128 },
    /// The effect that was asked for has been carried out, or could not be.
    Performed { ok: bool },
}

/// What a player asks for.
#[derive(Debug)]
pub enum Action {
    /// Wait for a command.
    AwaitCommand,
    /// Wait for a command, but no longer than this; then deliver the data.
    Wait { remaining: u128, data: String },
    /// Deliver the data now.
    Deliver { data: String },
    /// Carry out the effect.
    Perform { effect: Effect },
    /// Nothing just now: poll.
    Continue,
    /// Playback is over.
    Stop,
    /// Playback ends with the fault.
    Fail { fault: Fault },
}

/// What a player waits to be told: how its last action turned out.
#[derive(Debug, Clone, Copy, PartialEq, Eq, Structural)]
pub enum Asked {
    /// How much time has passed.
    Poll,
    /// A command.
    Command,
    /// That the data was delivered after the wait, or a command before that.
    DeliveryOrCommand,
    /// That the data was delivered.
    Delivery,
    /// That the effect was carried out.
    Effect,
    /// Nothing any more.
    Nothing,
}

/// A player: the state of a playback, and what it waits to be told. Only
/// `play_interactive` changes it.
#[derive(Debug)]
pub struct Player {
    state: PlayerState,
    asked: Asked,
}

/// What to do next in a recording that is played straight through.
#[derive(Debug)]
pub enum PlayStep {
    /// Nothing is left.
    Finished,
    /// Wait for `delay`, then send the data of the event at `index`.
    Deliver { index: usize, delay: u128, data: String },
    /// Playback cannot go on.
    Fail { fault: Fault },
}

/// How playback straight through goes on after a send.
#[derive(Debug, Clone, Copy, PartialEq, Eq, Structural)]
pub enum PlayNext {
    /// The events before this index have been sent.
    From(usize),
    /// Playback is over, and has not failed.
    Finished,
}

/// Whether an event is output: only these are played.
pub open spec fn is_output(event: Event) -> bool {
    event.code@ == "o"@
}

/// The first index from `from` on whose event `wanted` holds of; the number of
/// events where there is none.
pub open spec fn first(events: Seq<Event>, wanted: spec_fn(Event) -> bool, from: int) -> int
    decreases events.len() - from,
{
    if from >= events.len() {
        events.len() as int
    } else if wanted(events[from]) {
        from
    } else {
        first(events, wanted, from + 1)
    }
}

/// The first output event from `from` on.
pub open spec fn next_output(events: Seq<Event>, from: int) -> int {
    first(events, |e: Event| is_output(e), from)
}

/// Whether an event ends a seek: it is output, and not due by `target`.
pub open spec fn ends_seek(event: Event, target: u128) -> bool {
    is_output(event) && (event.time matches Some(time) ==> time > target)
}

/// Where a seek to `target` stops.
pub open spec fn seek_index(events: Seq<Event>, target: u128) -> int {
    first(events, |e: Event| ends_seek(e, target), 0)
}

/// The output among the first `n` events, in order.
pub open spec fn outputs(events: Seq<Event>, n: int) -> Seq<Effect>
    decreases n,
{
    if n <= 0 {
        seq![]
    } else if is_output(events[n - 1]) {
        outputs(events, n - 1).push(Effect::Output(events[n - 1].data))
    } else {
        outputs(events, n - 1)
    }
}

/// What brings the screen to where it is after the first `n` events.
pub open spec fn redraw(events: Seq<Event>, n: int) -> Seq<Effect> {
    seq![Effect::ClearScreen] + outputs(events, n)
}

/// How long a recording is: the time of its last event.
pub open spec fn total_time(events: Seq<Event>) -> u128 {
    if events.len() == 0 {
        0
    } else {
        match events.last().time {
            Some(time) => time,
            None => 0,
        }
    }
}

/// The bytes that clear the screen and put the cursor in its corner:
/// `ESC [ 2 J ESC [ H`.
pub open spec fn clear_sequence() -> Seq<u8> {
    seq![0x1bu8, 0x5bu8, 0x32u8, 0x4au8, 0x1bu8, 0x5bu8, 0x48u8]
}

/// The bytes that an effect sends, if it is one that only sends.
pub open spec fn payload_of(effect: Effect) -> Option<Seq<u8>> {
    match effect {
        Effect::ClearScreen => Some(clear_sequence()),
        Effect::Output(data) => Some(vstd::utf8::encode_utf8(data@)),
        _ => None,
    }
}

/// What playback ends with when an effect cannot be carried out.
pub open spec fn failure_of(effect: Effect) -> Fault {
    if effect is DrawOverlay {
        Fault::DrawError
    } else {
        Fault::SendError
    }
}

impl Clone for Effect {
    fn clone(&self) -> (r: Effect)
        ensures
            r == *self,
    {
        match self {
            Effect::ClearScreen => Effect::ClearScreen,
            Effect::Output(data) => Effect::Output(data.clone()),
            Effect::DrawOverlay { position, total } => Effect::DrawOverlay {
                position: *position,
                total: *total,
            },
            Effect::RestartClock => Effect::RestartClock,
        }
    }
}

impl Effect {
    /// The bytes to send for the effect. Drawing the overlay and restarting the
    /// clock have none.
    pub fn payload(&self) -> (r: Option<Vec<u8>>)
        ensures
            match r {
                Some(bytes) => payload_of(*self) == Some(bytes@),
                None => payload_of(*self) is None,
            },
    {
        match self {
            Effect::ClearScreen => {
                let bytes: Vec<u8> = vec![0x1b, 0x5b, 0x32, 0x4a, 0x1b, 0x5b, 0x48];
                assert(bytes@ =~= clear_sequence());
                Some(bytes)
            },
            Effect::Output(data) => Some(data.as_str().as_bytes_vec()),
            _ => None,
        }
    }

    /// What playback ends with when the effect cannot be carried out.
    fn failure(&self) -> (r: Fault)
        ensures
            r == failure_of(*self),
    {
        match self {
            Effect::DrawOverlay { .. } => Fault::DrawError,
            _ => Fault::SendError,
        }
    }
}

impl Event {
    /// Whether the event is output.
    pub fn is_output(&self) -> (r: bool)
        ensures
            r == is_output(*self),
    {
        proof {
            reveal_strlit("o");
        }
        let code: &str = self.code.as_str();
        let r: bool = code.unicode_len() == 1 && code.get_char(0) == 'o';
        assert(r ==> code@ =~= "o"@);
        r
    }
}

/// Gives every event the time that `to_time` makes of its seconds.
pub fn schedule<C>(events: &Vec<CastEvent>, to_time: C) -> (r: Vec<Event>) where
    C: Fn(u64) -> Option<u128>,

    requires
        forall|seconds: u64| #[trigger] call_requires(to_time, (seconds,)),
    ensures
        r@.len() == events@.len(),
        forall|i: int|
            0 <= i < r@.len() ==> {
                &&& call_ensures(to_time, (events@[i].time,), (#[trigger] r@[i]).time)
                &&& r@[i].code == events@[i].code
                &&& r@[i].data == events@[i].data
            },
{
    let mut r: Vec<Event> = Vec::new();
    let mut i: usize = 0;
    while i < events.len()
        invariant
            i <= events@.len(),
            r@.len() == i,
            forall|seconds: u64| #[trigger] call_requires(to_time, (seconds,)),
            forall|j: int|
                0 <= j < i ==> {
                    &&& call_ensures(to_time, (events@[j].time,), (#[trigger] r@[j]).time)
                    &&& r@[j].code == events@[j].code
                    &&& r@[j].data == events@[j].data
                },
        decreases events@.len() - i,
    {
        let event: &CastEvent = &events[i];
        let time: Option<u128> = to_time(event.time);
        r.push(Event { time, code: event.code.clone(), data: event.data.clone() });
        i += 1;
    }
    r
}

/// Finds the first output event from `from` on.
pub fn skip_to_output(events: &Vec<Event>, from: usize) -> (r: usize)
    ensures
        r == next_output(events@, from as int),
        from <= events@.len() ==> from <= r <= events@.len(),
        r < events@.len() ==> is_output(events@[r as int]),
{
    let mut i: usize = from;
    while i < events.len() && !events[i].is_output()
        invariant
            next_output(events@, i as int) == next_output(events@, from as int),
            from <= i,
            from <= events@.len() ==> i <= events@.len(),
        decreases events@.len() - i,
    {
        i += 1;
    }
    if i < events.len() {
        i
    } else {
        events.len()
    }
}

/// What shows the screen as it is after the first `up_to_idx` events.
pub fn restore_screen(events: &Vec<Event>, up_to_idx: usize) -> (r: Vec<Effect>)
    requires
        up_to_idx <= events@.len(),
    ensures
        r@ == redraw(events@, up_to_idx as int),
{
    let mut r: Vec<Effect> = Vec::new();
    r.push(Effect::ClearScreen);
    let mut i: usize = 0;
    assert(r@ =~= redraw(events@, 0));
    while i < up_to_idx
        invariant
            i <= up_to_idx <= events@.len(),
            r@ == redraw(events@, i as int),
        decreases up_to_idx - i,
    {
        if events[i].is_output() {
            r.push(Effect::Output(events[i].data.clone()));
        }
        assert(r@ =~= redraw(events@, i + 1));
        i += 1;
    }
    r
}

/// Where a seek to `target` stops, and what shows the screen as it is there.
/// The event that it stops at may be one that has no time: then the seek cannot
/// be completed, and the second part is the fault.
pub fn seek_to(events: &Vec<Event>, target: u128) -> (r: (Vec<Effect>, Result<usize, Fault>))
    ensures
        r.0@ == redraw(events@, seek_index(events@, target)),
        ({
            let stop = seek_index(events@, target);
            if stop < events@.len() && events@[stop].time is None {
                r.1 == Err::<usize, Fault>(Fault::TimeOutOfRange(stop as usize))
            } else {
                r.1 == Ok::<usize, Fault>(stop as usize)
            }
        }),
        0 <= seek_index(events@, target) <= events@.len(),
{
    let ghost ends = |e: Event| ends_seek(e, target);
    let mut effects: Vec<Effect> = Vec::new();
    effects.push(Effect::ClearScreen);
    let mut i: usize = 0;
    assert(effects@ =~= redraw(events@, 0));
    while i < events.len()
        invariant
            i <= events@.len(),
            ends == |e: Event| ends_seek(e, target),
            first(events@, ends, i as int) == seek_index(events@, target),
            effects@ == redraw(events@, i as int),
        decreases events@.len() - i,
    {
        let event: &Event = &events[i];
        if event.is_output() {
            match event.time {
                None => {
                    assert(ends(events@[i as int]));
                    return (effects, Err(Fault::TimeOutOfRange(i)));
                },
                Some(time) => {
                    if time > target {
                        assert(ends(events@[i as int]));
                        return (effects, Ok(i));
                    }
                },
            }
            effects.push(Effect::Output(event.data.clone()));
        }
        assert(!ends(events@[i as int]));
        assert(effects@ =~= redraw(events@, i + 1));
        i += 1;
    }
    (effects, Ok(events.len()))
}

/// How long to wait until `target`, when `elapsed` has passed.
pub open spec fn delay_until(target: u128, elapsed: u128) -> u128 {
    if target > elapsed {
        (target - elapsed) as u128
    } else {
        0
    }
}

/// What to do next in a recording that is played straight through: the events
/// before `from` have been sent, and `elapsed` has passed since the start.
pub fn play(events: &Vec<Event>, from: usize, elapsed: u128) -> (r: PlayStep)
    ensures
        ({
            let index = next_output(events@, from as int);
            if index >= events@.len() {
                r == PlayStep::Finished
            } else {
                match events@[index].time {
                    None => r == (PlayStep::Fail { fault: Fault::TimeOutOfRange(index as usize) }),
                    Some(target) => r == (PlayStep::Deliver {
                        index: index as usize,
                        delay: delay_until(target, elapsed),
                        data: events@[index].data,
                    }),
                }
            }
        }),
{
    let index: usize = skip_to_output(events, from);
    if index >= events.len() {
        return PlayStep::Finished;
    }
    match events[index].time {
        None => PlayStep::Fail { fault: Fault::TimeOutOfRange(index) },
        Some(target) => {
            let delay: u128 = if target > elapsed {
                target - elapsed
            } else {
                0
            };
            PlayStep::Deliver { index, delay, data: events[index].data.clone() }
        },
    }
}

/// How playback straight through goes on after the data of the event at `index`
/// was to be sent: with the event after it, or, where it could not be sent, not
/// at all.
pub open spec fn after_send(index: int, sent: bool) -> PlayNext {
    if sent {
        PlayNext::From((index + 1) as usize)
    } else {
        PlayNext::Finished
    }
}

/// How playback straight through goes on after a send: see `after_send`.
pub fn play_next(index: usize, sent: bool) -> (r: PlayNext)
    requires
        index < usize::MAX,
    ensures
        r == after_send(index as int, sent),
{
    if sent {
        PlayNext::From(index + 1)
    } else {
        PlayNext::Finished
    }
}

/// What shows the output of so many events anew; nothing without a number.
pub open spec fn again(events: Seq<Event>, redrawn: Option<usize>) -> Seq<Effect> {
    match redrawn {
        Some(n) => redraw(events, n as int),
        None => seq![],
    }
}

impl Script {
    /// No effects.
    pub open spec fn is_empty(&self) -> bool {
        &&& self.effects@.len() == 0
        &&& self.done == 0
        &&& self.redrawn is None
        &&& self.after == 0
        &&& self.position is None
        &&& self.fault is None
    }

    /// Whether the position is the one that the effects lead to.
    pub open spec fn landed(&self) -> bool {
        self.position is Some && 1 <= self.done && self.after <= self.done
    }

    /// A script without effects.
    fn none() -> (r: Script)
        ensures
            r.is_empty(),
    {
        Script {
            effects: Vec::new(),
            done: 0,
            redrawn: None,
            after: 0,
            position: None,
            fault: None,
        }
    }
}

impl PlayerState {
    /// What holds of every player.
    pub open spec fn wf(&self) -> bool {
        &&& self.next_idx <= self.events@.len()
        &&& self.overlay_visible ==> self.paused
        &&& self.total_duration == total_time(self.events@)
        &&& self.idle() || self.busy()
    }

    /// Whether no effects are under way.
    pub open spec fn idle(&self) -> bool {
        self.script.is_empty()
    }

    /// Whether effects are under way, and are as they should be: first those
    /// that show the output of some events anew, then others that neither clear
    /// nor send. The position that they lead to is the player's once the first
    /// of them are done.
    pub open spec fn busy(&self) -> bool {
        let s = self.script;
        &&& s.done < s.effects@.len()
        &&& s.after <= s.effects@.len()
        &&& s.effects@.take(s.after as int) == again(self.events@, s.redrawn)
        &&& forall|i: int|
            s.after <= i < s.effects@.len() ==> !(#[trigger] s.effects@[i] is ClearScreen) && !(
            s.effects@[i] is Output)
        &&& s.redrawn matches Some(n) ==> n <= self.events@.len()
        &&& s.fault is Some ==> s.position is None
        &&& s.landed() || (s.position is None && s.fault is None) ==> (s.redrawn matches Some(n)
            ==> n == self.next_idx)
        &&& s.landed() ==> {
            &&& self.current_time == s.position->0
            &&& self.time_offset == s.position->0
        }
    }

    /// Whether the next event is one that can be delivered.
    pub open spec fn pending(&self) -> bool {
        &&& self.idle()
        &&& !self.paused
        &&& self.next_idx < self.events@.len()
        &&& is_output(self.events@[self.next_idx as int])
        &&& self.events@[self.next_idx as int].time is Some
    }

    /// Whether a signal makes sense in this state: effects are reported while
    /// some are under way, a delivery while there is an event to deliver, and
    /// the rest while no effects are under way.
    pub open spec fn allows(&self, signal: Signal) -> bool {
        match signal {
            Signal::Poll { .. } => self.idle(),
            Signal::Command { .. } => self.idle(),
            Signal::Sent { .. } => self.pending(),
            Signal::Performed { .. } => !self.idle(),
        }
    }

    /// Whether this can be the state of a player that waits to be told this.
    pub open spec fn fits(&self, asked: Asked) -> bool {
        match asked {
            Asked::Poll => self.idle(),
            Asked::Command => self.idle() && self.paused,
            Asked::DeliveryOrCommand | Asked::Delivery => self.pending(),
            Asked::Effect => self.busy(),
            Asked::Nothing => true,
        }
    }

    /// The state at the start of a recording: see `Player::new`.
    fn new(events: Vec<Event>) -> (r: Result<PlayerState, Fault>)
        ensures
            match r {
                Ok(player) => {
                    &&& player.wf()
                    &&& player.idle()
                    &&& events@.len() > 0 ==> events@.last().time is Some
                    &&& player == (PlayerState {
                        events,
                        paused: false,
                        overlay_visible: false,
                        current_time: 0,
                        next_idx: 0,
                        time_offset: 0,
                        total_duration: total_time(events@),
                        script: player.script,
                    })
                },
                Err(fault) => {
                    &&& events@.len() > 0
                    &&& events@.last().time is None
                    &&& fault == Fault::TimeOutOfRange((events@.len() - 1) as usize)
                },
            },
    {
        let mut total_duration: u128 = 0;
        if events.len() > 0 {
            let last: usize = events.len() - 1;
            match events[last].time {
                None => {
                    return Err(Fault::TimeOutOfRange(last));
                },
                Some(time) => {
                    total_duration = time;
                },
            }
        }
        Ok(
            PlayerState {
                events,
                paused: false,
                overlay_visible: false,
                current_time: 0,
                next_idx: 0,
                time_offset: 0,
                total_duration,
                script: Script::none(),
            },
        )
    }
}

/// What polling a player does. A paused one waits for a command. Otherwise the
/// next output is delivered when it is due, and playback is over when there is
/// none left.
pub open spec fn polled(p: PlayerState, elapsed: u128, q: PlayerState, action: Action) -> bool {
    let k = next_output(p.events@, p.next_idx as int);
    let now = p.time_offset + elapsed;
    if p.paused {
        q == p && action == Action::AwaitCommand
    } else if k >= p.events@.len() {
        q == (PlayerState { next_idx: k as usize, ..p }) && action == Action::Stop
    } else {
        match p.events@[k].time {
            None => {
                &&& q == (PlayerState { next_idx: k as usize, ..p })
                &&& action == (Action::Fail { fault: Fault::TimeOutOfRange(k as usize) })
            },
            Some(due) => if now > TIME_LIMIT {
                &&& q == (PlayerState { next_idx: k as usize, ..p })
                &&& action == (Action::Fail { fault: Fault::ClockOverflow })
            } else {
                let data = p.events@[k].data;
                &&& q == (PlayerState { next_idx: k as usize, current_time: now as u128, ..p })
                &&& action == if due > now {
                    Action::Wait { remaining: (due - now) as u128, data }
                } else {
                    Action::Deliver { data }
                }
            },
        }
    }
}

/// What a delivery does. When the data was sent, the position is that of the
/// event, and the event is behind. When it could not be, playback is over.
pub open spec fn delivered(p: PlayerState, ok: bool, q: PlayerState, action: Action) -> bool {
    if ok {
        &&& q == (PlayerState {
            current_time: p.events@[p.next_idx as int].time->0,
            next_idx: (p.next_idx + 1) as usize,
            ..p
        })
        &&& action == Action::Continue
    } else {
        q == p && action == Action::Stop
    }
}

/// Whether `q` is `p` with these effects under way, none of them carried out
/// yet, and the first of them asked for.
pub open spec fn began(
    p: PlayerState,
    effects: Seq<Effect>,
    redrawn: Option<usize>,
    position: Option<u128>,
    fault: Option<Fault>,
    q: PlayerState,
    action: Action,
) -> bool {
    &&& q == (PlayerState { script: q.script, ..p })
    &&& q.script.effects@ == effects
    &&& q.script.done == 0
    &&& q.script.redrawn == redrawn
    &&& q.script.after == again(p.events@, redrawn).len()
    &&& q.script.position == position
    &&& q.script.fault == fault
    &&& action == (Action::Perform { effect: effects[0] })
}

/// The player once the effects under way are done as far as `done`: it has the
/// position that they lead to if that is far enough, and its old one if not.
pub open spec fn moved(p: PlayerState, done: int) -> PlayerState {
    match p.script.position {
        Some(position) => if done >= p.script.after {
            PlayerState {
                next_idx: match p.script.redrawn {
                    Some(n) => n,
                    None => p.next_idx,
                },
                current_time: position,
                time_offset: position,
                ..p
            }
        } else {
            p
        },
        None => p,
    }
}

/// What carrying out an effect does. The next one is asked for; after the last,
/// playback goes on or ends with the fault that it led to. An effect that could
/// not be carried out ends playback: no other is asked for, and the position
/// stays as it is.
pub open spec fn performed(p: PlayerState, ok: bool, q: PlayerState, action: Action) -> bool {
    let s = p.script;
    let done = s.done + 1;
    if !ok {
        q == p && action == (Action::Fail { fault: failure_of(s.effects@[s.done as int]) })
    } else if done < s.effects@.len() {
        &&& q == (PlayerState { script: Script { done: done as usize, ..s }, ..moved(p, done) })
        &&& action == (Action::Perform { effect: s.effects@[done] })
    } else {
        &&& q == (PlayerState { script: q.script, ..moved(p, done) })
        &&& q.idle()
        &&& action == match s.fault {
            Some(fault) => Action::Fail { fault },
            None => Action::Continue,
        }
    }
}

/// What a seek to `target` does, followed by the effects `then_effects`: the
/// position changes only when the screen has been redrawn.
pub open spec fn sought(
    p: PlayerState,
    target: u128,
    then_effects: Seq<Effect>,
    q: PlayerState,
    action: Action,
) -> bool {
    let stop = seek_index(p.events@, target);
    let shown_anew = redraw(p.events@, stop);
    if stop < p.events@.len() && p.events@[stop].time is None {
        let fault = Fault::TimeOutOfRange(stop as usize);
        began(p, shown_anew, Some(stop as usize), None, Some(fault), q, action)
    } else {
        began(p, shown_anew + then_effects, Some(stop as usize), Some(target), None, q, action)
    }
}

/// The position one step before the current one, but not before the start.
pub open spec fn back_target(p: PlayerState) -> u128 {
    if p.current_time < SEEK_STEP {
        0
    } else {
        (p.current_time - SEEK_STEP) as u128
    }
}

/// The position one step after the current one, but not after the end.
pub open spec fn forward_target(p: PlayerState) -> u128 {
    if p.current_time + SEEK_STEP < p.total_duration {
        (p.current_time + SEEK_STEP) as u128
    } else {
        p.total_duration
    }
}

/// The overlay with the player's times on it.
pub open spec fn overlay_of(p: PlayerState, position: u128) -> Effect {
    Effect::DrawOverlay { position, total: p.total_duration }
}

/// The overlay for this position, if it is to be seen.
pub open spec fn overlay_if_visible(p: PlayerState, position: u128) -> Seq<Effect> {
    if p.overlay_visible {
        seq![overlay_of(p, position)]
    } else {
        seq![]
    }
}

/// What a command does to a paused player. `None` is that no more will come.
pub open spec fn commanded_paused(
    p: PlayerState,
    command: Option<PlaybackCommand>,
    q: PlayerState,
    action: Action,
) -> bool {
    match command {
        None | Some(PlaybackCommand::Quit) => q == p && action == Action::Stop,
        Some(PlaybackCommand::TogglePause) => {
            let redrawn = if p.overlay_visible {
                Some(p.next_idx)
            } else {
                None
            };
            began(
                PlayerState { paused: false, overlay_visible: false, ..p },
                again(p.events@, redrawn).push(Effect::RestartClock),
                redrawn,
                Some(p.current_time),
                None,
                q,
                action,
            )
        },
        Some(PlaybackCommand::SeekBack) => {
            let target = back_target(p);
            sought(p, target, overlay_if_visible(p, target), q, action)
        },
        Some(PlaybackCommand::SeekForward) => if p.current_time + SEEK_STEP > TIME_LIMIT {
            q == p && action == (Action::Fail { fault: Fault::ClockOverflow })
        } else {
            let target = forward_target(p);
            sought(p, target, overlay_if_visible(p, target), q, action)
        },
        Some(PlaybackCommand::ToggleOverlay) => if p.overlay_visible {
            began(
                PlayerState { overlay_visible: false, ..p },
                redraw(p.events@, p.next_idx as int),
                Some(p.next_idx),
                None,
                None,
                q,
                action,
            )
        } else {
            began(
                PlayerState { overlay_visible: true, ..p },
                seq![overlay_of(p, p.current_time)],
                None,
                None,
                None,
                q,
                action,
            )
        },
    }
}

/// What a command does to a player that is playing, once its position is up to
/// date. `None` is that no more will come.
pub open spec fn commanded_playing(
    p: PlayerState,
    command: Option<PlaybackCommand>,
    q: PlayerState,
    action: Action,
) -> bool {
    match command {
        None | Some(PlaybackCommand::Quit) => q == p && action == Action::Stop,
        Some(PlaybackCommand::TogglePause) => began(
            PlayerState { paused: true, overlay_visible: true, ..p },
            seq![overlay_of(p, p.current_time)],
            None,
            None,
            None,
            q,
            action,
        ),
        Some(PlaybackCommand::SeekBack) => sought(
            p,
            back_target(p),
            seq![Effect::RestartClock],
            q,
            action,
        ),
        Some(PlaybackCommand::SeekForward) => if p.current_time + SEEK_STEP > TIME_LIMIT {
            q == p && action == (Action::Fail { fault: Fault::ClockOverflow })
        } else {
            sought(p, forward_target(p), seq![Effect::RestartClock], q, action)
        },
        Some(PlaybackCommand::ToggleOverlay) => q == p && action == Action::Continue,
    }
}

/// What a command does.
pub open spec fn commanded(
    p: PlayerState,
    command: Option<PlaybackCommand>,
    elapsed: u128,
    q: PlayerState,
    action: Action,
) -> bool {
    if p.paused {
        commanded_paused(p, command, q, action)
    } else if p.time_offset + elapsed > TIME_LIMIT {
        q == p && action == (Action::Fail { fault: Fault::ClockOverflow })
    } else {
        commanded_playing(
            PlayerState { current_time: (p.time_offset + elapsed) as u128, ..p },
            command,
            q,
            action,
        )
    }
}

/// What a signal does: `p` becomes `q`, and asks for `action`.
pub open spec fn transition(p: PlayerState, signal: Signal, q: PlayerState, action: Action) -> bool {
    match signal {
        Signal::Poll { elapsed } => polled(p, elapsed, q, action),
        Signal::Sent { ok } => delivered(p, ok, q, action),
        Signal::Command { command, elapsed } => commanded(p, command, elapsed, q, action),
        Signal::Performed { ok } => performed(p, ok, q, action),
    }
}

/// What a player waits to be told after this action.
pub open spec fn asked_by(action: Action) -> Asked {
    match action {
        Action::AwaitCommand => Asked::Command,
        Action::Wait { .. } => Asked::DeliveryOrCommand,
        Action::Deliver { .. } => Asked::Delivery,
        Action::Perform { .. } => Asked::Effect,
        Action::Continue => Asked::Poll,
        Action::Stop => Asked::Nothing,
        Action::Fail { .. } => Asked::Nothing,
    }
}

/// Whether a signal is what a player waits to be told.
pub open spec fn answers(asked: Asked, signal: Signal) -> bool {
    match asked {
        Asked::Poll => signal is Poll,
        Asked::Command => signal is Command,
        Asked::DeliveryOrCommand => signal is Sent || signal is Command,
        Asked::Delivery => signal is Sent,
        Asked::Effect => signal is Performed,
        Asked::Nothing => false,
    }
}

impl Action {
    /// What a player waits to be told after this action.
    fn asked(&self) -> (r: Asked)
        ensures
            r == asked_by(*self),
    {
        match self {
            Action::AwaitCommand => Asked::Command,
            Action::Wait { .. } => Asked::DeliveryOrCommand,
            Action::Deliver { .. } => Asked::Delivery,
            Action::Perform { .. } => Asked::Effect,
            Action::Continue => Asked::Poll,
            Action::Stop => Asked::Nothing,
            Action::Fail { .. } => Asked::Nothing,
        }
    }
}

impl PlayerState {
    /// Begins to carry out effects, of which the first `after` are those of
    /// `again`.
    fn begin(
        &mut self,
        effects: Vec<Effect>,
        after: usize,
        redrawn: Option<usize>,
        position: Option<u128>,
        fault: Option<Fault>,
    ) -> (r: Action)
        requires
            old(self).idle(),
            effects@.len() > 0,
            after == again(old(self).events@, redrawn).len(),
        ensures
            began(*old(self), effects@, redrawn, position, fault, *final(self), r),
    {
        let effect: Effect = effects[0].clone();
        self.script = Script { effects, done: 0, redrawn, after, position, fault };
        Action::Perform { effect }
    }

    /// Begins a seek to `target`, and then the effects in `then_effects`.
    fn seek(&mut self, target: u128, then_effects: Vec<Effect>) -> (r: Action)
        requires
            old(self).wf(),
            old(self).idle(),
            forall|i: int|
                0 <= i < then_effects@.len() ==> !(#[trigger] then_effects@[i] is ClearScreen) && !(
                then_effects@[i] is Output),
        ensures
            final(self).wf(),
            final(self).busy(),
            sought(*old(self), target, then_effects@, *final(self), r),
    {
        let (mut effects, stop) = seek_to(&self.events, target);
        let after: usize = effects.len();
        let ghost anew = effects@;
        match stop {
            Err(fault) => {
                let index: usize = match fault {
                    Fault::TimeOutOfRange(index) => index,
                    _ => 0,
                };
                assert(self.events.len() == self.events@.len());
                assert(effects@.take(after as int) =~= anew);
                self.begin(effects, after, Some(index), None, Some(fault))
            },
            Ok(next_idx) => {
                assert(self.events.len() == self.events@.len());
                let mut rest: Vec<Effect> = then_effects;
                effects.append(&mut rest);
                assert(effects@ =~= anew + then_effects@);
                assert(effects@.take(after as int) =~= anew);
                self.begin(effects, after, Some(next_idx), Some(target), None)
            },
        }
    }

    /// The position at this time on the clock, if it can be counted.
    fn position(&self, elapsed: u128) -> (r: Option<u128>)
        ensures
            match r {
                Some(now) => now == self.time_offset + elapsed && now <= TIME_LIMIT,
                None => self.time_offset + elapsed > TIME_LIMIT,
            },
    {
        match self.time_offset.checked_add(elapsed) {
            None => None,
            Some(now) => if now > TIME_LIMIT {
                None
            } else {
                Some(now)
            },
        }
    }

    /// Polls: see `polled`.
    fn poll(&mut self, elapsed: u128) -> (r: Action)
        requires
            old(self).wf(),
            old(self).idle(),
        ensures
            final(self).wf(),
            final(self).idle(),
            polled(*old(self), elapsed, *final(self), r),
            r is Wait || r is Deliver ==> final(self).pending(),
    {
        if self.paused {
            return Action::AwaitCommand;
        }
        self.next_idx = skip_to_output(&self.events, self.next_idx);
        if self.next_idx >= self.events.len() {
            return Action::Stop;
        }
        match self.events[self.next_idx].time {
            None => Action::Fail { fault: Fault::TimeOutOfRange(self.next_idx) },
            Some(due) => match self.position(elapsed) {
                None => Action::Fail { fault: Fault::ClockOverflow },
                Some(now) => {
                    self.current_time = now;
                    let data: String = self.events[self.next_idx].data.clone();
                    if due > now {
                        Action::Wait { remaining: due - now, data }
                    } else {
                        Action::Deliver { data }
                    }
                },
            },
        }
    }

    /// Takes note of a delivery: see `delivered`.
    fn sent(&mut self, ok: bool) -> (r: Action)
        requires
            old(self).wf(),
            old(self).pending(),
        ensures
            final(self).wf(),
            final(self).idle(),
            delivered(*old(self), ok, *final(self), r),
    {
        if !ok {
            return Action::Stop;
        }
        if let Some(time) = self.events[self.next_idx].time {
            self.current_time = time;
        }
        assert(self.next_idx < self.events.len());
        self.next_idx = self.next_idx + 1;
        Action::Continue
    }

    /// Takes note of an effect: see `performed`.
    fn perform(&mut self, ok: bool) -> (r: Action)
        requires
            old(self).wf(),
            old(self).busy(),
        ensures
            final(self).wf(),
            performed(*old(self), ok, *final(self), r),
            r is Perform ==> final(self).busy(),
    {
        if !ok {
            return Action::Fail { fault: self.script.effects[self.script.done].failure() };
        }
        assert(self.script.done < self.script.effects.len());
        let done: usize = self.script.done + 1;
        if let Some(position) = self.script.position {
            if done >= self.script.after {
                if let Some(n) = self.script.redrawn {
                    self.next_idx = n;
                }
                self.current_time = position;
                self.time_offset = position;
            }
        }
        if done < self.script.effects.len() {
            let effect: Effect = self.script.effects[done].clone();
            self.script.done = done;
            Action::Perform { effect }
        } else {
            let fault: Option<Fault> = self.script.fault;
            self.script = Script::none();
            match fault {
                Some(fault) => Action::Fail { fault },
                None => Action::Continue,
            }
        }
    }

    /// The position that a seek back goes to.
    fn back(&self) -> (r: u128)
        ensures
            r == back_target(*self),
    {
        if self.current_time < SEEK_STEP {
            0
        } else {
            self.current_time - SEEK_STEP
        }
    }

    /// The position that a seek forward goes to, if it can be counted.
    fn forward(&self) -> (r: Option<u128>)
        ensures
            match r {
                Some(target) => {
                    &&& self.current_time + SEEK_STEP <= TIME_LIMIT
                    &&& target == forward_target(*self)
                },
                None => self.current_time + SEEK_STEP > TIME_LIMIT,
            },
    {
        match self.current_time.checked_add(SEEK_STEP) {
            None => None,
            Some(ahead) => if ahead > TIME_LIMIT {
                None
            } else if ahead < self.total_duration {
                Some(ahead)
            } else {
                Some(self.total_duration)
            },
        }
    }

    /// The overlay for this position, if it is to be seen.
    fn overlay_effects(&self, position: u128) -> (r: Vec<Effect>)
        ensures
            r@ == overlay_if_visible(*self, position),
    {
        let mut r: Vec<Effect> = Vec::new();
        if self.overlay_visible {
            r.push(Effect::DrawOverlay { position, total: self.total_duration });
        }
        r
    }

    /// Carries out a command on a paused player: see `commanded_paused`.
    fn command_paused(&mut self, command: Option<PlaybackCommand>) -> (r: Action)
        requires
            old(self).wf(),
            old(self).idle(),
            old(self).paused,
        ensures
            final(self).wf(),
            commanded_paused(*old(self), command, *final(self), r),
            r is Perform ==> final(self).busy(),
            r is Continue ==> final(self).idle(),
    {
        match command {
            None | Some(PlaybackCommand::Quit) => Action::Stop,
            Some(PlaybackCommand::TogglePause) => {
                let mut effects: Vec<Effect> = Vec::new();
                let mut redrawn: Option<usize> = None;
                if self.overlay_visible {
                    effects = restore_screen(&self.events, self.next_idx);
                    redrawn = Some(self.next_idx);
                }
                let ghost anew = effects@;
                let after: usize = effects.len();
                effects.push(Effect::RestartClock);
                assert(anew =~= again(self.events@, redrawn));
                assert(effects@.take(after as int) =~= anew);
                self.paused = false;
                self.overlay_visible = false;
                self.begin(effects, after, redrawn, Some(self.current_time), None)
            },
            Some(PlaybackCommand::SeekBack) => {
                let target: u128 = self.back();
                let then_effects: Vec<Effect> = self.overlay_effects(target);
                self.seek(target, then_effects)
            },
            Some(PlaybackCommand::SeekForward) => match self.forward() {
                None => Action::Fail { fault: Fault::ClockOverflow },
                Some(target) => {
                    let then_effects: Vec<Effect> = self.overlay_effects(target);
                    self.seek(target, then_effects)
                },
            },
            Some(PlaybackCommand::ToggleOverlay) => {
                if self.overlay_visible {
                    let effects: Vec<Effect> = restore_screen(&self.events, self.next_idx);
                    let after: usize = effects.len();
                    assert(effects@.take(after as int) =~= effects@);
                    self.overlay_visible = false;
                    self.begin(effects, after, Some(self.next_idx), None, None)
                } else {
                    self.overlay_visible = true;
                    let effects: Vec<Effect> = self.overlay_effects(self.current_time);
                    assert(effects@.take(0) =~= seq![]);
                    self.begin(effects, 0, None, None, None)
                }
            },
        }
    }

    /// Carries out a command on a player that is playing: see
    /// `commanded_playing`.
    fn command_playing(&mut self, command: Option<PlaybackCommand>) -> (r: Action)
        requires
            old(self).wf(),
            old(self).idle(),
            !old(self).paused,
        ensures
            final(self).wf(),
            commanded_playing(*old(self), command, *final(self), r),
            r is Perform ==> final(self).busy(),
            r is Continue ==> final(self).idle(),
    {
        let restart: Vec<Effect> = vec![Effect::RestartClock];
        assert(restart@ =~= seq![Effect::RestartClock]);
        match command {
            None | Some(PlaybackCommand::Quit) => Action::Stop,
            Some(PlaybackCommand::TogglePause) => {
                self.paused = true;
                self.overlay_visible = true;
                let effects: Vec<Effect> = self.overlay_effects(self.current_time);
                assert(effects@.take(0) =~= seq![]);
                self.begin(effects, 0, None, None, None)
            },
            Some(PlaybackCommand::SeekBack) => {
                let target: u128 = self.back();
                self.seek(target, restart)
            },
            Some(PlaybackCommand::SeekForward) => match self.forward() {
                None => Action::Fail { fault: Fault::ClockOverflow },
                Some(target) => self.seek(target, restart),
            },
            Some(PlaybackCommand::ToggleOverlay) => Action::Continue,
        }
    }
}

impl PlayerState {
    /// Takes a signal: see `transition`.
    fn step(&mut self, signal: Signal) -> (r: Action)
        requires
            old(self).wf(),
            old(self).allows(signal),
        ensures
            final(self).wf(),
            transition(*old(self), signal, *final(self), r),
            final(self).fits(asked_by(r)),
    {
        match signal {
            Signal::Poll { elapsed } => self.poll(elapsed),
            Signal::Sent { ok } => self.sent(ok),
            Signal::Command { command, elapsed } => {
                if self.paused {
                    self.command_paused(command)
                } else {
                    match self.position(elapsed) {
                        None => Action::Fail { fault: Fault::ClockOverflow },
                        Some(now) => {
                            self.current_time = now;
                            self.command_playing(command)
                        },
                    }
                }
            },
            Signal::Performed { ok } => self.perform(ok),
        }
    }

    /// The state of a player of nothing.
    fn empty() -> (r: PlayerState)
        ensures
            r.wf(),
    {
        PlayerState {
            events: Vec::new(),
            paused: false,
            overlay_visible: false,
            current_time: 0,
            next_idx: 0,
            time_offset: 0,
            total_duration: 0,
            script: Script::none(),
        }
    }
}

impl Player {
    /// The state is as it should be, and fits what the player waits to be told.
    #[verifier::type_invariant]
    spec fn inv(self) -> bool {
        self.state.wf() && self.state.fits(self.asked)
    }

    /// The state of the playback.
    pub closed spec fn view(&self) -> PlayerState {
        self.state
    }

    /// What the player waits to be told.
    pub closed spec fn asked(&self) -> Asked {
        self.asked
    }

    /// A player at the start of a recording, which waits to be polled. The last
    /// event must have a time, which is the length of the recording.
    pub fn new(events: Vec<Event>) -> (r: Result<Player, Fault>)
        ensures
            match r {
                Ok(player) => {
                    &&& events@.len() > 0 ==> events@.last().time is Some
                    &&& player.asked() == Asked::Poll
                    &&& player@.wf()
                    &&& player@.idle()
                    &&& player@ == (PlayerState {
                        events,
                        paused: false,
                        overlay_visible: false,
                        current_time: 0,
                        next_idx: 0,
                        time_offset: 0,
                        total_duration: total_time(events@),
                        script: player@.script,
                    })
                },
                Err(fault) => {
                    &&& events@.len() > 0
                    &&& events@.last().time is None
                    &&& fault == Fault::TimeOutOfRange((events@.len() - 1) as usize)
                },
            },
    {
        match PlayerState::new(events) {
            Ok(state) => Ok(Player { state, asked: Asked::Poll }),
            Err(fault) => Err(fault),
        }
    }

    /// The state of the playback, to be looked at.
    pub fn state(&self) -> (r: &PlayerState)
        ensures
            *r == self@,
            self@.wf(),
            self@.fits(self.asked()),
    {
        proof {
            use_type_invariant(self);
        }
        &self.state
    }
}

/// Tells a player of a signal that it waits for. It changes as `transition`
/// says, and the action is what it asks for.
pub fn play_interactive(player: &mut Player, signal: Signal) -> (r: Action)
    requires
        answers(old(player).asked(), signal),
    ensures
        final(player)@.wf(),
        transition(old(player)@, signal, final(player)@, r),
        final(player).asked() == asked_by(r),
        final(player)@.fits(asked_by(r)),
{
    proof {
        use_type_invariant(&*player);
    }
    player.asked = Asked::Nothing;
    let mut state: PlayerState = PlayerState::empty();
    std::mem::swap(&mut state, &mut player.state);
    let r: Action = state.step(signal);
    player.state = state;
    player.asked = r.asked();
    r
}

} // verus!

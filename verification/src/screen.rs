//! What a viewer sees, and what playback promises about it.
#[allow(unused_imports)]
use crate::player::{
    Action, Asked, Effect, Event, Fault, PlayNext, PlaybackCommand, PlayerState, Script, Signal,
    after_send, again, answers, asked_by, back_target, began, commanded, delay_until, ends_seek,
    failure_of, first, forward_target, is_output, moved, next_output, outputs, payload_of,
    performed, polled, redraw, seek_index, sought, total_time, transition, SEEK_STEP, TIME_LIMIT,
};
use vstd::prelude::*;

verus! {

/// The output on a screen after `effects`, when `before` was on it: what has
/// been sent since the screen was last cleared.
pub open spec fn shown(before: Seq<Effect>, effects: Seq<Effect>) -> Seq<Effect>
    decreases effects.len(),
{
    if effects.len() == 0 {
        before
    } else {
        let earlier = shown(before, effects.drop_last());
        match effects.last() {
            Effect::ClearScreen => seq![],
            Effect::Output(data) => earlier.push(Effect::Output(data)),
            _ => earlier,
        }
    }
}

/// `first` finds an event that is wanted, and none before it is.
proof fn lemma_first(events: Seq<Event>, wanted: spec_fn(Event) -> bool, from: int)
    requires
        0 <= from <= events.len(),
    ensures
        from <= first(events, wanted, from) <= events.len(),
        first(events, wanted, from) < events.len() ==> wanted(
            events[first(events, wanted, from)],
        ),
        forall|j: int| from <= j < first(events, wanted, from) ==> !wanted(#[trigger] events[j]),
    decreases events.len() - from,
{
    if from < events.len() && !wanted(events[from]) {
        lemma_first(events, wanted, from + 1);
    }
}

/// Events that are not output add nothing.
proof fn lemma_no_output_between(events: Seq<Event>, from: int, to: int)
    requires
        0 <= from <= to <= events.len(),
        forall|j: int| from <= j < to ==> !is_output(#[trigger] events[j]),
    ensures
        outputs(events, to) == outputs(events, from),
    decreases to - from,
{
    if from < to {
        lemma_no_output_between(events, from, to - 1);
        assert(!is_output(events[to - 1]));
    }
}

/// Going on to the next output passes over nothing that would be seen.
proof fn lemma_skipping_shows_nothing(events: Seq<Event>, from: int)
    requires
        0 <= from <= events.len(),
    ensures
        from <= next_output(events, from) <= events.len(),
        outputs(events, next_output(events, from)) == outputs(events, from),
        next_output(events, from) < events.len() ==> is_output(
            events[next_output(events, from)],
        ),
{
    let wanted = |e: Event| is_output(e);
    lemma_first(events, wanted, from);
    let k = next_output(events, from);
    assert forall|j: int| from <= j < k implies !is_output(#[trigger] events[j]) by {
        assert(!wanted(events[j]));
    }
    if k < events.len() {
        assert(wanted(events[k]));
    }
    lemma_no_output_between(events, from, k);
}

/// Redrawing shows the output of the first `n` events, whatever was there.
proof fn lemma_redraw_shows(before: Seq<Effect>, events: Seq<Event>, n: int)
    requires
        0 <= n <= events.len(),
    ensures
        shown(before, redraw(events, n)) == outputs(events, n),
    decreases n,
{
    let all = redraw(events, n);
    if n == 0 {
        assert(all =~= seq![Effect::ClearScreen]);
        assert(all.last() == Effect::ClearScreen);
    } else {
        lemma_redraw_shows(before, events, n - 1);
        if is_output(events[n - 1]) {
            assert(all.drop_last() =~= redraw(events, n - 1));
            assert(all.last() == Effect::Output(events[n - 1].data));
        } else {
            assert(all =~= redraw(events, n - 1));
        }
    }
}

/// Whether an effect changes what output is on the screen.
pub open spec fn changes_output(effect: Effect) -> bool {
    effect is ClearScreen || effect is Output
}

/// Carrying out one effect more.
proof fn lemma_shown_next(before: Seq<Effect>, effects: Seq<Effect>, n: int)
    requires
        0 <= n < effects.len(),
    ensures
        shown(before, effects.take(n + 1)) == shown(
            shown(before, effects.take(n)),
            seq![effects[n]],
        ),
        !changes_output(effects[n]) ==> shown(before, effects.take(n + 1)) == shown(
            before,
            effects.take(n),
        ),
{
    let one = seq![effects[n]];
    assert(effects.take(n + 1).drop_last() =~= effects.take(n));
    assert(one.drop_last() =~= seq![]);
    assert(shown(shown(before, effects.take(n)), one.drop_last()) == shown(
        before,
        effects.take(n),
    ));
}

/// Effects that do not change the output leave it as it is.
proof fn lemma_others_show_nothing(before: Seq<Effect>, effects: Seq<Effect>, from: int, to: int)
    requires
        0 <= from <= to <= effects.len(),
        forall|i: int| from <= i < to ==> !changes_output(#[trigger] effects[i]),
    ensures
        shown(before, effects.take(to)) == shown(before, effects.take(from)),
    decreases to - from,
{
    if from < to {
        lemma_others_show_nothing(before, effects, from, to - 1);
        lemma_shown_next(before, effects, to - 1);
    }
}

/// What is on the screen of a player: the output of the events before the next
/// one, and what the effects made of it that are done but have not moved the
/// player's position yet.
pub open spec fn on_screen(p: PlayerState) -> Seq<Effect> {
    let output = outputs(p.events@, p.next_idx as int);
    if p.script.landed() {
        output
    } else {
        shown(output, p.script.effects@.take(p.script.done as int))
    }
}

/// What is on the screen after a signal: data that was sent and an effect that
/// was carried out change it.
pub open spec fn screen_after(screen: Seq<Effect>, p: PlayerState, signal: Signal) -> Seq<Effect> {
    match signal {
        Signal::Sent { ok: true } => screen.push(
            Effect::Output(p.events@[p.next_idx as int].data),
        ),
        Signal::Performed { ok: true } => shown(
            screen,
            seq![p.script.effects@[p.script.done as int]],
        ),
        _ => screen,
    }
}

/// While a player is idle, the screen shows the output before the next event.
proof fn lemma_idle_screen(p: PlayerState)
    requires
        p.idle(),
    ensures
        on_screen(p) == outputs(p.events@, p.next_idx as int),
{
    assert(p.script.effects@.take(0) =~= seq![]);
}

/// The effects of `again` show the output of its events, or leave it.
proof fn lemma_again_shows(before: Seq<Effect>, p: PlayerState)
    requires
        p.busy(),
    ensures
        shown(before, p.script.effects@.take(p.script.after as int)) == match p.script.redrawn {
            Some(n) => outputs(p.events@, n as int),
            None => before,
        },
{
    if let Some(n) = p.script.redrawn {
        lemma_redraw_shows(before, p.events@, n as int);
    }
}

/// Carrying out an effect keeps the screen and the player in step.
proof fn lemma_performed_screen(p: PlayerState, q: PlayerState, action: Action)
    requires
        p.wf(),
        p.busy(),
        performed(p, true, q, action),
        !(action is Fail),
    ensures
        screen_after(on_screen(p), p, Signal::Performed { ok: true }) == on_screen(q),
{
    let s = p.script;
    let all = s.effects@;
    let done = s.done + 1;
    assert(all.len() == s.effects.len());
    let before = outputs(p.events@, p.next_idx as int);
    let effect = all[s.done as int];
    lemma_shown_next(before, all, s.done as int);
    lemma_again_shows(before, p);
    assert(all.take(all.len() as int) =~= all);
    if s.landed() {
        assert(!changes_output(effect));
        assert(seq![effect].drop_last() =~= seq![]);
        assert(shown(before, seq![effect].drop_last()) == before);
        assert(moved(p, done).next_idx == p.next_idx);
        assert(shown(before, seq![effect]) == before);
    } else if s.position is Some && done >= s.after {
        if s.after == 0 {
            assert(s.redrawn is None);
            lemma_others_show_nothing(before, all, 0, done);
            assert(all.take(0) =~= seq![]);
        } else {
            assert(done == s.after);
        }
    } else if done == all.len() {
        lemma_others_show_nothing(before, all, s.after as int, done);
    }
    if done == all.len() {
        lemma_idle_screen(q);
    }
}

/// Effects that have just begun have changed nothing yet.
proof fn lemma_began_screen(
    p: PlayerState,
    effects: Seq<Effect>,
    redrawn: Option<usize>,
    position: Option<u128>,
    fault: Option<Fault>,
    q: PlayerState,
    action: Action,
)
    requires
        began(p, effects, redrawn, position, fault, q, action),
    ensures
        on_screen(q) == outputs(p.events@, p.next_idx as int),
        q.events == p.events,
{
    assert(q.script.effects@.take(0) =~= seq![]);
}

/// At every moment the screen is in step with the player: the output on it is
/// that of the events before the next one, no more and no less, and while the
/// screen is being redrawn, as much as has been redrawn. Playing on, pausing,
/// resuming, seeking in either direction and toggling the overlay all keep it
/// so.
pub proof fn law_screen_follows_position(p: PlayerState, signal: Signal, q: PlayerState, action: Action)
    requires
        p.wf(),
        p.allows(signal),
        transition(p, signal, q, action),
        !(action is Fail),
    ensures
        q.events == p.events,
        screen_after(on_screen(p), p, signal) == on_screen(q),
        q.idle() ==> on_screen(q) == outputs(q.events@, q.next_idx as int),
{
    assert(p.events@.len() == p.events.len());
    let n = p.next_idx as int;
    if q.idle() {
        lemma_idle_screen(q);
    }
    match signal {
        Signal::Poll { elapsed } => {
            lemma_idle_screen(p);
            lemma_skipping_shows_nothing(p.events@, n);
        },
        Signal::Sent { ok } => {
            lemma_idle_screen(p);
        },
        Signal::Performed { ok } => {
            if ok {
                lemma_performed_screen(p, q, action);
            }
        },
        Signal::Command { command, elapsed } => {
            lemma_idle_screen(p);
            if action is Perform {
                let s = q.script;
                let at = PlayerState { script: p.script, ..q };
                lemma_began_screen(at, s.effects@, s.redrawn, s.position, s.fault, q, action);
            }
        },
    }
}

/// Effects that began as they should are under way as they should be.
proof fn lemma_began_is_busy(
    p: PlayerState,
    tail: Seq<Effect>,
    redrawn: Option<usize>,
    position: Option<u128>,
    fault: Option<Fault>,
    q: PlayerState,
    action: Action,
)
    requires
        began(p, again(p.events@, redrawn) + tail, redrawn, position, fault, q, action),
        redrawn is Some || tail.len() > 0,
        redrawn matches Some(k) ==> k <= p.events@.len(),
        fault is Some ==> position is None,
        position is None && fault is None ==> (redrawn matches Some(k) ==> k == p.next_idx),
        forall|i: int| 0 <= i < tail.len() ==> !changes_output(#[trigger] tail[i]),
    ensures
        q.busy(),
{
    let s = q.script;
    let anew = again(p.events@, redrawn);
    assert(s.effects@.take(s.after as int) =~= anew);
    assert forall|i: int| s.after <= i < s.effects@.len() implies !(#[trigger] s.effects@[i]
        is ClearScreen) && !(s.effects@[i] is Output) by {
        assert(s.effects@[i] == tail[i - s.after]);
        assert(!changes_output(tail[i - s.after]));
    }
}

/// Every signal leaves a player as players are, in a state in which it can wait
/// for what it asks for.
proof fn lemma_transition_keeps_wf(p: PlayerState, signal: Signal, q: PlayerState, action: Action)
    requires
        p.wf(),
        p.allows(signal),
        transition(p, signal, q, action),
    ensures
        q.wf(),
        q.fits(asked_by(action)),
{
    assert(p.events@.len() == p.events.len());
    match signal {
        Signal::Poll { elapsed } => {
            lemma_skipping_shows_nothing(p.events@, p.next_idx as int);
        },
        Signal::Command { command, elapsed } => {
            if action is Perform {
                let at = PlayerState { script: p.script, ..q };
                let s = q.script;
                let anew = again(p.events@, s.redrawn);
                if let Some(PlaybackCommand::SeekBack | PlaybackCommand::SeekForward) = command {
                    let now = if p.paused {
                        p
                    } else {
                        PlayerState { current_time: (p.time_offset + elapsed) as u128, ..p }
                    };
                    lemma_first(p.events@, |e: Event| ends_seek(e, back_target(now)), 0);
                    lemma_first(p.events@, |e: Event| ends_seek(e, forward_target(now)), 0);
                }
                let tail = s.effects@.skip(anew.len() as int);
                assert(s.effects@ =~= anew + tail);
                lemma_began_is_busy(at, tail, s.redrawn, s.position, s.fault, q, action);
            }
        },
        _ => {},
    }
}

/// The player before moment `n` of a run. A run is a sequence of signals, each
/// with the player that it left and the action that it brought.
pub open spec fn player_before(
    start: PlayerState,
    run: Seq<(Signal, PlayerState, Action)>,
    n: int,
) -> PlayerState {
    if n <= 0 {
        start
    } else {
        run[n - 1].1
    }
}

/// What the player waits to be told before moment `n` of a run: at the start, to
/// be polled.
pub open spec fn asked_before(run: Seq<(Signal, PlayerState, Action)>, n: int) -> Asked {
    if n <= 0 {
        Asked::Poll
    } else {
        asked_by(run[n - 1].2)
    }
}

/// Whether moment `n` of a run can follow the moments before it: the signal
/// answers what the player asked for last.
pub open spec fn is_moment(
    start: PlayerState,
    run: Seq<(Signal, PlayerState, Action)>,
    n: int,
) -> bool {
    let (signal, q, action) = run[n];
    &&& answers(asked_before(run, n), signal)
    &&& transition(player_before(start, run, n), signal, q, action)
}

/// Whether a run is one that a player can have from its start on.
pub open spec fn is_run(start: PlayerState, run: Seq<(Signal, PlayerState, Action)>) -> bool {
    forall|n: int| 0 <= n < run.len() ==> #[trigger] is_moment(start, run, n)
}

/// In every run the player is as players are, and in a state in which it can
/// wait for what it waits for.
proof fn lemma_run_keeps_wf(
    start: PlayerState,
    run: Seq<(Signal, PlayerState, Action)>,
    n: int,
)
    requires
        start.wf(),
        start.idle(),
        is_run(start, run),
        0 <= n <= run.len(),
    ensures
        player_before(start, run, n).wf(),
        player_before(start, run, n).fits(asked_before(run, n)),
        n < run.len() ==> player_before(start, run, n).allows(run[n].0),
    decreases n,
{
    if n > 0 {
        lemma_run_keeps_wf(start, run, n - 1);
        assert(is_moment(start, run, n - 1));
        let (signal, q, action) = run[n - 1];
        lemma_transition_keeps_wf(player_before(start, run, n - 1), signal, q, action);
    }
    if n < run.len() {
        assert(is_moment(start, run, n));
    }
}

/// The output on the screen before moment `n` of a run, when it was empty at
/// the start.
pub open spec fn screen_before(
    start: PlayerState,
    run: Seq<(Signal, PlayerState, Action)>,
    n: int,
) -> Seq<Effect>
    decreases n,
{
    if n <= 0 {
        seq![]
    } else {
        screen_after(
            screen_before(start, run, n - 1),
            player_before(start, run, n - 1),
            run[n - 1].0,
        )
    }
}

/// From the start of a recording, through any sequence of commands, the screen
/// is in step with the player. Whenever no effects are under way it shows the
/// output of exactly the events before the next one.
pub proof fn law_screen_follows_every_run(
    start: PlayerState,
    run: Seq<(Signal, PlayerState, Action)>,
    n: int,
)
    requires
        start.wf(),
        start.idle(),
        start.next_idx == 0,
        is_run(start, run),
        0 <= n <= run.len(),
        n > 0 ==> !(run[n - 1].2 is Fail),
    ensures
        ({
            let p = player_before(start, run, n);
            &&& p.wf()
            &&& p.events == start.events
            &&& screen_before(start, run, n) == on_screen(p)
            &&& p.idle() ==> screen_before(start, run, n) == outputs(
                start.events@,
                p.next_idx as int,
            )
        }),
    decreases n,
{
    lemma_run_keeps_wf(start, run, n);
    if n > 0 {
        assert(is_moment(start, run, n - 1));
        law_screen_follows_every_run(start, run, n - 1);
        lemma_run_keeps_wf(start, run, n - 1);
        let p = player_before(start, run, n - 1);
        let (signal, q, action) = run[n - 1];
        law_screen_follows_position(p, signal, q, action);
    } else {
        lemma_idle_screen(start);
    }
}

/// Whether the clock can have gone like this at moment `n` of a run: the player
/// is told of what the clock reads, and data is sent no sooner than it was asked
/// for, and not before the wait is over.
pub open spec fn is_reading(
    run: Seq<(Signal, PlayerState, Action)>,
    clock: Seq<int>,
    n: int,
) -> bool {
    match run[n].0 {
        Signal::Poll { elapsed } => elapsed == clock[n],
        Signal::Command { elapsed, .. } => elapsed == clock[n],
        Signal::Sent { .. } => n > 0 ==> clock[n] >= clock[n - 1] + match run[n - 1].2 {
            Action::Wait { remaining, .. } => remaining as int,
            _ => 0,
        },
        Signal::Performed { .. } => true,
    }
}

/// Whether `clock` can be what the clock read at each moment of a run, since it
/// was last restarted.
pub open spec fn keeps_time(
    run: Seq<(Signal, PlayerState, Action)>,
    clock: Seq<int>,
) -> bool {
    &&& clock.len() == run.len()
    &&& forall|n: int| 0 <= n < run.len() ==> #[trigger] is_reading(run, clock, n)
}

/// Data is asked for only in answer to a poll, and is due once the time that the
/// player said to wait has passed.
proof fn lemma_asked_for_when_due(
    p: PlayerState,
    signal: Signal,
    q: PlayerState,
    action: Action,
)
    requires
        p.wf(),
        p.allows(signal),
        transition(p, signal, q, action),
        action is Wait || action is Deliver,
    ensures
        signal is Poll,
        q.pending(),
        ({
            let due = q.events@[q.next_idx as int].time->0;
            let now = q.time_offset + signal->Poll_elapsed;
            match action {
                Action::Wait { remaining, .. } => now + remaining == due,
                _ => now >= due,
            }
        }),
{
    lemma_transition_keeps_wf(p, signal, q, action);
    lemma_skipping_shows_nothing(p.events@, p.next_idx as int);
    assert(p.events@.len() == p.events.len());
}

/// In every run no output is sent before it is due: whenever the data of an
/// event is sent, or sending it fails, the position that the clock stands for
/// has reached the time of the event.
pub proof fn law_nothing_is_sent_early(
    start: PlayerState,
    run: Seq<(Signal, PlayerState, Action)>,
    clock: Seq<int>,
    n: int,
)
    requires
        start.wf(),
        start.idle(),
        is_run(start, run),
        keeps_time(run, clock),
        0 <= n < run.len(),
        run[n].0 is Sent,
    ensures
        ({
            let p = player_before(start, run, n);
            &&& p.pending()
            &&& p.time_offset + clock[n] >= p.events@[p.next_idx as int].time->0
        }),
{
    assert(is_moment(start, run, n));
    assert(is_moment(start, run, n - 1));
    assert(is_reading(run, clock, n));
    assert(is_reading(run, clock, n - 1));
    lemma_run_keeps_wf(start, run, n - 1);
    let (signal, p, action) = run[n - 1];
    lemma_asked_for_when_due(player_before(start, run, n - 1), signal, p, action);
}

/// The player after the first `n` effects of those that it began.
pub open spec fn after_effects(start: PlayerState, players: Seq<PlayerState>, n: int) -> PlayerState {
    if n <= 0 {
        start
    } else {
        players[n - 1]
    }
}

/// Whether `players` are those after each of the first effects, all of which
/// could be carried out, and `actions` what they asked for.
pub open spec fn carries_out(
    start: PlayerState,
    players: Seq<PlayerState>,
    actions: Seq<Action>,
) -> bool {
    &&& players.len() == actions.len()
    &&& forall|i: int|
        0 <= i < players.len() ==> performed(
            after_effects(start, players, i),
            true,
            #[trigger] players[i],
            actions[i],
        )
}

/// A player that began effects, after the first `n` of them: until the screen
/// has been redrawn it has its old position, and then the new one.
pub open spec fn in_script(start: PlayerState, n: int) -> PlayerState {
    PlayerState {
        script: Script { done: n as usize, ..start.script },
        ..if n > 0 {
            moved(start, n)
        } else {
            start
        }
    }
}

/// One effect more leads from one such player to the next.
proof fn lemma_in_script_next(start: PlayerState, n: int, q: PlayerState, action: Action)
    requires
        start.script.done == 0,
        0 < n < start.script.effects@.len(),
        performed(in_script(start, n - 1), true, q, action),
    ensures
        q == in_script(start, n),
        action == (Action::Perform { effect: start.script.effects@[n] }),
{
    assert(start.script.effects@.len() == start.script.effects.len());
    let p = in_script(start, n - 1);
    assert(p.script.done + 1 == n);
    let (x, y) = (moved(p, n), moved(start, n));
    assert(x.next_idx == y.next_idx);
    assert(x.current_time == y.current_time);
    assert(x.time_offset == y.time_offset);
    assert((PlayerState { script: q.script, ..x }) == (PlayerState { script: q.script, ..y }));
}

/// The last effect leaves the player idle, with the position that they led to.
proof fn lemma_in_script_last(start: PlayerState, q: PlayerState, action: Action)
    requires
        start.script.done == 0,
        start.script.effects@.len() > 0,
        start.script.after <= start.script.effects@.len(),
        performed(in_script(start, start.script.effects@.len() - 1), true, q, action),
    ensures
        q.idle(),
        q == (PlayerState { script: q.script, ..moved(start, start.script.effects@.len() as int) }),
        action == match start.script.fault {
            Some(fault) => Action::Fail { fault },
            None => Action::Continue,
        },
{
    assert(start.script.effects@.len() == start.script.effects.len());
    let n = start.script.effects@.len() as int;
    let p = in_script(start, n - 1);
    assert(p.script.done + 1 == n);
    let (x, y) = (moved(p, n), moved(start, n));
    assert(x.next_idx == y.next_idx);
    assert(x.current_time == y.current_time);
    assert(x.time_offset == y.time_offset);
    assert((PlayerState { script: q.script, ..x }) == (PlayerState { script: q.script, ..y }));
}

/// Effects that are carried out to the last leave the player idle, with the
/// position that they led to.
pub proof fn law_effects_come_to_an_end(
    start: PlayerState,
    players: Seq<PlayerState>,
    actions: Seq<Action>,
)
    requires
        start.script.done == 0,
        start.script.effects@.len() > 0,
        start.script.after <= start.script.effects@.len(),
        carries_out(start, players, actions),
        players.len() == start.script.effects@.len(),
    ensures
        players.last().idle(),
        players.last() == (PlayerState {
            script: players.last().script,
            ..moved(start, players.len() as int)
        }),
        actions.last() == match start.script.fault {
            Some(fault) => Action::Fail { fault },
            None => Action::Continue,
        },
{
    let last = players.len() - 1;
    law_effects_come_in_order(start, players, actions, last);
    assert(performed(
        after_effects(start, players, last),
        true,
        players[last],
        actions[last],
    ));
    lemma_in_script_last(start, players[last], actions[last]);
}

/// Effects are asked for one after the other, in order, and until the screen
/// has been redrawn the player keeps its old position.
pub proof fn law_effects_come_in_order(
    start: PlayerState,
    players: Seq<PlayerState>,
    actions: Seq<Action>,
    n: int,
)
    requires
        start.script.done == 0,
        carries_out(start, players, actions),
        0 <= n <= players.len(),
        n < start.script.effects@.len(),
    ensures
        after_effects(start, players, n) == in_script(start, n),
        n > 0 ==> actions[n - 1] == (Action::Perform { effect: start.script.effects@[n] }),
    decreases n,
{
    if n > 0 {
        law_effects_come_in_order(start, players, actions, n - 1);
        assert(performed(
            after_effects(start, players, n - 1),
            true,
            players[n - 1],
            actions[n - 1],
        ));
        lemma_in_script_next(start, n, players[n - 1], actions[n - 1]);
    }
}

/// An effect that cannot be carried out ends playback: nothing more is asked
/// for. Where a send of a seek fails, the player has the position that it had
/// before the seek.
pub proof fn law_failed_send_ends_a_seek(
    p: PlayerState,
    target: u128,
    then_effects: Seq<Effect>,
    start: PlayerState,
    first_action: Action,
    players: Seq<PlayerState>,
    actions: Seq<Action>,
    n: int,
    q: PlayerState,
    action: Action,
)
    requires
        p.wf(),
        p.idle(),
        sought(p, target, then_effects, start, first_action),
        forall|i: int| 0 <= i < then_effects.len() ==> !changes_output(#[trigger] then_effects[i]),
        carries_out(start, players, actions),
        n == players.len(),
        n < redraw(p.events@, seek_index(p.events@, target)).len(),
        performed(after_effects(start, players, n), false, q, action),
    ensures
        action == (Action::Fail { fault: Fault::SendError }),
        q.next_idx == p.next_idx,
        q.current_time == p.current_time,
        q.time_offset == p.time_offset,
{
    let stop = seek_index(p.events@, target);
    lemma_first(p.events@, |e: Event| ends_seek(e, target), 0);
    assert(p.events@.len() == p.events.len());
    let anew = redraw(p.events@, stop);
    let s = start.script;
    let tail = s.effects@.skip(anew.len() as int);
    assert(s.effects@ =~= anew + tail);
    if s.fault is None {
        assert(tail =~= then_effects);
    } else {
        assert(tail =~= seq![]);
    }
    lemma_began_is_busy(p, tail, s.redrawn, s.position, s.fault, start, first_action);
    law_effects_come_in_order(start, players, actions, n);
    lemma_redraw_sends(p.events@, stop, n);
    assert(s.effects@[n] == anew[n]);
}

/// Redrawing does nothing but clear and send.
proof fn lemma_redraw_sends(events: Seq<Event>, k: int, n: int)
    requires
        0 <= n < redraw(events, k).len(),
    ensures
        changes_output(redraw(events, k)[n]),
    decreases k,
{
    if k > 0 {
        let fewer = redraw(events, k - 1);
        if n < fewer.len() {
            lemma_redraw_sends(events, k - 1, n);
            assert(redraw(events, k)[n] == fewer[n]);
        }
    }
}

/// A seek of which everything could be carried out ends at its target, with
/// all output up to there on the screen.
pub proof fn law_seek_arrives(
    p: PlayerState,
    target: u128,
    then_effects: Seq<Effect>,
    start: PlayerState,
    first_action: Action,
    players: Seq<PlayerState>,
    actions: Seq<Action>,
)
    requires
        p.wf(),
        p.idle(),
        sought(p, target, then_effects, start, first_action),
        forall|i: int| 0 <= i < then_effects.len() ==> !changes_output(#[trigger] then_effects[i]),
        start.script.fault is None,
        carries_out(start, players, actions),
        players.len() == start.script.effects@.len(),
    ensures
        ({
            let q = players.last();
            &&& actions.last() == Action::Continue
            &&& q.idle()
            &&& q == (PlayerState {
                next_idx: seek_index(p.events@, target) as usize,
                current_time: target,
                time_offset: target,
                script: q.script,
                ..p
            })
        }),
{
    let stop = seek_index(p.events@, target);
    lemma_first(p.events@, |e: Event| ends_seek(e, target), 0);
    assert(p.events@.len() == p.events.len());
    let s = start.script;
    lemma_began_is_busy(p, then_effects, s.redrawn, s.position, s.fault, start, first_action);
    law_effects_come_to_an_end(start, players, actions);
}

/// When a player that is left to itself stops, everything has been shown.
pub proof fn law_playback_is_complete(p: PlayerState, elapsed: u128, q: PlayerState, action: Action)
    requires
        p.wf(),
        polled(p, elapsed, q, action),
        action is Stop,
    ensures
        outputs(p.events@, p.next_idx as int) == outputs(p.events@, p.events@.len() as int),
{
    lemma_skipping_shows_nothing(p.events@, p.next_idx as int);
}

/// Played straight through, every step sends the next output and passes over
/// nothing that would be seen, and at the end everything has been sent.
pub proof fn law_straight_playback_is_complete(events: Seq<Event>, from: int)
    requires
        0 <= from <= events.len(),
    ensures
        ({
            let index = next_output(events, from);
            if index < events.len() {
                outputs(events, index + 1) == outputs(events, from).push(
                    Effect::Output(events[index].data),
                )
            } else {
                outputs(events, from) == outputs(events, events.len() as int)
            }
        }),
{
    lemma_skipping_shows_nothing(events, from);
}

/// The events before this index are behind, before send `n` of a run. A run is a
/// sequence of sends, each with the index of its event and whether it went well.
pub open spec fn straight_from(run: Seq<(int, bool)>, n: int) -> int {
    if n <= 0 {
        0
    } else {
        run[n - 1].0 + 1
    }
}

/// Whether a run of sends is one that playing straight through can have: each
/// sends the next output, and none comes after one that failed.
pub open spec fn is_straight_run(events: Seq<Event>, run: Seq<(int, bool)>) -> bool {
    forall|n: int|
        0 <= n < run.len() ==> {
            &&& (#[trigger] run[n]).0 == next_output(events, straight_from(run, n))
            &&& run[n].0 < events.len()
            &&& events[run[n].0].time is Some
            &&& n > 0 ==> after_send(run[n - 1].0, run[n - 1].1) is From
        }
}

/// The output that has been sent before send `n` of a run.
pub open spec fn straight_sent(events: Seq<Event>, run: Seq<(int, bool)>, n: int) -> Seq<Effect>
    decreases n,
{
    if n <= 0 {
        seq![]
    } else if run[n - 1].1 {
        straight_sent(events, run, n - 1).push(Effect::Output(events[run[n - 1].0].data))
    } else {
        straight_sent(events, run, n - 1)
    }
}

/// Played straight through, a recording is sent in order and without gaps, as
/// far as sending goes well; only the last send can have failed, and nothing is
/// sent after it.
pub proof fn law_straight_playback_sends_in_order(
    events: Seq<Event>,
    run: Seq<(int, bool)>,
    n: int,
)
    requires
        is_straight_run(events, run),
        0 <= n <= run.len(),
    ensures
        0 <= straight_from(run, n) <= events.len(),
        straight_sent(events, run, n) == outputs(
            events,
            if n > 0 && !run[n - 1].1 {
                run[n - 1].0
            } else {
                straight_from(run, n)
            },
        ),
        forall|i: int| 0 <= i < run.len() - 1 ==> (#[trigger] run[i]).1,
    decreases n,
{
    assert forall|i: int| 0 <= i < run.len() - 1 implies (#[trigger] run[i]).1 by {
        let next = run[i + 1];
        assert(after_send(run[i].0, run[i].1) is From);
    }
    if n > 0 {
        law_straight_playback_sends_in_order(events, run, n - 1);
        let from = straight_from(run, n - 1);
        assert(run[n - 1].0 == next_output(events, from));
        lemma_skipping_shows_nothing(events, from);
    }
}

/// Whether a run of sends can have gone like this by the clock: at `asked` the
/// next step was asked for, and at `sent`, not before the delay was over, the
/// data was sent.
pub open spec fn keeps_straight_time(
    events: Seq<Event>,
    run: Seq<(int, bool)>,
    asked: Seq<u128>,
    sent: Seq<int>,
) -> bool {
    &&& asked.len() == run.len()
    &&& sent.len() == run.len()
    &&& forall|n: int|
        0 <= n < run.len() ==> #[trigger] sent[n] >= asked[n] + delay_until(
            events[run[n].0].time->0,
            asked[n],
        )
}

/// Played straight through, no output is sent before it is due.
pub proof fn law_straight_playback_is_never_early(
    events: Seq<Event>,
    run: Seq<(int, bool)>,
    asked: Seq<u128>,
    sent: Seq<int>,
    n: int,
)
    requires
        is_straight_run(events, run),
        keeps_straight_time(events, run, asked, sent),
        0 <= n < run.len(),
    ensures
        events[run[n].0].time matches Some(due) && sent[n] >= due,
{
    assert(sent[n] >= asked[n] + delay_until(events[run[n].0].time->0, asked[n]));
    assert(run[n].0 == next_output(events, straight_from(run, n)));
}

/// A seek shows all output up to its target and stops at the first that is
/// later.
pub proof fn law_seek_stops_at_target(events: Seq<Event>, target: u128)
    ensures
        0 <= seek_index(events, target) <= events.len(),
        forall|j: int|
            0 <= j < seek_index(events, target) && (#[trigger] events[j]).code@ == "o"@ ==> (
            events[j].time matches Some(time) && time <= target),
        seek_index(events, target) < events.len() ==> {
            let next = events[seek_index(events, target)];
            &&& next.code@ == "o"@
            &&& next.time matches Some(time) ==> time > target
        },
{
    let wanted = |e: Event| ends_seek(e, target);
    lemma_first(events, wanted, 0);
    let k = seek_index(events, target);
    assert forall|j: int| 0 <= j < k && (#[trigger] events[j]).code@ == "o"@ implies (
    events[j].time matches Some(time) && time <= target) by {
        assert(!wanted(events[j]));
    }
    if k < events.len() {
        assert(wanted(events[k]));
    }
}

/// Pausing and resuming goes on where it left off: at the position at which
/// the pause came, however long it lasted, with the next event still to come.
/// The screen is redrawn first, and the clock then starts anew. `waiting` is
/// the paused player once its overlay has been drawn.
pub proof fn law_resume_goes_on_where_paused(
    p: PlayerState,
    until_pause: u128,
    paused: PlayerState,
    first_action: Action,
    waiting: PlayerState,
    in_pause: u128,
    start: PlayerState,
    second_action: Action,
    players: Seq<PlayerState>,
    actions: Seq<Action>,
)
    requires
        p.wf(),
        p.idle(),
        !p.paused,
        p.time_offset + until_pause <= TIME_LIMIT,
        commanded(p, Some(PlaybackCommand::TogglePause), until_pause, paused, first_action),
        waiting.idle(),
        waiting == (PlayerState { script: waiting.script, ..paused }),
        commanded(
            waiting,
            Some(PlaybackCommand::TogglePause),
            in_pause,
            start,
            second_action,
        ),
        carries_out(start, players, actions),
        players.len() == start.script.effects@.len(),
    ensures
        paused.paused && paused.overlay_visible,
        start.script.effects@ == redraw(p.events@, p.next_idx as int).push(Effect::RestartClock),
        actions.last() == Action::Continue,
        players.last().idle(),
        players.last() == (PlayerState {
            current_time: (p.time_offset + until_pause) as u128,
            time_offset: (p.time_offset + until_pause) as u128,
            script: players.last().script,
            ..p
        }),
{
    let at = PlayerState { paused: false, overlay_visible: false, ..waiting };
    let s = start.script;
    let anew = again(p.events@, s.redrawn);
    assert(anew.push(Effect::RestartClock) =~= anew + seq![Effect::RestartClock]);
    lemma_began_is_busy(
        at,
        seq![Effect::RestartClock],
        s.redrawn,
        s.position,
        s.fault,
        start,
        second_action,
    );
    law_effects_come_to_an_end(start, players, actions);
}

/// Toggling the overlay twice while paused changes nothing but what is under
/// way to be drawn. `waiting` is the player once the effects of the first time
/// are done.
pub proof fn law_overlay_toggles_back(
    p: PlayerState,
    first_elapsed: u128,
    q: PlayerState,
    first_action: Action,
    waiting: PlayerState,
    second_elapsed: u128,
    r: PlayerState,
    second_action: Action,
)
    requires
        p.paused,
        commanded(p, Some(PlaybackCommand::ToggleOverlay), first_elapsed, q, first_action),
        waiting.idle(),
        waiting == (PlayerState { script: waiting.script, ..q }),
        commanded(
            waiting,
            Some(PlaybackCommand::ToggleOverlay),
            second_elapsed,
            r,
            second_action,
        ),
    ensures
        q.overlay_visible != p.overlay_visible,
        r == (PlayerState { script: r.script, ..p }),
        r.script.position is None,
{
}

/// A seek never leaves the recording: going back leads no further than where
/// it began, and going forward leads to within the recording. Whether the
/// player is paused does not change.
pub proof fn law_seek_stays_within(
    p: PlayerState,
    back: bool,
    elapsed: u128,
    q: PlayerState,
    action: Action,
)
    requires
        p.wf(),
        commanded(
            p,
            Some(
                if back {
                    PlaybackCommand::SeekBack
                } else {
                    PlaybackCommand::SeekForward
                },
            ),
            elapsed,
            q,
            action,
        ),
        action is Perform,
        q.script.fault is None,
    ensures
        ({
            let position = if p.paused {
                p.current_time as int
            } else {
                p.time_offset + elapsed
            };
            &&& q.script.position matches Some(target) && if back {
                &&& target <= position
                &&& target == (if position < SEEK_STEP {
                    0
                } else {
                    position - SEEK_STEP
                })
            } else {
                &&& target <= p.total_duration
                &&& target == (if position + SEEK_STEP < p.total_duration {
                    position + SEEK_STEP
                } else {
                    p.total_duration as int
                })
            }
        }),
        q.paused == p.paused,
        q.overlay_visible == p.overlay_visible,
{
}

/// Quitting, and the end of commands, stops a player in any state in which its
/// position can be counted, and nothing more is sent.
pub proof fn law_quit_always_stops(
    p: PlayerState,
    command: Option<PlaybackCommand>,
    elapsed: u128,
    q: PlayerState,
    action: Action,
)
    requires
        command is None || command == Some(PlaybackCommand::Quit),
        p.paused || p.time_offset + elapsed <= TIME_LIMIT,
        commanded(p, command, elapsed, q, action),
    ensures
        action == Action::Stop,
        q.next_idx == p.next_idx,
{
}

/// Only an event with the code `o` is output, whatever its data.
pub proof fn law_only_the_code_o_is_output(event: Event)
    ensures
        is_output(event) <==> event.code@ == seq!['o'],
{
    reveal_strlit("o");
    assert("o"@ =~= seq!['o']);
}

/// The next output is the first event from there on whose code is `o`; where
/// there is none, the end.
pub proof fn law_next_output_is_the_next(events: Seq<Event>, from: int)
    requires
        0 <= from,
    ensures
        ({
            let k = next_output(events, from);
            &&& from >= events.len() ==> k == events.len()
            &&& from < events.len() ==> from <= k <= events.len()
            &&& forall|j: int| from <= j < k ==> (#[trigger] events[j]).code@ != "o"@
            &&& k < events.len() ==> events[k].code@ == "o"@
        }),
{
    if from < events.len() {
        let wanted = |e: Event| is_output(e);
        lemma_first(events, wanted, from);
        let k = next_output(events, from);
        assert forall|j: int| from <= j < k implies (#[trigger] events[j]).code@ != "o"@ by {
            assert(!wanted(events[j]));
        }
        if k < events.len() {
            assert(wanted(events[k]));
        }
    }
}

/// Redrawing clears the screen and sends the data of the events whose code is
/// `o`, in their order: one event more adds its data if it is such an event, and
/// nothing if it is not.
pub proof fn law_redraw_sends_output_alone(events: Seq<Event>, n: int)
    requires
        0 <= n < events.len(),
    ensures
        outputs(events, 0) == Seq::<Effect>::empty(),
        outputs(events, n + 1) == if events[n].code@ == "o"@ {
            outputs(events, n).push(Effect::Output(events[n].data))
        } else {
            outputs(events, n)
        },
        redraw(events, 0) == seq![Effect::ClearScreen],
        redraw(events, n + 1) == if events[n].code@ == "o"@ {
            redraw(events, n).push(Effect::Output(events[n].data))
        } else {
            redraw(events, n)
        },
{
    assert(redraw(events, 0) =~= seq![Effect::ClearScreen]);
    assert(redraw(events, n + 1) =~= if events[n].code@ == "o"@ {
        redraw(events, n).push(Effect::Output(events[n].data))
    } else {
        redraw(events, n)
    });
}

/// Clearing the screen sends `ESC [ 2 J ESC [ H`. Output is sent whole and
/// unchanged: what is sent reads back as the data. Nothing else is sent as it
/// is.
pub proof fn law_data_is_sent_unchanged(effect: Effect)
    ensures
        match effect {
            Effect::ClearScreen => payload_of(effect) == Some(
                seq![27u8, '[' as u8, '2' as u8, 'J' as u8, 27u8, '[' as u8, 'H' as u8],
            ),
            Effect::Output(data) => payload_of(effect) matches Some(bytes)
                && vstd::utf8::valid_utf8(bytes) && vstd::utf8::decode_utf8(bytes) == data@,
            _ => payload_of(effect) is None,
        },
        failure_of(effect) == if effect is DrawOverlay {
            Fault::DrawError
        } else {
            Fault::SendError
        },
{
    match effect {
        Effect::ClearScreen => {
            assert(payload_of(effect)->0 =~= seq![
                27u8,
                '[' as u8,
                '2' as u8,
                'J' as u8,
                27u8,
                '[' as u8,
                'H' as u8,
            ]);
        },
        Effect::Output(data) => {
            vstd::utf8::encode_utf8_valid_utf8(data@);
            vstd::utf8::encode_utf8_decode_utf8(data@);
        },
        _ => {},
    }
}

/// A recording is as long as its last event is late.
pub proof fn law_recording_ends_with_its_last_event(events: Seq<Event>)
    ensures
        events.len() == 0 ==> total_time(events) == 0,
        events.len() > 0 ==> (events[events.len() - 1].time matches Some(time) ==> total_time(
            events,
        ) == time),
{
}

/// A wait ends when its target is due, neither before nor after, and there is
/// none once it is due.
pub proof fn law_wait_ends_when_due(target: u128, elapsed: u128)
    ensures
        elapsed <= target ==> elapsed + delay_until(target, elapsed) == target,
        elapsed >= target ==> delay_until(target, elapsed) == 0,
{
}

/// Played straight through, only events with the code `o` are sent, each of them
/// in turn, and on time: one that was asked for before it was due is sent when
/// it is due, and one that was due already at once, if it is sent as soon as the
/// delay is over.
pub proof fn law_straight_playback_is_on_time(
    events: Seq<Event>,
    run: Seq<(int, bool)>,
    asked: Seq<u128>,
    sent: Seq<int>,
    n: int,
)
    requires
        is_straight_run(events, run),
        asked.len() == run.len(),
        sent.len() == run.len(),
        0 <= n < run.len(),
        sent[n] == asked[n] + delay_until(events[run[n].0].time->0, asked[n]),
    ensures
        ({
            let event = events[run[n].0];
            let before = if n == 0 {
                0
            } else {
                run[n - 1].0 + 1
            };
            &&& before <= run[n].0 < events.len()
            &&& event.code@ == "o"@
            &&& forall|j: int| before <= j < run[n].0 ==> (#[trigger] events[j]).code@ != "o"@
            &&& event.time matches Some(due) && sent[n] == if asked[n] <= due {
                due
            } else {
                asked[n]
            }
        }),
{
    assert(run[n].0 == next_output(events, straight_from(run, n)));
    law_straight_playback_sends_in_order(events, run, n);
    law_next_output_is_the_next(events, straight_from(run, n));
}

/// After a send that went well the next event has its turn; after one that did
/// not, there is no other.
pub proof fn law_straight_playback_goes_on(index: usize)
    requires
        index < usize::MAX,
    ensures
        after_send(index as int, true) == PlayNext::From((index + 1) as usize),
        after_send(index as int, false) == PlayNext::Finished,
{
}

/// What a player can be told next follows from what it asked for.
pub proof fn law_signals_answer_actions(action: Action, signal: Signal)
    ensures
        answers(asked_by(action), signal) <==> match action {
            Action::AwaitCommand => signal is Command,
            Action::Wait { .. } => signal is Sent || signal is Command,
            Action::Deliver { .. } => signal is Sent,
            Action::Perform { .. } => signal is Performed,
            Action::Continue => signal is Poll,
            Action::Stop => false,
            Action::Fail { .. } => false,
        },
{
}

/// A paused player that is polled waits for a command, and nothing changes. One
/// that plays goes on to the next event with the code `o`: it waits for exactly
/// as long as it takes until that is due, or asks for it at once where it is
/// due. Without such an event playback is over.
pub proof fn law_poll_asks_for_the_next_output(
    p: PlayerState,
    elapsed: u128,
    q: PlayerState,
    action: Action,
)
    requires
        p.wf(),
        p.idle(),
        transition(p, Signal::Poll { elapsed }, q, action),
    ensures
        p.paused ==> q == p && action == Action::AwaitCommand,
        !p.paused ==> {
            let k = q.next_idx as int;
            let now = p.time_offset + elapsed;
            &&& q == (PlayerState {
                next_idx: q.next_idx,
                current_time: q.current_time,
                ..p
            })
            &&& p.next_idx <= k <= p.events@.len()
            &&& forall|j: int| p.next_idx <= j < k ==> (#[trigger] p.events@[j]).code@ != "o"@
            &&& k == p.events@.len() ==> action == Action::Stop
            &&& k < p.events@.len() ==> {
                &&& p.events@[k].code@ == "o"@
                &&& match p.events@[k].time {
                    None => action == (Action::Fail { fault: Fault::TimeOutOfRange(q.next_idx) }),
                    Some(due) => if now > 18_446_744_073_709_551_615_999_999_999 {
                        action == (Action::Fail { fault: Fault::ClockOverflow })
                    } else {
                        &&& q.current_time == now
                        &&& match action {
                            Action::Wait { remaining, data } => {
                                &&& remaining > 0
                                &&& now + remaining == due
                                &&& data == p.events@[k].data
                            },
                            Action::Deliver { data } => now >= due && data == p.events@[k].data,
                            _ => false,
                        }
                    },
                }
            }
        },
{
    assert(p.events@.len() == p.events.len());
    law_next_output_is_the_next(p.events@, p.next_idx as int);
}

/// Data that was sent puts its event behind the player, and the position at the
/// time of the event. Data that could not be sent ends playback.
pub proof fn law_delivery_puts_the_event_behind(
    p: PlayerState,
    ok: bool,
    q: PlayerState,
    action: Action,
)
    requires
        p.wf(),
        p.pending(),
        transition(p, Signal::Sent { ok }, q, action),
    ensures
        ok ==> {
            &&& action == Action::Continue
            &&& q.next_idx == p.next_idx + 1
            &&& p.events@[p.next_idx as int].time == Some(q.current_time)
            &&& q == (PlayerState { next_idx: q.next_idx, current_time: q.current_time, ..p })
        },
        !ok ==> action == Action::Stop && q == p,
{
    assert(p.events@.len() == p.events.len());
}

/// Of the effects under way, each is asked for once the one before it has been
/// carried out. The position changes once those that redraw the screen have
/// been, and not before. The first that cannot be carried out ends playback.
pub proof fn law_effect_follows_effect(p: PlayerState, ok: bool, q: PlayerState, action: Action)
    requires
        p.wf(),
        !p.idle(),
        transition(p, Signal::Performed { ok }, q, action),
    ensures
        !ok ==> q == p && action == (Action::Fail {
            fault: if p.script.effects@[p.script.done as int] is DrawOverlay {
                Fault::DrawError
            } else {
                Fault::SendError
            },
        }),
        ok ==> {
            let s = p.script;
            let done = s.done + 1;
            &&& q == (PlayerState {
                next_idx: q.next_idx,
                current_time: q.current_time,
                time_offset: q.time_offset,
                script: q.script,
                ..p
            })
            &&& match s.position {
                Some(position) => if done >= s.after {
                    &&& q.current_time == position
                    &&& q.time_offset == position
                    &&& match s.redrawn {
                        Some(n) => q.next_idx == n,
                        None => q.next_idx == p.next_idx,
                    }
                } else {
                    &&& q.current_time == p.current_time
                    &&& q.time_offset == p.time_offset
                    &&& q.next_idx == p.next_idx
                },
                None => {
                    &&& q.current_time == p.current_time
                    &&& q.time_offset == p.time_offset
                    &&& q.next_idx == p.next_idx
                },
            }
            &&& if done < s.effects@.len() {
                &&& action == (Action::Perform { effect: s.effects@[done] })
                &&& q.script == (Script { done: done as usize, ..s })
            } else {
                &&& q.script.effects@.len() == 0
                &&& action == match s.fault {
                    Some(fault) => Action::Fail { fault },
                    None => Action::Continue,
                }
            }
        },
{
    assert(p.script.effects@.len() == p.script.effects.len());
}

/// A seek goes five seconds back or forward from the position that the viewer
/// is at, but not out of the recording. The screen is cleared and shows the
/// output up to there anew. A player that plays then restarts the clock, and one
/// that is paused draws its overlay again if it was to be seen. A seek that comes
/// to an event without a time ends playback when it gets there.
pub proof fn law_seek_goes_five_seconds(
    p: PlayerState,
    back: bool,
    elapsed: u128,
    q: PlayerState,
    action: Action,
)
    requires
        p.wf(),
        p.idle(),
        transition(
            p,
            Signal::Command {
                command: Some(
                    if back {
                        PlaybackCommand::SeekBack
                    } else {
                        PlaybackCommand::SeekForward
                    },
                ),
                elapsed,
            },
            q,
            action,
        ),
    ensures
        ({
            let now = if p.paused {
                p.current_time as int
            } else {
                p.time_offset + elapsed
            };
            let limit = 18_446_744_073_709_551_615_999_999_999int;
            let target = if back {
                if now < 5_000_000_000 {
                    0
                } else {
                    now - 5_000_000_000
                }
            } else if now + 5_000_000_000 < p.total_duration {
                now + 5_000_000_000
            } else {
                p.total_duration as int
            };
            if (!p.paused && now > limit) || (!back && now + 5_000_000_000 > limit) {
                action == (Action::Fail { fault: Fault::ClockOverflow })
            } else {
                let s = q.script;
                let k = s.redrawn->0 as int;
                &&& action == (Action::Perform { effect: Effect::ClearScreen })
                &&& q == (PlayerState { current_time: now as u128, script: s, ..p })
                &&& s.done == 0
                &&& s.redrawn is Some
                &&& 0 <= k <= p.events@.len()
                &&& forall|j: int|
                    0 <= j < k && (#[trigger] p.events@[j]).code@ == "o"@ ==> (
                    p.events@[j].time matches Some(time) && time <= target)
                &&& k < p.events@.len() ==> p.events@[k].code@ == "o"@
                &&& if k < p.events@.len() && p.events@[k].time is None {
                    &&& s.effects@ == redraw(p.events@, k)
                    &&& s.position is None
                    &&& s.fault == Some(Fault::TimeOutOfRange(k as usize))
                } else {
                    &&& k < p.events@.len() ==> p.events@[k].time->0 > target
                    &&& s.effects@ == redraw(p.events@, k) + if !p.paused {
                        seq![Effect::RestartClock]
                    } else if p.overlay_visible {
                        seq![
                            Effect::DrawOverlay {
                                position: target as u128,
                                total: p.total_duration,
                            },
                        ]
                    } else {
                        seq![]
                    }
                    &&& s.after == redraw(p.events@, k).len()
                    &&& s.position == Some(target as u128)
                    &&& s.fault is None
                }
            }
        }),
{
    assert(p.events@.len() == p.events.len());
    let at = if p.paused {
        p
    } else {
        PlayerState { current_time: (p.time_offset + elapsed) as u128, ..p }
    };
    law_seek_stops_at_target(p.events@, back_target(at));
    law_seek_stops_at_target(p.events@, forward_target(at));
}

/// Pausing keeps the position that the viewer is at and the next event, and
/// draws the overlay with that position.
pub proof fn law_pause_keeps_the_position(
    p: PlayerState,
    elapsed: u128,
    q: PlayerState,
    action: Action,
)
    requires
        p.wf(),
        p.idle(),
        !p.paused,
        p.time_offset + elapsed <= 18_446_744_073_709_551_615_999_999_999,
        transition(
            p,
            Signal::Command { command: Some(PlaybackCommand::TogglePause), elapsed },
            q,
            action,
        ),
    ensures
        ({
            let now = (p.time_offset + elapsed) as u128;
            let overlay = Effect::DrawOverlay { position: now, total: p.total_duration };
            &&& action == (Action::Perform { effect: overlay })
            &&& q == (PlayerState {
                paused: true,
                overlay_visible: true,
                current_time: now,
                script: q.script,
                ..p
            })
            &&& q.script.effects@ == seq![overlay]
            &&& q.script.done == 0
            &&& q.script.redrawn is None
            &&& q.script.position is None
            &&& q.script.fault is None
        }),
{
}

/// Resuming goes on from the position at which the viewer is, with the next event
/// still to come. The overlay goes, and with it what it hid is shown anew; last
/// of all the clock is restarted.
pub proof fn law_resume_restarts_the_clock(
    p: PlayerState,
    elapsed: u128,
    q: PlayerState,
    action: Action,
)
    requires
        p.wf(),
        p.idle(),
        p.paused,
        transition(
            p,
            Signal::Command { command: Some(PlaybackCommand::TogglePause), elapsed },
            q,
            action,
        ),
    ensures
        q == (PlayerState { paused: false, overlay_visible: false, script: q.script, ..p }),
        action == (Action::Perform { effect: q.script.effects@[0] }),
        p.overlay_visible ==> {
            &&& q.script.effects@ == redraw(p.events@, p.next_idx as int).push(
                Effect::RestartClock,
            )
            &&& q.script.redrawn == Some(p.next_idx)
            &&& q.script.after == redraw(p.events@, p.next_idx as int).len()
        },
        !p.overlay_visible ==> {
            &&& q.script.effects@ == seq![Effect::RestartClock]
            &&& q.script.redrawn is None
            &&& q.script.after == 0
        },
        q.script.done == 0,
        q.script.position == Some(p.current_time),
        q.script.fault is None,
{
    assert(Seq::<Effect>::empty().push(Effect::RestartClock) =~= seq![Effect::RestartClock]);
}

/// While the player is paused, toggling the overlay hides it, with what it hid
/// shown anew, or draws it with the position that the viewer is at. While the
/// player plays, nothing is done. Neither changes the next event, or the
/// position of a paused player.
pub proof fn law_overlay_toggles_while_paused(
    p: PlayerState,
    elapsed: u128,
    q: PlayerState,
    action: Action,
)
    requires
        p.wf(),
        p.idle(),
        p.paused || p.time_offset + elapsed <= 18_446_744_073_709_551_615_999_999_999,
        transition(
            p,
            Signal::Command { command: Some(PlaybackCommand::ToggleOverlay), elapsed },
            q,
            action,
        ),
    ensures
        !p.paused ==> action == Action::Continue && q == (PlayerState {
            current_time: (p.time_offset + elapsed) as u128,
            ..p
        }),
        p.paused ==> {
            &&& q == (PlayerState {
                overlay_visible: !p.overlay_visible,
                script: q.script,
                ..p
            })
            &&& q.script.effects@ == if p.overlay_visible {
                redraw(p.events@, p.next_idx as int)
            } else {
                seq![
                    Effect::DrawOverlay { position: p.current_time, total: p.total_duration },
                ]
            }
            &&& action == (Action::Perform { effect: q.script.effects@[0] })
            &&& q.script.done == 0
            &&& q.script.position is None
            &&& q.script.fault is None
        },
{
}

/// A command that comes when the position can no longer be counted ends
/// playback, whatever it is; a paused player takes every command.
pub proof fn law_position_must_be_countable(
    p: PlayerState,
    command: Option<PlaybackCommand>,
    elapsed: u128,
    q: PlayerState,
    action: Action,
)
    requires
        !p.paused,
        p.time_offset + elapsed > 18_446_744_073_709_551_615_999_999_999,
        transition(p, Signal::Command { command, elapsed }, q, action),
    ensures
        action == (Action::Fail { fault: Fault::ClockOverflow }),
        q == p,
{
}

/// Whether the clock is restarted at moment `n` of a run: the player asked for
/// it, and it could be done.
pub open spec fn restarts(run: Seq<(Signal, PlayerState, Action)>, n: int) -> bool {
    &&& 0 < n < run.len()
    &&& run[n - 1].2 == (Action::Perform { effect: Effect::RestartClock })
    &&& run[n].0 == (Signal::Performed { ok: true })
}

/// When the clock was last restarted before moment `n` of a run, where `wall` is
/// the time of each moment, counted from the start of playback.
pub open spec fn restarted_at(
    run: Seq<(Signal, PlayerState, Action)>,
    wall: Seq<int>,
    n: int,
) -> int
    decreases n,
{
    if n <= 0 {
        0
    } else if restarts(run, n - 1) {
        wall[n - 1]
    } else {
        restarted_at(run, wall, n - 1)
    }
}

/// The time on the clock that a signal tells of.
pub open spec fn told(signal: Signal) -> int {
    match signal {
        Signal::Poll { elapsed } => elapsed as int,
        Signal::Command { elapsed, .. } => elapsed as int,
        _ => 0,
    }
}

/// Whether the player is told at moment `n` of a run how much time has passed
/// since the clock was last restarted.
pub open spec fn is_told_the_time(
    run: Seq<(Signal, PlayerState, Action)>,
    wall: Seq<int>,
    n: int,
) -> bool {
    run[n].0 is Poll || run[n].0 is Command ==> told(run[n].0) == wall[n] - restarted_at(
        run,
        wall,
        n,
    )
}

/// Whether `wall` can be the times of the moments of a run: it does not run
/// backwards, and the player is told of the time since the clock was last
/// restarted.
pub open spec fn goes_by_the_wall(
    run: Seq<(Signal, PlayerState, Action)>,
    wall: Seq<int>,
) -> bool {
    &&& wall.len() == run.len()
    &&& forall|i: int, j: int| 0 <= i <= j < wall.len() ==> #[trigger] wall[i] <= #[trigger] wall[j]
    &&& forall|n: int| 0 <= n < run.len() ==> #[trigger] is_told_the_time(run, wall, n)
}

/// Where a player is in the recording at moment `n` of a run at which it is told
/// of the time, while it plays.
pub open spec fn position_at(
    start: PlayerState,
    run: Seq<(Signal, PlayerState, Action)>,
    n: int,
) -> int {
    player_before(start, run, n).time_offset + told(run[n].0)
}

/// Without commands the clock runs on, and the position that it is counted from
/// stays.
proof fn lemma_clock_runs_on(
    start: PlayerState,
    run: Seq<(Signal, PlayerState, Action)>,
    wall: Seq<int>,
    i: int,
    j: int,
)
    requires
        is_run(start, run),
        0 <= i < j <= run.len(),
        run[i].0 is Poll,
        forall|m: int| i <= m < j ==> !((#[trigger] run[m]).0 is Command),
    ensures
        player_before(start, run, j).time_offset == player_before(start, run, i).time_offset,
        player_before(start, run, j).paused == player_before(start, run, i).paused,
        restarted_at(run, wall, j) == restarted_at(run, wall, i),
        !(run[j - 1].2 is Perform),
    decreases j - i,
{
    assert(is_moment(start, run, j - 1));
    if j - 1 > i {
        lemma_clock_runs_on(start, run, wall, i, j - 1);
        assert(!(run[j - 1].0 is Command));
    }
    assert(!(run[j - 1].0 is Performed));
}

/// While a recording plays and no command comes, the position moves on exactly
/// as fast as time passes.
pub proof fn law_position_moves_with_time(
    start: PlayerState,
    run: Seq<(Signal, PlayerState, Action)>,
    wall: Seq<int>,
    i: int,
    j: int,
)
    requires
        is_run(start, run),
        goes_by_the_wall(run, wall),
        0 <= i < j < run.len(),
        run[i].0 is Poll,
        run[j].0 is Poll || run[j].0 is Command,
        forall|m: int| i <= m < j ==> !((#[trigger] run[m]).0 is Command),
    ensures
        position_at(start, run, j) - position_at(start, run, i) == wall[j] - wall[i],
{
    lemma_clock_runs_on(start, run, wall, i, j);
    assert(is_told_the_time(run, wall, i));
    assert(is_told_the_time(run, wall, j));
}

/// The effects of a command are all carried out before the player is polled
/// again, the last of them just before.
proof fn lemma_effects_before_the_next_poll(
    start: PlayerState,
    run: Seq<(Signal, PlayerState, Action)>,
    m: int,
    n: int,
)
    requires
        start.wf(),
        start.idle(),
        is_run(start, run),
        0 <= m < n < run.len(),
        run[m].0 is Command,
        run[m].2 is Perform,
        run[n].0 is Poll,
        forall|i: int| m < i < n ==> !((#[trigger] run[i]).0 is Poll),
    ensures
        ({
            let q = run[m].1;
            let all = q.script.effects@;
            &&& all.len() > 0
            &&& n == m + 1 + all.len()
            &&& q.script.fault is None
            &&& player_before(start, run, n) == (PlayerState {
                script: player_before(start, run, n).script,
                ..moved(q, all.len() as int)
            })
            &&& run[n - 2].2 == (Action::Perform { effect: all[all.len() - 1] })
            &&& run[n - 1].0 == (Signal::Performed { ok: true })
        }),
{
    let q = run[m].1;
    let all = q.script.effects@;
    lemma_run_keeps_wf(start, run, m);
    lemma_run_keeps_wf(start, run, m + 1);
    assert(is_moment(start, run, m));
    assert(q.busy());
    assert(q.script.done == 0);
    lemma_effects_in_run(start, run, m, n, all.len() as int);
}

/// The first effects of a command, one after the other.
proof fn lemma_effects_in_run(
    start: PlayerState,
    run: Seq<(Signal, PlayerState, Action)>,
    m: int,
    n: int,
    k: int,
)
    requires
        start.wf(),
        start.idle(),
        is_run(start, run),
        0 <= m < n < run.len(),
        run[m].0 is Command,
        run[m].2 == (Action::Perform { effect: run[m].1.script.effects@[0] }),
        run[m].1.busy(),
        run[m].1.script.done == 0,
        run[n].0 is Poll,
        forall|i: int| m < i < n ==> !((#[trigger] run[i]).0 is Poll),
        0 <= k <= run[m].1.script.effects@.len(),
    ensures
        k < run[m].1.script.effects@.len() ==> {
            &&& m + k + 1 < n
            &&& player_before(start, run, m + k + 1) == in_script(run[m].1, k)
            &&& run[m + k].2 == (Action::Perform { effect: run[m].1.script.effects@[k] })
        },
        k == run[m].1.script.effects@.len() ==> {
            &&& n == m + k + 1
            &&& run[m].1.script.fault is None
            &&& player_before(start, run, n) == (PlayerState {
                script: player_before(start, run, n).script,
                ..moved(run[m].1, k)
            })
            &&& run[n - 2].2 == (Action::Perform { effect: run[m].1.script.effects@[k - 1] })
            &&& run[n - 1].0 == (Signal::Performed { ok: true })
        },
    decreases k,
{
    let q = run[m].1;
    let all = q.script.effects@;
    if k == 0 {
        assert(is_moment(start, run, m + 1));
        assert(run[m + 1].0 is Performed);
        assert(q == in_script(q, 0));
    } else {
        lemma_effects_in_run(start, run, m, n, k - 1);
        let p = player_before(start, run, m + k);
        let (signal, next, action) = run[m + k];
        assert(is_moment(start, run, m + k));
        assert(is_moment(start, run, m + k + 1));
        assert(signal is Performed);
        assert(signal == (Signal::Performed { ok: true }));
        assert(performed(p, true, next, action));
        if k < all.len() {
            lemma_in_script_next(q, k, next, action);
            assert(run[m + k + 1].0 is Performed);
        } else {
            lemma_in_script_last(q, next, action);
            assert(run[m + k + 1].0 is Poll);
        }
    }
}

/// Whenever a command leaves the player playing from another position than the
/// one it counted from before, or a paused one playing again, the clock is
/// restarted just before the player is next polled. So the time that has passed
/// until then is not counted twice.
pub proof fn law_clock_restarts_with_the_position(
    start: PlayerState,
    run: Seq<(Signal, PlayerState, Action)>,
    m: int,
    n: int,
)
    requires
        start.wf(),
        start.idle(),
        is_run(start, run),
        0 <= m < n < run.len(),
        run[m].0 is Command,
        run[n].0 is Poll,
        forall|i: int| m < i < n ==> !((#[trigger] run[i]).0 is Poll),
        !player_before(start, run, n).paused,
        player_before(start, run, m).paused || player_before(start, run, n).time_offset
            != player_before(start, run, m).time_offset,
    ensures
        restarts(run, n - 1),
{
    let p = player_before(start, run, m);
    let (signal, q, action) = run[m];
    lemma_run_keeps_wf(start, run, m);
    assert(is_moment(start, run, m));
    assert(is_moment(start, run, m + 1));
    assert(action is Perform || action is Continue);
    if action is Perform {
        lemma_effects_before_the_next_poll(start, run, m, n);
        let command = signal->Command_command;
        let elapsed = signal->Command_elapsed;
        match command {
            Some(PlaybackCommand::SeekBack) => {
                law_seek_goes_five_seconds(p, true, elapsed, q, action);
            },
            Some(PlaybackCommand::SeekForward) => {
                law_seek_goes_five_seconds(p, false, elapsed, q, action);
            },
            Some(PlaybackCommand::TogglePause) => {
                if p.paused {
                    law_resume_restarts_the_clock(p, elapsed, q, action);
                } else {
                    law_pause_keeps_the_position(p, elapsed, q, action);
                }
            },
            _ => {},
        }
    } else {
        assert(run[m + 1].0 is Poll);
    }
}

/// A seek of a player that plays moves the viewer by five seconds, but not out
/// of the recording: when the player is next polled, the position is the target,
/// and further only by the time since the clock was restarted, which is no more
/// than the time since the command. All output up to the target is on the
/// screen, and what comes next is later.
pub proof fn law_seek_while_playing_lands_on_target(
    start: PlayerState,
    run: Seq<(Signal, PlayerState, Action)>,
    wall: Seq<int>,
    m: int,
    n: int,
    back: bool,
)
    requires
        start.wf(),
        start.idle(),
        start.next_idx == 0,
        is_run(start, run),
        goes_by_the_wall(run, wall),
        0 <= m < n < run.len(),
        !player_before(start, run, m).paused,
        run[m].0 matches Signal::Command { command: Some(command), .. } && command == if back {
            PlaybackCommand::SeekBack
        } else {
            PlaybackCommand::SeekForward
        },
        run[n].0 is Poll,
        forall|i: int| m < i < n ==> !((#[trigger] run[i]).0 is Poll),
    ensures
        ({
            let now = position_at(start, run, m);
            let p = player_before(start, run, n);
            let target = if back {
                if now < 5_000_000_000 {
                    0
                } else {
                    now - 5_000_000_000
                }
            } else if now + 5_000_000_000 < p.total_duration {
                now + 5_000_000_000
            } else {
                p.total_duration as int
            };
            let k = p.next_idx as int;
            &&& !p.paused
            &&& m < n - 1
            &&& position_at(start, run, n) == target + (wall[n] - wall[n - 1])
            &&& target <= position_at(start, run, n) <= target + (wall[n] - wall[m])
            &&& k <= p.events@.len()
            &&& forall|j: int|
                0 <= j < k && (#[trigger] p.events@[j]).code@ == "o"@ ==> (
                p.events@[j].time matches Some(time) && time <= target)
            &&& k < p.events@.len() ==> p.events@[k].code@ == "o"@ && (
            p.events@[k].time matches Some(time) && time > target)
            &&& screen_before(start, run, n) == outputs(p.events@, k)
        }),
{
    let p = player_before(start, run, m);
    let (signal, q, action) = run[m];
    lemma_run_keeps_wf(start, run, m);
    assert(is_moment(start, run, m));
    assert(is_moment(start, run, m + 1));
    law_seek_goes_five_seconds(p, back, signal->Command_elapsed, q, action);
    lemma_effects_before_the_next_poll(start, run, m, n);
    let all = q.script.effects@;
    assert(all[all.len() - 1] == Effect::RestartClock);
    assert(restarts(run, n - 1));
    assert(restarted_at(run, wall, n) == wall[n - 1]);
    assert(is_told_the_time(run, wall, n));
    assert(wall[m] <= wall[n - 1] && wall[n - 1] <= wall[n]);
    assert(is_moment(start, run, n));
    lemma_run_keeps_wf(start, run, n);
    law_screen_follows_every_run(start, run, n);
}

/// Resuming goes on where the viewer was: when the player is next polled, the
/// position is the one that the paused player had, and further only by the time
/// since the clock was restarted, however long the pause was. The next event is
/// still the next.
pub proof fn law_resume_lands_where_paused(
    start: PlayerState,
    run: Seq<(Signal, PlayerState, Action)>,
    wall: Seq<int>,
    m: int,
    n: int,
)
    requires
        start.wf(),
        start.idle(),
        is_run(start, run),
        goes_by_the_wall(run, wall),
        0 <= m < n < run.len(),
        player_before(start, run, m).paused,
        run[m].0 matches Signal::Command { command: Some(PlaybackCommand::TogglePause), .. },
        run[n].0 is Poll,
        forall|i: int| m < i < n ==> !((#[trigger] run[i]).0 is Poll),
    ensures
        ({
            let before = player_before(start, run, m);
            let p = player_before(start, run, n);
            let position = position_at(start, run, n);
            &&& !p.paused
            &&& m <= n - 1
            &&& position == before.current_time + (wall[n] - wall[n - 1])
            &&& before.current_time <= position <= before.current_time + (wall[n] - wall[m])
            &&& p.next_idx == before.next_idx
        }),
{
    let p = player_before(start, run, m);
    let (signal, q, action) = run[m];
    lemma_run_keeps_wf(start, run, m);
    assert(is_moment(start, run, m));
    law_resume_restarts_the_clock(p, signal->Command_elapsed, q, action);
    lemma_effects_before_the_next_poll(start, run, m, n);
    let all = q.script.effects@;
    assert(all[all.len() - 1] == Effect::RestartClock);
    assert(restarts(run, n - 1));
    assert(restarted_at(run, wall, n) == wall[n - 1]);
    assert(is_told_the_time(run, wall, n));
    assert(wall[m] <= wall[n - 1] && wall[n - 1] <= wall[n]);
}

/// The recording that is played stays the same.
proof fn lemma_run_keeps_events(
    start: PlayerState,
    run: Seq<(Signal, PlayerState, Action)>,
    n: int,
)
    requires
        is_run(start, run),
        0 <= n <= run.len(),
    ensures
        player_before(start, run, n).events == start.events,
    decreases n,
{
    if n > 0 {
        lemma_run_keeps_events(start, run, n - 1);
        assert(is_moment(start, run, n - 1));
    }
}

/// The output among the first `n` events is the data of the events with the code
/// `o` among them, and that of all of these.
proof fn lemma_outputs_are_of_code_o(events: Seq<Event>, n: int)
    requires
        0 <= n <= events.len(),
    ensures
        forall|e: Effect| #[trigger]
            outputs(events, n).contains(e) ==> (e matches Effect::Output(data) && exists|i: int|
                0 <= i < n && (#[trigger] events[i]).code@ == "o"@ && events[i].data == data),
        forall|i: int|
            0 <= i < n && (#[trigger] events[i]).code@ == "o"@ ==> outputs(events, n).contains(
                Effect::Output(events[i].data),
            ),
    decreases n,
{
    if n > 0 {
        lemma_outputs_are_of_code_o(events, n - 1);
        let (fewer, all) = (outputs(events, n - 1), outputs(events, n));
        assert forall|e: Effect| #[trigger] all.contains(e) implies (
        e matches Effect::Output(data) && exists|i: int|
            0 <= i < n && (#[trigger] events[i]).code@ == "o"@ && events[i].data == data) by {
            let k = choose|k: int| 0 <= k < all.len() && all[k] == e;
            if k < fewer.len() {
                assert(fewer[k] == e);
                assert(fewer.contains(e));
            } else {
                assert(events[n - 1].code@ == "o"@);
            }
        }
        assert forall|i: int| 0 <= i < n && (#[trigger] events[i]).code@ == "o"@ implies all.contains(
            Effect::Output(events[i].data),
        ) by {
            if i < n - 1 {
                let e = Effect::Output(events[i].data);
                assert(fewer.contains(e));
                let k = choose|k: int| 0 <= k < fewer.len() && fewer[k] == e;
                assert(all[k] == e);
            } else {
                assert(all[all.len() - 1] == Effect::Output(events[i].data));
            }
        }
    }
}

/// Nothing is ever sent but the data of events with the code `o`: whatever data
/// a player asks to be delivered, now or after a wait, or sent to redraw the
/// screen, is that of such an event.
pub proof fn law_only_output_is_sent(
    start: PlayerState,
    run: Seq<(Signal, PlayerState, Action)>,
    n: int,
    data: String,
)
    requires
        start.wf(),
        start.idle(),
        is_run(start, run),
        0 <= n < run.len(),
        match run[n].2 {
            Action::Wait { data: asked, .. } => asked == data,
            Action::Deliver { data: asked } => asked == data,
            Action::Perform { effect } => effect == Effect::Output(data),
            _ => false,
        },
    ensures
        exists|i: int|
            0 <= i < start.events@.len() && (#[trigger] start.events@[i]).code@ == "o"@
                && start.events@[i].data == data,
{
    let p = player_before(start, run, n);
    let (signal, q, action) = run[n];
    lemma_run_keeps_wf(start, run, n);
    lemma_run_keeps_wf(start, run, n + 1);
    lemma_run_keeps_events(start, run, n);
    lemma_run_keeps_events(start, run, n + 1);
    assert(is_moment(start, run, n));
    if action is Perform {
        let s = q.script;
        assert(q.busy());
        assert(s.effects@.len() == s.effects.len());
        assert(action->effect == s.effects@[s.done as int]);
        assert(s.done < s.after);
        assert(s.effects@.take(s.after as int)[s.done as int] == Effect::Output(data));
        let k = s.redrawn->0 as int;
        lemma_outputs_are_of_code_o(q.events@, k);
        let anew = again(q.events@, s.redrawn);
        assert(anew == s.effects@.take(s.after as int));
        assert(s.redrawn is Some);
        assert(anew[0] == Effect::ClearScreen);
        assert(anew[s.done as int] == Effect::Output(data));
        assert(s.done > 0);
        assert(anew == seq![Effect::ClearScreen] + outputs(q.events@, k));
        assert(anew.len() == s.after);
        assert(anew[s.done as int] == outputs(q.events@, k)[s.done - 1]);
        assert(outputs(q.events@, k).contains(Effect::Output(data)));
    } else {
        lemma_asked_for_when_due(p, signal, q, action);
        law_poll_asks_for_the_next_output(p, signal->Poll_elapsed, q, action);
        assert(q.events@[q.next_idx as int].data == data);
    }
}

/// When playback comes to its end by itself, the data of every event with the
/// code `o` is on the screen, and nothing else is.
pub proof fn law_all_output_is_shown(
    start: PlayerState,
    run: Seq<(Signal, PlayerState, Action)>,
    n: int,
)
    requires
        start.wf(),
        start.idle(),
        start.next_idx == 0,
        is_run(start, run),
        0 <= n < run.len(),
        run[n].0 is Poll,
        run[n].2 is Stop,
    ensures
        ({
            let screen = screen_before(start, run, n);
            &&& screen == outputs(start.events@, start.events@.len() as int)
            &&& forall|i: int|
                0 <= i < start.events@.len() && (#[trigger] start.events@[i]).code@ == "o"@
                    ==> screen.contains(Effect::Output(start.events@[i].data))
            &&& forall|e: Effect| #[trigger]
                screen.contains(e) ==> (e matches Effect::Output(data) && exists|i: int|
                    0 <= i < start.events@.len() && (#[trigger] start.events@[i]).code@ == "o"@
                        && start.events@[i].data == data)
        }),
{
    let p = player_before(start, run, n);
    assert(is_moment(start, run, n));
    lemma_run_keeps_wf(start, run, n);
    law_screen_follows_every_run(start, run, n);
    law_playback_is_complete(p, run[n].0->Poll_elapsed, run[n].1, run[n].2);
    lemma_outputs_are_of_code_o(start.events@, start.events@.len() as int);
}

/// Output that a player waits for comes neither early nor late: sent when the
/// wait is over, it is sent when the position is the time of its event. Output
/// that is asked for at once was due.
pub proof fn law_output_comes_on_time(
    start: PlayerState,
    run: Seq<(Signal, PlayerState, Action)>,
    n: int,
)
    requires
        start.wf(),
        start.idle(),
        is_run(start, run),
        0 <= n < run.len(),
        run[n].2 is Wait || run[n].2 is Deliver,
    ensures
        ({
            let q = run[n].1;
            let event = q.events@[q.next_idx as int];
            &&& run[n].0 is Poll
            &&& q.next_idx < q.events@.len()
            &&& event.code@ == "o"@
            &&& event.time matches Some(due) && match run[n].2 {
                Action::Wait { remaining, data } => data == event.data && remaining > 0
                    && position_at(start, run, n) + remaining == due,
                Action::Deliver { data } => data == event.data && position_at(start, run, n)
                    >= due,
                _ => false,
            }
        }),
{
    let p = player_before(start, run, n);
    let (signal, q, action) = run[n];
    lemma_run_keeps_wf(start, run, n);
    assert(is_moment(start, run, n));
    lemma_asked_for_when_due(p, signal, q, action);
    law_poll_asks_for_the_next_output(p, signal->Poll_elapsed, q, action);
}

/// An event is output exactly if its code is `o`, whatever its time and data.
pub proof fn law_event_is_output_by_its_code(event: &Event, r: bool)
    requires
        call_ensures(Event::is_output, (event,), r),
    ensures
        r <==> event.code@.len() == 1 && event.code@[0] == 'o',
{
    law_only_the_code_o_is_output(*event);
    if event.code@.len() == 1 && event.code@[0] == 'o' {
        assert(event.code@ =~= seq!['o']);
    }
}

/// Every event is scheduled, in its place, with its code and its data.
pub proof fn law_schedule_keeps_every_event<C: Fn(u64) -> Option<u128>>(
    events: &Vec<crate::cast::CastEvent>,
    to_time: C,
    r: Vec<Event>,
    i: int,
)
    requires
        call_ensures(crate::player::schedule::<C>, (events, to_time), r),
        0 <= i < events@.len(),
    ensures
        r@.len() == events@.len(),
        r@[i].code@ == events@[i].code@,
        r@[i].data@ == events@[i].data@,
        call_ensures(to_time, (events@[i].time,), r@[i].time),
{
}

/// Played straight through, the step after some events is to send the data of
/// the first event from there on whose code is `o`, at its time or, where that
/// is past, at once. It is the end exactly where there is no such event.
pub proof fn law_play_sends_the_next_output_when_due(
    events: &Vec<Event>,
    from: usize,
    elapsed: u128,
    r: crate::player::PlayStep,
)
    requires
        call_ensures(crate::player::play, (events, from, elapsed), r),
    ensures
        match r {
            crate::player::PlayStep::Finished => forall|j: int|
                from <= j < events@.len() ==> (#[trigger] events@[j]).code@ != "o"@,
            crate::player::PlayStep::Deliver { index, delay, data } => {
                let event = events@[index as int];
                &&& from <= index < events@.len()
                &&& event.code@ == "o"@
                &&& forall|j: int| from <= j < index ==> (#[trigger] events@[j]).code@ != "o"@
                &&& data == event.data
                &&& event.time matches Some(due) && if elapsed <= due {
                    elapsed + delay == due
                } else {
                    delay == 0
                }
            },
            crate::player::PlayStep::Fail { fault } => fault matches Fault::TimeOutOfRange(index)
                && {
                &&& from <= index < events@.len()
                &&& events@[index as int].code@ == "o"@
                &&& events@[index as int].time is None
                &&& forall|j: int| from <= j < index ==> (#[trigger] events@[j]).code@ != "o"@
            },
        },
{
    assert(events@.len() == events.len());
    law_next_output_is_the_next(events@, from as int);
}

/// After a send that went well the next event has its turn, and after one that
/// did not, none has.
pub proof fn law_play_goes_on_after_a_send(index: usize, sent: bool, r: PlayNext)
    requires
        index < usize::MAX,
        call_ensures(crate::player::play_next, (index, sent), r),
    ensures
        sent ==> (r matches PlayNext::From(next) && next == index + 1),
        !sent ==> r == PlayNext::Finished,
{
}

/// A seek shows the output up to its target, and restoring the screen there
/// shows the same. It stops at the first output that is later, or cannot go on
/// where that has no time.
pub proof fn law_seek_and_restore_show_the_same(
    events: &Vec<Event>,
    target: u128,
    seek: (Vec<Effect>, Result<usize, Fault>),
    up_to_idx: usize,
    restored: Vec<Effect>,
)
    requires
        call_ensures(crate::player::seek_to, (events, target), seek),
        up_to_idx <= events@.len(),
        call_ensures(crate::player::restore_screen, (events, up_to_idx), restored),
        seek.1 == Ok::<usize, Fault>(up_to_idx) || seek.1 == Err::<usize, Fault>(
            Fault::TimeOutOfRange(up_to_idx),
        ),
    ensures
        seek.0@ == restored@,
        restored@ == redraw(events@, up_to_idx as int),
        forall|j: int|
            0 <= j < up_to_idx && (#[trigger] events@[j]).code@ == "o"@ ==> (
            events@[j].time matches Some(time) && time <= target),
        up_to_idx < events@.len() ==> {
            let next = events@[up_to_idx as int];
            &&& next.code@ == "o"@
            &&& match next.time {
                Some(time) => time > target && seek.1 is Ok,
                None => seek.1 is Err,
            }
        },
        up_to_idx == events@.len() ==> seek.1 is Ok,
{
    assert(events@.len() == events.len());
    law_seek_stops_at_target(events@, target);
}

/// What is sent for an effect: output as it is, clearing as its control
/// sequence, and nothing for the others.
pub proof fn law_payload_is_what_the_effect_says(effect: &Effect, r: Option<Vec<u8>>)
    requires
        call_ensures(Effect::payload, (effect,), r),
    ensures
        match *effect {
            Effect::ClearScreen => r matches Some(bytes) && bytes@ == seq![
                27u8,
                '[' as u8,
                '2' as u8,
                'J' as u8,
                27u8,
                '[' as u8,
                'H' as u8,
            ],
            Effect::Output(data) => r matches Some(bytes) && vstd::utf8::valid_utf8(bytes@)
                && vstd::utf8::decode_utf8(bytes@) == data@,
            _ => r is None,
        },
{
    law_data_is_sent_unchanged(*effect);
}

/// Playback begins at the start of the recording, and not paused. A recording
/// whose last event has no time cannot be played.
pub proof fn law_playback_begins_at_the_start(
    events: Vec<Event>,
    r: Result<crate::player::Player, Fault>,
)
    requires
        call_ensures(crate::player::Player::new, (events,), r),
    ensures
        match r {
            Ok(player) => {
                &&& player@.events == events
                &&& player@.next_idx == 0
                &&& player@.current_time == 0
                &&& player@.time_offset == 0
                &&& !player@.paused
                &&& !player@.overlay_visible
                &&& player@.wf()
                &&& player@.idle()
                &&& player.asked() == Asked::Poll
                &&& if events@.len() == 0 {
                    player@.total_duration == 0
                } else {
                    events@[events@.len() - 1].time == Some(player@.total_duration)
                }
            },
            Err(fault) => {
                &&& events@.len() > 0
                &&& events@[events@.len() - 1].time is None
                &&& fault matches Fault::TimeOutOfRange(index) && index == events@.len() - 1
            },
        },
{
    assert(events@.len() == events.len());
}

/// Every call of `play_interactive` is a moment of a run: what holds of runs
/// holds of every player, from its start on, whatever it is told.
pub proof fn law_calls_make_a_run(
    start: PlayerState,
    run: Seq<(Signal, PlayerState, Action)>,
    player: &mut crate::player::Player,
    signal: Signal,
    action: Action,
)
    requires
        is_run(start, run),
        old(player)@ == player_before(start, run, run.len() as int),
        old(player).asked() == asked_before(run, run.len() as int),
        answers(old(player).asked(), signal),
        call_ensures(crate::player::play_interactive, (player, signal), action),
    ensures
        is_run(start, run.push((signal, final(player)@, action))),
        final(player).asked() == asked_by(action),
{
    let longer = run.push((signal, final(player)@, action));
    assert forall|n: int| 0 <= n < longer.len() implies #[trigger] is_moment(start, longer, n) by {
        if n < run.len() {
            assert(is_moment(start, run, n));
        }
        assert(player_before(start, longer, n) == player_before(start, run, n));
        assert(asked_before(longer, n) == asked_before(run, n));
    }
}

} // verus!

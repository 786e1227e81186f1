use tailpipe::cast::CastEvent;
use tailpipe::player::{
    play, play_interactive, play_next, restore_screen, schedule, seek_to, skip_to_output, Action, Effect,
    Event, Fault, PlayNext, PlayStep, PlaybackCommand, Player, Signal, TIME_LIMIT,
};

const SECOND: u128 = 1_000_000_000;

fn event(seconds: u128, code: &str, data: &str) -> Event {
    Event { time: Some(seconds * SECOND), code: code.to_string(), data: data.to_string() }
}

fn recording() -> Vec<Event> {
    vec![
        event(1, "o", "a"),
        event(2, "i", "key"),
        event(4, "o", "b"),
        event(9, "o", "c"),
        event(12, "r", "80x24"),
    ]
}

fn show(effects: &[Effect]) -> String {
    effects
        .iter()
        .map(|effect| match effect {
            Effect::ClearScreen => "!".to_string(),
            Effect::Output(data) => data.clone(),
            Effect::DrawOverlay { position, total } => {
                format!("<{}/{}>", position / SECOND, total / SECOND)
            }
            Effect::RestartClock => "@".to_string(),
        })
        .collect()
}

/// Carries out all effects that the player asks for, and shows them.
fn performed(player: &mut Player, mut action: Action) -> String {
    let mut effects = Vec::new();
    while let Action::Perform { effect } = action {
        effects.push(effect);
        action = play_interactive(player, Signal::Performed { ok: true });
    }
    assert!(matches!(action, Action::Continue), "{action:?}");
    show(&effects)
}

fn run(player: &mut Player, what: PlaybackCommand, elapsed: u128) -> String {
    let action = command(player, what, elapsed);
    performed(player, action)
}

fn poll(player: &mut Player, elapsed: u128) -> Action {
    play_interactive(player, Signal::Poll { elapsed })
}

/// Polls the player and delivers what is due, until it waits for a command.
fn settle(player: &mut Player, elapsed: u128) {
    while let Action::Deliver { .. } = poll(player, elapsed) {
        let next = play_interactive(player, Signal::Sent { ok: true });
        assert!(matches!(next, Action::Continue));
    }
}

fn command(player: &mut Player, command: PlaybackCommand, elapsed: u128) -> Action {
    settle(player, elapsed);
    play_interactive(player, Signal::Command { command: Some(command), elapsed })
}

#[test]
fn left_alone_a_player_shows_all_output_in_order() {
    let mut player = Player::new(recording()).unwrap();
    let mut sent = String::new();
    let mut elapsed = 0;
    loop {
        match poll(&mut player, elapsed) {
            Action::Wait { remaining, data } => {
                elapsed += remaining;
                sent.push_str(&data);
            }
            Action::Deliver { data } => sent.push_str(&data),
            Action::Stop => break,
            other => panic!("{other:?}"),
        }
        let sent = play_interactive(&mut player, Signal::Sent { ok: true });
        assert!(matches!(sent, Action::Continue));
    }
    assert_eq!(sent, "abc");
    assert_eq!(elapsed, 9 * SECOND);
    assert_eq!(player.state().next_idx, 5);
    assert_eq!(player.state().total_duration, 12 * SECOND);
}

#[test]
fn late_output_is_sent_at_once() {
    let mut player = Player::new(recording()).unwrap();
    match poll(&mut player, SECOND) {
        Action::Deliver { data } => assert_eq!(data, "a"),
        other => panic!("{other:?}"),
    }
    assert_eq!(player.state().current_time, SECOND);
    let mut player = Player::new(recording()).unwrap();
    match poll(&mut player, SECOND - 1) {
        Action::Wait { remaining, data } => {
            assert_eq!(remaining, 1);
            assert_eq!(data, "a");
        }
        other => panic!("{other:?}"),
    }
    assert!(matches!(play_interactive(&mut player, Signal::Sent { ok: false }), Action::Stop));
    assert_eq!(player.state().next_idx, 0);
}

#[test]
fn pause_shows_the_overlay_and_resume_goes_on() {
    let mut player = Player::new(recording()).unwrap();
    poll(&mut player, SECOND);
    play_interactive(&mut player, Signal::Sent { ok: true });
    poll(&mut player, 2 * SECOND);
    let toggle = Some(PlaybackCommand::TogglePause);
    let pause = Signal::Command { command: toggle, elapsed: 3 * SECOND };
    let action = play_interactive(&mut player, pause);
    assert_eq!(performed(&mut player, action), "<3/12>");
    assert!(player.state().paused && player.state().overlay_visible);
    assert!(matches!(poll(&mut player, 100 * SECOND), Action::AwaitCommand));
    let resume = Signal::Command { command: toggle, elapsed: 200 * SECOND };
    let action = play_interactive(&mut player, resume);
    assert_eq!(performed(&mut player, action), "!a@");
    assert!(!player.state().paused && !player.state().overlay_visible);
    assert_eq!(player.state().time_offset, 3 * SECOND);
    match poll(&mut player, 0) {
        Action::Wait { remaining, data } => {
            assert_eq!(remaining, SECOND);
            assert_eq!(data, "b");
        }
        other => panic!("{other:?}"),
    }
}

#[test]
fn overlay_toggles_only_while_paused() {
    let mut player = Player::new(recording()).unwrap();
    assert_eq!(run(&mut player, PlaybackCommand::ToggleOverlay, SECOND), "");
    assert!(!player.state().overlay_visible);
    assert_eq!(player.state().current_time, SECOND);
    run(&mut player, PlaybackCommand::TogglePause, SECOND);
    assert_eq!(run(&mut player, PlaybackCommand::ToggleOverlay, 0), "!a");
    assert!(player.state().paused && !player.state().overlay_visible);
    assert_eq!(run(&mut player, PlaybackCommand::ToggleOverlay, 0), "<1/12>");
    assert!(player.state().overlay_visible);
    run(&mut player, PlaybackCommand::ToggleOverlay, 0);
    assert_eq!(run(&mut player, PlaybackCommand::TogglePause, 0), "@");
}

#[test]
fn seeks_go_five_seconds_and_stay_within() {
    let mut player = Player::new(recording()).unwrap();
    assert_eq!(run(&mut player, PlaybackCommand::SeekForward, SECOND), "!ab@");
    assert_eq!((player.state().current_time, player.state().time_offset), (6 * SECOND, 6 * SECOND));
    assert_eq!(player.state().next_idx, 3);
    assert_eq!(run(&mut player, PlaybackCommand::SeekForward, 2 * SECOND), "!abc@");
    assert_eq!(player.state().current_time, 12 * SECOND);
    assert_eq!(player.state().next_idx, 5);
    assert!(matches!(poll(&mut player, 0), Action::Stop));

    let mut player = Player::new(recording()).unwrap();
    assert_eq!(run(&mut player, PlaybackCommand::SeekBack, 8 * SECOND), "!a@");
    assert_eq!((player.state().current_time, player.state().time_offset), (3 * SECOND, 3 * SECOND));
    assert_eq!(player.state().next_idx, 2);
    assert_eq!(run(&mut player, PlaybackCommand::SeekBack, SECOND / 2), "!@");
    assert_eq!(player.state().current_time, 0);
    assert_eq!(player.state().next_idx, 0);
}

#[test]
fn seeks_while_paused_redraw_the_overlay() {
    let mut player = Player::new(recording()).unwrap();
    run(&mut player, PlaybackCommand::TogglePause, 2 * SECOND);
    assert_eq!(run(&mut player, PlaybackCommand::SeekForward, 0), "!ab<7/12>");
    assert_eq!(run(&mut player, PlaybackCommand::SeekForward, 0), "!abc<12/12>");
    assert_eq!(run(&mut player, PlaybackCommand::SeekBack, 0), "!ab<7/12>");
    run(&mut player, PlaybackCommand::ToggleOverlay, 0);
    assert_eq!(run(&mut player, PlaybackCommand::SeekBack, 0), "!a");
    assert!(player.state().paused);
    assert_eq!(player.state().current_time, 2 * SECOND);
}

#[test]
fn quitting_and_the_end_of_commands_stop_playback() {
    for paused in [false, true] {
        let mut player = Player::new(recording()).unwrap();
        if paused {
            run(&mut player, PlaybackCommand::TogglePause, 0);
        }
        assert!(matches!(command(&mut player, PlaybackCommand::Quit, SECOND), Action::Stop));

        let mut player = Player::new(recording()).unwrap();
        if paused {
            run(&mut player, PlaybackCommand::TogglePause, 0);
        }
        settle(&mut player, SECOND);
        let closed = Signal::Command { command: None, elapsed: SECOND };
        assert!(matches!(play_interactive(&mut player, closed), Action::Stop));
    }
}

fn fault_of(action: Action) -> Fault {
    match action {
        Action::Fail { fault } => fault,
        other => panic!("{other:?}"),
    }
}

#[test]
fn a_failed_send_ends_a_seek_where_it_began() {
    let effects = 3;
    for failing in 0..effects {
        let mut player = Player::new(recording()).unwrap();
        let mut action = command(&mut player, PlaybackCommand::SeekForward, SECOND);
        for _ in 0..failing {
            assert!(matches!(action, Action::Perform { .. }));
            action = play_interactive(&mut player, Signal::Performed { ok: true });
        }
        assert!(matches!(action, Action::Perform { .. }));
        let end = play_interactive(&mut player, Signal::Performed { ok: false });
        assert_eq!(fault_of(end), Fault::SendError);
        assert_eq!(player.state().next_idx, 2);
        assert_eq!((player.state().current_time, player.state().time_offset), (SECOND, 0));
    }
}

#[test]
fn a_failed_drawing_ends_playback_after_the_seek() {
    let mut player = Player::new(recording()).unwrap();
    run(&mut player, PlaybackCommand::TogglePause, 2 * SECOND);
    let mut action = command(&mut player, PlaybackCommand::SeekForward, 0);
    while !matches!(action, Action::Perform { effect: Effect::DrawOverlay { .. } }) {
        action = play_interactive(&mut player, Signal::Performed { ok: true });
    }
    assert_eq!((player.state().next_idx, player.state().current_time), (3, 7 * SECOND));
    let end = play_interactive(&mut player, Signal::Performed { ok: false });
    assert_eq!(fault_of(end), Fault::DrawError);
    assert_eq!((player.state().next_idx, player.state().current_time), (3, 7 * SECOND));
}

#[test]
fn the_position_moves_when_the_screen_has_been_redrawn() {
    let mut player = Player::new(recording()).unwrap();
    command(&mut player, PlaybackCommand::SeekForward, SECOND);
    let mut positions = Vec::new();
    loop {
        positions.push((player.state().next_idx, player.state().current_time / SECOND));
        match play_interactive(&mut player, Signal::Performed { ok: true }) {
            Action::Perform { .. } => {}
            Action::Continue => break,
            other => panic!("{other:?}"),
        }
    }
    assert_eq!(positions, vec![(2, 1), (2, 1), (2, 1), (3, 6)]);
    assert_eq!((player.state().next_idx, player.state().current_time), (3, 6 * SECOND));
}

#[test]
fn effects_have_their_bytes() {
    assert_eq!(Effect::ClearScreen.payload().unwrap(), b"\x1b[2J\x1b[H");
    let output = Effect::Output("\u{e9}!".to_string());
    assert_eq!(output.payload().unwrap(), "\u{e9}!".as_bytes());
    assert!(Effect::RestartClock.payload().is_none());
    assert!(Effect::DrawOverlay { position: 0, total: 0 }.payload().is_none());
}

#[test]
fn a_failed_send_ends_straight_playback() {
    assert_eq!(play_next(3, true), PlayNext::From(4));
    assert_eq!(play_next(3, false), PlayNext::Finished);
}

#[test]
fn events_without_a_time_are_faults_when_they_are_reached() {
    let mut events = recording();
    events[2].time = None;
    match seek_to(&events, 10 * SECOND) {
        (effects, Err(fault)) => {
            assert_eq!(show(&effects), "!a");
            assert_eq!(fault, Fault::TimeOutOfRange(2));
        }
        other => panic!("{other:?}"),
    }
    assert!(matches!(play(&events, 0, 0), PlayStep::Deliver { index: 0, .. }));
    match play(&events, 1, 0) {
        PlayStep::Fail { fault } => assert_eq!(fault, Fault::TimeOutOfRange(2)),
        other => panic!("{other:?}"),
    }
    let mut player = Player::new(events).unwrap();
    assert!(matches!(poll(&mut player, SECOND), Action::Deliver { .. }));
    play_interactive(&mut player, Signal::Sent { ok: true });
    assert_eq!(fault_of(poll(&mut player, SECOND)), Fault::TimeOutOfRange(2));
    let mut events = recording();
    events[2].time = None;
    let mut player = Player::new(events).unwrap();
    let mut effects = Vec::new();
    let mut action = command(&mut player, PlaybackCommand::SeekForward, 0);
    while let Action::Perform { effect } = action {
        effects.push(effect);
        action = play_interactive(&mut player, Signal::Performed { ok: true });
    }
    assert_eq!(show(&effects), "!a");
    assert_eq!(fault_of(action), Fault::TimeOutOfRange(2));
    let mut events = recording();
    events[4].time = None;
    assert_eq!(Player::new(events).unwrap_err(), Fault::TimeOutOfRange(4));
    assert_eq!(Player::new(Vec::new()).unwrap().state().total_duration, 0);
}

#[test]
fn positions_beyond_the_limit_are_faults() {
    let mut player = Player::new(recording()).unwrap();
    assert_eq!(fault_of(poll(&mut player, TIME_LIMIT + 1)), Fault::ClockOverflow);
    let closed = Signal::Command { command: None, elapsed: u128::MAX };
    let seek = Signal::Command { command: Some(PlaybackCommand::SeekForward), elapsed: TIME_LIMIT };
    for signal in [closed, seek] {
        let mut player = Player::new(recording()).unwrap();
        settle(&mut player, 0);
        assert_eq!(fault_of(play_interactive(&mut player, signal)), Fault::ClockOverflow);
    }
    let longest = std::time::Duration::MAX.as_nanos();
    assert_eq!(TIME_LIMIT, longest);
}

#[test]
fn nothing_is_sent_before_it_is_due() {
    // Commands, each with the position on the clock at which it is given.
    let mut commands = vec![
        (SECOND / 2, PlaybackCommand::TogglePause),
        (9 * SECOND, PlaybackCommand::TogglePause),
        (2 * SECOND, PlaybackCommand::SeekForward),
        (SECOND, PlaybackCommand::SeekBack),
        (0, PlaybackCommand::ToggleOverlay),
    ]
    .into_iter()
    .peekable();
    let mut player = Player::new(recording()).unwrap();
    let mut clock = 0;
    let mut sent = Vec::new();
    let mut signal = Signal::Poll { elapsed: clock };
    loop {
        signal = match play_interactive(&mut player, signal) {
            Action::AwaitCommand => {
                let (at, what) = commands.next().unwrap();
                clock = at;
                Signal::Command { command: Some(what), elapsed: clock }
            }
            Action::Wait { remaining, data } => match commands.next_if(|(at, _)| *at < clock + remaining) {
                Some((at, what)) => {
                    clock = clock.max(at);
                    Signal::Command { command: Some(what), elapsed: clock }
                }
                None => {
                    clock += remaining;
                    sent.push((player.state().time_offset + clock, data));
                    Signal::Sent { ok: true }
                }
            },
            Action::Deliver { data } => {
                sent.push((player.state().time_offset + clock, data));
                Signal::Sent { ok: true }
            }
            Action::Perform { effect } => {
                if matches!(effect, Effect::RestartClock) {
                    clock = 0;
                }
                Signal::Performed { ok: true }
            }
            Action::Continue => {
                clock += SECOND / 10;
                Signal::Poll { elapsed: clock }
            }
            Action::Stop => break,
            other => panic!("{other:?}"),
        };
    }
    assert!(commands.next().is_none());
    let due = |data: &str| recording().iter().find(|e| e.data == data).unwrap().time.unwrap();
    for (position, data) in &sent {
        assert!(*position >= due(data), "{data} at {position}");
    }
    let order: String = sent.iter().map(|(_, data)| data.as_str()).collect();
    assert_eq!(order, "abc");
}

#[test]
fn straight_playback_waits_for_each_output() {
    let events = recording();
    let mut sent = String::new();
    let mut delays = Vec::new();
    let mut from = 0;
    let mut elapsed = 0;
    loop {
        match play(&events, from, elapsed) {
            PlayStep::Deliver { index, delay, data } => {
                delays.push(delay / SECOND);
                elapsed += delay + SECOND / 2;
                sent.push_str(&data);
                match play_next(index, true) {
                    PlayNext::From(next) => from = next,
                    PlayNext::Finished => break,
                }
            }
            PlayStep::Finished => break,
            PlayStep::Fail { fault } => panic!("{fault:?}"),
        }
    }
    assert_eq!(sent, "abc");
    assert_eq!(delays, vec![1, 2, 4]);
    match play(&events, 0, 3 * SECOND) {
        PlayStep::Deliver { delay, .. } => assert_eq!(delay, 0),
        other => panic!("{other:?}"),
    }
    assert!(matches!(play(&events, 77, 0), PlayStep::Finished));
}

#[test]
fn restoring_shows_what_seeking_showed() {
    let events = recording();
    for target in 0..14 {
        let (effects, stop) = seek_to(&events, target * SECOND);
        assert_eq!(show(&effects), show(&restore_screen(&events, stop.unwrap())));
    }
    assert_eq!(show(&restore_screen(&events, 5)), "!abc");
    assert_eq!(skip_to_output(&events, 1), 2);
    assert_eq!(skip_to_output(&events, 4), 5);
}

#[test]
fn only_the_code_o_is_output() {
    for (code, output) in [("o", true), ("", false), ("oo", false), ("O", false), ("\u{f6}", false)] {
        assert_eq!(event(0, code, "").is_output(), output);
    }
}

#[test]
fn schedule_keeps_events_and_converts_times() {
    let events = vec![
        CastEvent { time: 0.5f64.to_bits(), code: "o".to_string(), data: "x".to_string() },
        CastEvent { time: (-1.0f64).to_bits(), code: "i".to_string(), data: "y".to_string() },
    ];
    let scheduled = schedule(&events, |bits| {
        let duration = std::time::Duration::try_from_secs_f64(f64::from_bits(bits));
        duration.ok().map(|d| d.as_nanos())
    });
    assert_eq!(scheduled.len(), 2);
    assert_eq!(scheduled[0].time, Some(500_000_000));
    assert_eq!(scheduled[1].time, None);
    assert_eq!((scheduled[1].code.as_str(), scheduled[1].data.as_str()), ("i", "y"));
}

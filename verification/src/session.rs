//! One connection: who is on it, how large their terminal is, what they get to
//! see, and what their keys do.
use crate::config::{Config, ServerConfig, UserConfig};
use crate::player::PlaybackCommand;
use vstd::prelude::*;

verus! {

/// What is known of a connection.
#[derive(Debug)]
pub struct Session {
    /// The name that was last given.
    pub user: Option<String>,
    /// Whether there is a playback that takes commands.
    pub accepts_commands: bool,
    /// The columns and rows of the terminal.
    pub pty_size: Option<(u16, u16)>,
}

/// The answer to a user who wants in.
#[derive(Debug, Clone, Copy, PartialEq, Eq, Structural)]
pub enum AuthDecision {
    Accept,
    Reject,
}

/// A part of what a user gets to see.
#[derive(Debug)]
pub enum Stage {
    /// A recording that is played straight through.
    Play(String),
    /// A recording that the user controls.
    PlayInteractive(String),
}

/// What a user gets to see, in order.
#[derive(Debug)]
pub struct ShellPlan {
    pub user: String,
    pub stages: Vec<Stage>,
    pub pty_size: (u16, u16),
}

/// What has happened to a plan.
#[derive(Debug, Clone, Copy, PartialEq, Eq, Structural)]
pub enum ShellEvent {
    /// It is there, and nothing of it has been shown.
    Started,
    /// This stage came to its end, or could not be played, or not to its end.
    StageEnded { index: usize, ok: bool },
    /// The end of the data was announced, or could not be.
    EofSent { ok: bool },
    /// The channel was closed, or could not be.
    Closed { ok: bool },
}

/// What a plan asks for next.
#[derive(Debug, Clone, Copy, PartialEq, Eq, Structural)]
pub enum ShellStep {
    /// Play the stage at this index.
    Run { index: usize },
    /// Announce the end of the data.
    SendEof,
    /// Close the channel.
    CloseChannel,
    /// Nothing is left to do.
    Finished,
}

/// What is to be done about bytes that a user sent.
#[derive(Debug, Clone, Copy, PartialEq, Eq, Structural)]
pub enum DataAction {
    /// Hand the command to the playback.
    Forward(PlaybackCommand),
    /// Nothing.
    Ignore,
    /// End the connection.
    Disconnect,
}

/// The recording to play at one end of a session: the user's if there is one,
/// or else the server's. The name `none` stands for no recording.
pub open spec fn chosen(user: Option<String>, server: Option<String>) -> Option<String> {
    let path = if user is Some {
        user
    } else {
        server
    };
    match path {
        Some(p) => if p@ == "none"@ {
            None
        } else {
            Some(p)
        },
        None => None,
    }
}

/// `chosen`, as the parts of a plan.
pub open spec fn frame(user: Option<String>, server: Option<String>) -> Seq<Stage> {
    match chosen(user, server) {
        Some(path) => seq![Stage::Play(path)],
        None => seq![],
    }
}

/// What a user with this entry gets to see: the header, the recording itself,
/// and the footer.
pub open spec fn stages_for(user: UserConfig, server: ServerConfig) -> Seq<Stage> {
    frame(user.header, server.header).push(Stage::PlayInteractive(user.castfile)) + frame(
        user.footer,
        server.footer,
    )
}

/// What a plan with so many stages asks for after so much has happened: its
/// stages in order, then the end of the data, then the end of the channel.
/// Nothing that fails changes that.
pub open spec fn step_after(stages: nat, event: ShellEvent) -> ShellStep {
    let stage_or_eof = |index: int|
        if index < stages {
            ShellStep::Run { index: index as usize }
        } else {
            ShellStep::SendEof
        };
    match event {
        ShellEvent::Started => stage_or_eof(0),
        ShellEvent::StageEnded { index, .. } => stage_or_eof(index + 1),
        ShellEvent::EofSent { .. } => ShellStep::CloseChannel,
        ShellEvent::Closed { .. } => ShellStep::Finished,
    }
}

/// The command that a key stands for. A key is what the terminal sends for it:
/// space, the left and right arrows, `o`, `q` and Ctrl-C.
pub open spec fn key_command(key: Seq<u8>) -> Option<PlaybackCommand> {
    if key == seq![0x20u8] {
        Some(PlaybackCommand::TogglePause)
    } else if key == seq![0x1bu8, 0x5bu8, 0x44u8] {
        Some(PlaybackCommand::SeekBack)
    } else if key == seq![0x1bu8, 0x5bu8, 0x43u8] {
        Some(PlaybackCommand::SeekForward)
    } else if key == seq![0x6fu8] {
        Some(PlaybackCommand::ToggleOverlay)
    } else if key == seq![0x71u8] || key == seq![0x03u8] {
        Some(PlaybackCommand::Quit)
    } else {
        None
    }
}

/// The name that a session goes by.
pub open spec fn user_name(user: Option<String>) -> Seq<char> {
    match user {
        Some(name) => name@,
        None => "unknown"@,
    }
}

/// The command that a key stands for, if it stands for one.
pub fn decode_key(key: &[u8]) -> (r: Option<PlaybackCommand>)
    ensures
        r == key_command(key@),
{
    if key.len() == 1 {
        let byte: u8 = key[0];
        assert(key@ =~= seq![byte]);
        assert(seq![byte][0] == byte);
        assert(forall|other: u8| #[trigger] seq![other][0] == other);
        if byte == 0x20 {
            Some(PlaybackCommand::TogglePause)
        } else if byte == 0x6f {
            Some(PlaybackCommand::ToggleOverlay)
        } else if byte == 0x71 || byte == 0x03 {
            Some(PlaybackCommand::Quit)
        } else {
            None
        }
    } else if key.len() == 3 && key[0] == 0x1b && key[1] == 0x5b && key[2] == 0x44 {
        assert(key@ =~= seq![0x1bu8, 0x5bu8, 0x44u8]);
        Some(PlaybackCommand::SeekBack)
    } else if key.len() == 3 && key[0] == 0x1b && key[1] == 0x5b && key[2] == 0x43 {
        assert(key@ =~= seq![0x1bu8, 0x5bu8, 0x43u8]);
        assert(key@[2] != seq![0x1bu8, 0x5bu8, 0x44u8][2]);
        Some(PlaybackCommand::SeekForward)
    } else {
        assert(key@ != seq![0x1bu8, 0x5bu8, 0x44u8]) by {
            if key@ == seq![0x1bu8, 0x5bu8, 0x44u8] {
                assert(key@.len() == 3 && key@[0] == 0x1b && key@[1] == 0x5b && key@[2] == 0x44);
            }
        }
        assert(key@ != seq![0x1bu8, 0x5bu8, 0x43u8]) by {
            if key@ == seq![0x1bu8, 0x5bu8, 0x43u8] {
                assert(key@.len() == 3 && key@[0] == 0x1b && key@[1] == 0x5b && key@[2] == 0x43);
            }
        }
        None
    }
}

/// The recording to play at one end of a session, if there is one.
fn choose_cast(user: &Option<String>, server: &Option<String>) -> (r: Option<String>)
    ensures
        r == chosen(*user, *server),
{
    let path: &Option<String> = if user.is_some() {
        user
    } else {
        server
    };
    match path {
        None => None,
        Some(p) => if *p == "none".to_owned() {
            None
        } else {
            Some(p.clone())
        },
    }
}

/// What a user with this entry gets to see.
pub fn plan_stages(user: &UserConfig, server: &ServerConfig) -> (r: Vec<Stage>)
    ensures
        r@ == stages_for(*user, *server),
{
    let mut r: Vec<Stage> = Vec::new();
    if let Some(path) = choose_cast(&user.header, &server.header) {
        r.push(Stage::Play(path));
    }
    assert(r@ =~= frame(user.header, server.header));
    r.push(Stage::PlayInteractive(user.castfile.clone()));
    if let Some(path) = choose_cast(&user.footer, &server.footer) {
        r.push(Stage::Play(path));
    }
    assert(r@ =~= stages_for(*user, *server));
    r
}

impl ShellPlan {
    /// What is to be done next: see `step_after`.
    pub fn next_step(&self, event: ShellEvent) -> (r: ShellStep)
        requires
            event matches ShellEvent::StageEnded { index, .. } ==> index < self.stages@.len(),
        ensures
            r == step_after(self.stages@.len(), event),
    {
        assert(self.stages@.len() == self.stages.len());
        let next: usize = match event {
            ShellEvent::Started => 0,
            ShellEvent::StageEnded { index, .. } => index + 1,
            ShellEvent::EofSent { .. } => {
                return ShellStep::CloseChannel;
            },
            ShellEvent::Closed { .. } => {
                return ShellStep::Finished;
            },
        };
        if next < self.stages.len() {
            ShellStep::Run { index: next }
        } else {
            ShellStep::SendEof
        }
    }
}

impl Session {
    /// A new connection, of which nothing is known.
    pub fn new() -> (r: Session)
        ensures
            r == (Session { user: None, accepts_commands: false, pty_size: None }),
    {
        Session { user: None, accepts_commands: false, pty_size: None }
    }

    /// Decides whether to let a user in. No proof of identity is asked for: a user
    /// is accepted exactly if there is something for them to see. The name is
    /// kept either way.
    pub fn authenticate(&mut self, config: &Config, user: &str) -> (r: AuthDecision)
        ensures
            (r == AuthDecision::Accept) == (crate::config::lookup(config.user@, user@) is Some),
            final(self).user matches Some(name) && name@ == user@,
            *final(self) == (Session { user: final(self).user, ..*old(self) }),
    {
        self.user = Some(user.to_owned());
        if config.user_config(user).is_some() {
            AuthDecision::Accept
        } else {
            AuthDecision::Reject
        }
    }

    /// Takes note of the size of the terminal, modulo 65536 in both directions.
    pub fn resize(&mut self, col_width: u32, row_height: u32)
        ensures
            *final(self) == (Session {
                pty_size: Some(((col_width % 0x1_0000) as u16, (row_height % 0x1_0000) as u16)),
                ..*old(self)
            }),
    {
        let cols: u16 = #[verifier::truncate]
        (col_width as u16);
        let rows: u16 = #[verifier::truncate]
        (row_height as u16);
        assert(cols == (col_width % 0x1_0000) as u16) by (bit_vector)
            requires
                cols == col_width as u16,
        ;
        assert(rows == (row_height % 0x1_0000) as u16) by (bit_vector)
            requires
                rows == row_height as u16,
        ;
        self.pty_size = Some((cols, rows));
    }

    /// Starts what the user gets to see; from now on there is a playback that
    /// takes commands. A user without an entry sees nothing. A terminal of
    /// unknown size counts as 80 columns and 24 rows.
    pub fn shell_request(&mut self, config: &Config) -> (r: ShellPlan)
        ensures
            *final(self) == (Session { accepts_commands: true, ..*old(self) }),
            r.user@ == user_name(old(self).user),
            r.pty_size == (match old(self).pty_size {
                Some(size) => size,
                None => (80u16, 24u16),
            }),
            r.stages@ == (match crate::config::lookup(config.user@, user_name(old(self).user)) {
                Some(user) => stages_for(user, config.server),
                None => seq![],
            }),
    {
        self.accepts_commands = true;
        let user: String = match &self.user {
            Some(name) => name.clone(),
            None => "unknown".to_owned(),
        };
        let pty_size: (u16, u16) = match self.pty_size {
            Some(size) => size,
            None => (80, 24),
        };
        let stages: Vec<Stage> = match config.user_config(user.as_str()) {
            Some(entry) => plan_stages(entry, &config.server),
            None => Vec::new(),
        };
        ShellPlan { user, stages, pty_size }
    }

    /// What to do about bytes that the user sent. Keys are commands once there
    /// is a playback; before that, Ctrl-C ends the connection.
    pub fn data(&self, bytes: &[u8]) -> (r: DataAction)
        ensures
            r == (if self.accepts_commands {
                match key_command(bytes@) {
                    Some(command) => DataAction::Forward(command),
                    None => DataAction::Ignore,
                }
            } else if bytes@ == seq![3u8] {
                DataAction::Disconnect
            } else {
                DataAction::Ignore
            }),
    {
        if self.accepts_commands {
            match decode_key(bytes) {
                Some(command) => DataAction::Forward(command),
                None => DataAction::Ignore,
            }
        } else if bytes.len() == 1 && bytes[0] == 3 {
            assert(bytes@ =~= seq![3u8]);
            DataAction::Disconnect
        } else {
            assert(bytes@ != seq![3u8]) by {
                if bytes@ == seq![3u8] {
                    assert(bytes@.len() == 1 && bytes@[0] == 3);
                }
            }
            DataAction::Ignore
        }
    }
}

/// What has happened once step `step` was taken, whether it went well or not.
pub open spec fn event_after(step: ShellStep, ok: bool) -> ShellEvent {
    match step {
        ShellStep::Run { index } => ShellEvent::StageEnded { index, ok },
        ShellStep::SendEof => ShellEvent::EofSent { ok },
        ShellStep::CloseChannel => ShellEvent::Closed { ok },
        ShellStep::Finished => ShellEvent::Closed { ok },
    }
}

/// Step `n` of a plan, when `went_well` says how each of the steps before went.
pub open spec fn step_of(stages: nat, went_well: spec_fn(int) -> bool, n: int) -> ShellStep
    decreases n,
{
    if n <= 0 {
        step_after(stages, ShellEvent::Started)
    } else {
        step_after(stages, event_after(step_of(stages, went_well, n - 1), went_well(n - 1)))
    }
}

/// Every stage is played, in order, then the end of the data is announced and
/// the channel is closed, whichever of these steps fail.
pub proof fn law_failures_do_not_stop_a_plan(
    plan: ShellPlan,
    went_well: spec_fn(int) -> bool,
    n: int,
)
    requires
        0 <= n,
    ensures
        ({
            let stages = plan.stages@.len();
            step_of(stages, went_well, n) == if n < stages {
                ShellStep::Run { index: n as usize }
            } else if n == stages {
                ShellStep::SendEof
            } else if n == stages + 1 {
                ShellStep::CloseChannel
            } else {
                ShellStep::Finished
            }
        }),
    decreases n,
{
    assert(plan.stages@.len() == plan.stages.len());
    if n > 0 {
        law_failures_do_not_stop_a_plan(plan, went_well, n - 1);
    }
}

/// Whoever is accepted has their recording among what they get to see, and it
/// is the one that they control.
pub proof fn law_accepted_user_sees_their_cast(config: Config, name: Seq<char>)
    requires
        crate::config::lookup(config.user@, name) is Some,
    ensures
        ({
            let user = crate::config::lookup(config.user@, name)->0;
            let stages = stages_for(user, config.server);
            let main = frame(user.header, config.server.header).len() as int;
            &&& 0 <= main < stages.len()
            &&& forall|i: int|
                0 <= i < stages.len() ==> (#[trigger] stages[i] is PlayInteractive <==> i == main)
            &&& stages[main] == Stage::PlayInteractive(user.castfile)
        }),
{
    let user = crate::config::lookup(config.user@, name)->0;
    let stages = stages_for(user, config.server);
    let header = frame(user.header, config.server.header);
    let footer = frame(user.footer, config.server.footer);
    assert forall|i: int| 0 <= i < stages.len() implies (#[trigger] stages[i] is PlayInteractive
        <==> i == header.len()) by {
        if i < header.len() {
            assert(stages[i] == header[i]);
        } else if i > header.len() {
            assert(stages[i] == footer[i - header.len() - 1]);
        }
    }
}

/// A user's header or footer takes the place of the server's, and the name
/// `none` does so with nothing.
pub proof fn law_user_overrides_server(path: String, server: Option<String>)
    ensures
        path@ != "none"@ ==> chosen(Some(path), server) == Some(path),
        path@ == "none"@ ==> chosen(Some(path), server) is None,
        chosen(None, None) is None,
{
}

/// What a user gets to see begins with one header at most: their own, unless it
/// is called `none`, or, where they have none set, the server's, unless that is
/// called `none`. Then comes their recording, which they control.
pub proof fn law_header_comes_first(user: UserConfig, server: ServerConfig)
    ensures
        ({
            let stages = stages_for(user, server);
            let main = Stage::PlayInteractive(user.castfile);
            match (user.header, server.header) {
                (Some(own), _) => if own@ == "none"@ {
                    stages.len() >= 1 && stages[0] == main
                } else {
                    stages.len() >= 2 && stages[0] == Stage::Play(own) && stages[1] == main
                },
                (None, Some(common)) => if common@ == "none"@ {
                    stages.len() >= 1 && stages[0] == main
                } else {
                    stages.len() >= 2 && stages[0] == Stage::Play(common) && stages[1] == main
                },
                (None, None) => stages.len() >= 1 && stages[0] == main,
            }
        }),
{
}

/// What follows a user's recording depends on the two footers alone: it is their
/// own footer, unless it is called `none`, or, where they have none set, the
/// server's, unless that is called `none`; and nothing else, whatever the
/// headers are.
pub proof fn law_footer_comes_last(user: UserConfig, server: ServerConfig, main: int)
    requires
        0 <= main < stages_for(user, server).len(),
        stages_for(user, server)[main] is PlayInteractive,
    ensures
        ({
            let rest = stages_for(user, server).skip(main + 1);
            match (user.footer, server.footer) {
                (Some(own), _) => if own@ == "none"@ {
                    rest == Seq::<Stage>::empty()
                } else {
                    rest == seq![Stage::Play(own)]
                },
                (None, Some(common)) => if common@ == "none"@ {
                    rest == Seq::<Stage>::empty()
                } else {
                    rest == seq![Stage::Play(common)]
                },
                (None, None) => rest == Seq::<Stage>::empty(),
            }
        }),
{
    let stages = stages_for(user, server);
    let header = frame(user.header, server.header);
    let footer = frame(user.footer, server.footer);
    if main < header.len() {
        assert(stages[main] == header[main]);
    } else if main > header.len() {
        assert(stages[main] == footer[main - header.len() - 1]);
    }
    assert(stages.skip(main + 1) =~= footer);
}

/// Neither end of a session has a say in the other: with the same headers the
/// sessions of two users begin alike, and with the same footers they end alike.
pub proof fn law_ends_of_a_session_are_independent(
    a: UserConfig,
    b: UserConfig,
    x: ServerConfig,
    y: ServerConfig,
)
    ensures
        a.header == b.header && x.header == y.header && a.castfile == b.castfile ==> {
            let (s, t) = (stages_for(a, x), stages_for(b, y));
            forall|i: int|
                0 <= i < s.len() && s[i] is PlayInteractive ==> i < t.len() && s.take(i + 1)
                    == t.take(i + 1)
        },
        a.footer == b.footer && x.footer == y.footer ==> {
            let (s, t) = (stages_for(a, x), stages_for(b, y));
            forall|i: int, j: int|
                0 <= i < s.len() && 0 <= j < t.len() && #[trigger] s[i] is PlayInteractive
                    && #[trigger] t[j] is PlayInteractive ==> s.skip(i + 1) == t.skip(j + 1)
        },
{
    let (s, t) = (stages_for(a, x), stages_for(b, y));
    let header = frame(a.header, x.header);
    let footer = frame(a.footer, x.footer);
    if a.header == b.header && x.header == y.header && a.castfile == b.castfile {
        assert forall|i: int| 0 <= i < s.len() && s[i] is PlayInteractive implies i < t.len()
            && s.take(i + 1) == t.take(i + 1) by {
            if i > header.len() {
                assert(s[i] == footer[i - header.len() - 1]);
            }
            assert(s.take(i + 1) =~= t.take(i + 1));
        }
    }
    if a.footer == b.footer && x.footer == y.footer {
        assert forall|i: int, j: int|
            0 <= i < s.len() && 0 <= j < t.len() && #[trigger] s[i] is PlayInteractive
                && #[trigger] t[j] is PlayInteractive implies s.skip(i + 1) == t.skip(j + 1) by {
            law_footer_comes_last(a, x, i);
            law_footer_comes_last(b, y, j);
        }
    }
}

/// A stage is followed by the next one, the last by the end of the data, and
/// that by the end of the channel, whether what came before went well or not.
pub proof fn law_steps_come_in_order(stages: nat, index: usize, ok: bool)
    requires
        stages <= usize::MAX,
        index < stages,
    ensures
        step_after(stages, ShellEvent::Started) == (ShellStep::Run { index: 0 }),
        step_after(0, ShellEvent::Started) == ShellStep::SendEof,
        index + 1 < stages ==> step_after(stages, ShellEvent::StageEnded { index, ok }) == (
        ShellStep::Run { index: (index + 1) as usize }),
        index + 1 == stages ==> step_after(stages, ShellEvent::StageEnded { index, ok })
            == ShellStep::SendEof,
        step_after(stages, ShellEvent::EofSent { ok }) == ShellStep::CloseChannel,
        step_after(stages, ShellEvent::Closed { ok }) == ShellStep::Finished,
{
}

/// Which key brings which command: each command has its key, and no other bytes
/// bring one.
pub proof fn law_keys_bring_their_commands(key: Seq<u8>)
    ensures
        key_command(key) == Some(PlaybackCommand::TogglePause) <==> key.len() == 1 && key[0]
            == 0x20,
        key_command(key) == Some(PlaybackCommand::SeekBack) <==> key.len() == 3 && key[0] == 0x1b
            && key[1] == 0x5b && key[2] == 0x44,
        key_command(key) == Some(PlaybackCommand::SeekForward) <==> key.len() == 3 && key[0]
            == 0x1b && key[1] == 0x5b && key[2] == 0x43,
        key_command(key) == Some(PlaybackCommand::ToggleOverlay) <==> key.len() == 1 && key[0]
            == 0x6f,
        key_command(key) == Some(PlaybackCommand::Quit) <==> key.len() == 1 && (key[0] == 0x71
            || key[0] == 0x03),
{
    assert(key.len() == 1 ==> key =~= seq![key[0]]);
    assert(key.len() == 3 ==> key =~= seq![key[0], key[1], key[2]]);
    assert(forall|b: u8| #[trigger] seq![b].len() == 1 && seq![b][0] == b);
    let (left, right) = (seq![0x1bu8, 0x5bu8, 0x44u8], seq![0x1bu8, 0x5bu8, 0x43u8]);
    assert(left[0] == 0x1b && left[1] == 0x5b && left[2] == 0x44);
    assert(right[0] == 0x1b && right[1] == 0x5b && right[2] == 0x43);
}

/// A session goes by the name that was given, and by `unknown` without one.
pub proof fn law_session_goes_by_its_name(user: Option<String>)
    ensures
        match user {
            Some(name) => user_name(user) == name@,
            None => user_name(user) == "unknown"@,
        },
{
}

/// A user is let in exactly if they have an entry or there is one for `default`,
/// and is remembered either way, with all else as it was.
pub proof fn law_users_with_an_entry_are_let_in(
    session: &mut Session,
    config: &Config,
    user: &str,
    r: AuthDecision,
)
    requires
        call_ensures(Session::authenticate, (session, config, user), r),
    ensures
        r == AuthDecision::Accept <==> config.user@.contains_key(user@)
            || config.user@.contains_key("default"@),
        final(session).user matches Some(name) && name@ == user@,
        final(session).accepts_commands == old(session).accepts_commands,
        final(session).pty_size == old(session).pty_size,
{
}

/// The size of the terminal is kept as it was given, wherever it can be.
pub proof fn law_terminal_has_its_size(session: &mut Session, cols: u32, rows: u32)
    requires
        call_ensures(Session::resize, (session, cols, rows), ()),
    ensures
        final(session).user == old(session).user,
        final(session).accepts_commands == old(session).accepts_commands,
        final(session).pty_size matches Some((c, r)) && {
            &&& (cols - c) % 0x1_0000 == 0
            &&& (rows - r) % 0x1_0000 == 0
            &&& cols <= 0xffff ==> c == cols
            &&& rows <= 0xffff ==> r == rows
        },
{
}

/// Who opens a shell gets their own plan, and that of `default` without an entry
/// of their own: exactly one recording that they control, theirs, with at most
/// one header before it and one footer after it, on a terminal of the size that
/// they gave, or of 80 columns and 24 rows. Without any entry they see nothing.
/// From then on their keys are commands.
pub proof fn law_shell_shows_the_users_recording(
    session: &mut Session,
    config: &Config,
    plan: ShellPlan,
)
    requires
        call_ensures(Session::shell_request, (session, config), plan),
    ensures
        ({
            let name = match old(session).user {
                Some(name) => name@,
                None => "unknown"@,
            };
            let users = config.user@;
            &&& final(session).accepts_commands
            &&& final(session).user == old(session).user
            &&& final(session).pty_size == old(session).pty_size
            &&& plan.user@ == name
            &&& old(session).pty_size matches Some(size) ==> plan.pty_size == size
            &&& old(session).pty_size is None ==> plan.pty_size == (80u16, 24u16)
            &&& if !users.contains_key(name) && !users.contains_key("default"@) {
                plan.stages@.len() == 0
            } else {
                let user = if users.contains_key(name) {
                    users[name]
                } else {
                    users["default"@]
                };
                &&& plan.stages@ == stages_for(user, config.server)
                &&& exists|main: int|
                    0 <= main <= 1 && main < plan.stages@.len() <= main + 2
                        && #[trigger] plan.stages@[main] == Stage::PlayInteractive(user.castfile)
            }
        }),
{
    let name = user_name(old(session).user);
    if let Some(user) = crate::config::lookup(config.user@, name) {
        let main = frame(user.header, config.server.header).len() as int;
        assert(plan.stages@[main] == Stage::PlayInteractive(user.castfile));
    }
}

/// The plan for a user's entry: the header, their recording, and the footer. At
/// either end the user's own recording comes before the server's, and the name
/// `none` stands for nothing.
pub proof fn law_plan_has_header_recording_footer(
    user: &UserConfig,
    server: &ServerConfig,
    stages: Vec<Stage>,
)
    requires
        call_ensures(plan_stages, (user, server), stages),
    ensures
        ({
            let header = match (user.header, server.header) {
                (Some(own), _) => if own@ == "none"@ {
                    seq![]
                } else {
                    seq![Stage::Play(own)]
                },
                (None, Some(common)) => if common@ == "none"@ {
                    seq![]
                } else {
                    seq![Stage::Play(common)]
                },
                (None, None) => seq![],
            };
            let footer = match (user.footer, server.footer) {
                (Some(own), _) => if own@ == "none"@ {
                    seq![]
                } else {
                    seq![Stage::Play(own)]
                },
                (None, Some(common)) => if common@ == "none"@ {
                    seq![]
                } else {
                    seq![Stage::Play(common)]
                },
                (None, None) => seq![],
            };
            stages@ == header + seq![Stage::PlayInteractive(user.castfile)] + footer
        }),
{
    let header = frame(user.header, server.header);
    let footer = frame(user.footer, server.footer);
    let main = seq![Stage::PlayInteractive(user.castfile)];
    assert(stages@ =~= header + main + footer);
}

/// Before there is a playback nothing but Ctrl-C does anything, and it ends the
/// connection. After that it quits like `q`, every key brings its command, and
/// other bytes do nothing.
pub proof fn law_keys_reach_the_playback(
    session: &Session,
    bytes: &[u8],
    r: DataAction,
    command: Option<PlaybackCommand>,
)
    requires
        call_ensures(Session::data, (session, bytes), r),
        call_ensures(decode_key, (bytes,), command),
    ensures
        !session.accepts_commands ==> r == if bytes@.len() == 1 && bytes@[0] == 3 {
            DataAction::Disconnect
        } else {
            DataAction::Ignore
        },
        session.accepts_commands ==> match command {
            Some(c) => r == DataAction::Forward(c),
            None => r == DataAction::Ignore,
        },
        command == Some(PlaybackCommand::TogglePause) <==> bytes@.len() == 1 && bytes@[0] == 0x20,
        command == Some(PlaybackCommand::SeekBack) <==> bytes@.len() == 3 && bytes@[0] == 0x1b
            && bytes@[1] == 0x5b && bytes@[2] == 0x44,
        command == Some(PlaybackCommand::SeekForward) <==> bytes@.len() == 3 && bytes@[0] == 0x1b
            && bytes@[1] == 0x5b && bytes@[2] == 0x43,
        command == Some(PlaybackCommand::ToggleOverlay) <==> bytes@.len() == 1 && bytes@[0]
            == 0x6f,
        command == Some(PlaybackCommand::Quit) <==> bytes@.len() == 1 && (bytes@[0] == 0x71
            || bytes@[0] == 0x03),
{
    law_keys_bring_their_commands(bytes@);
    if bytes@.len() == 1 && bytes@[0] == 3 {
        assert(bytes@ =~= seq![3u8]);
    }
    if bytes@ == seq![3u8] {
        assert(bytes@[0] == 3);
    }
}

/// What a plan asks for next, whether what came before went well or not: the
/// next stage, then the end of the data, then the end of the channel.
pub proof fn law_plan_goes_on_to_its_end(
    plan: &ShellPlan,
    event: ShellEvent,
    r: ShellStep,
)
    requires
        call_ensures(ShellPlan::next_step, (plan, event), r),
        event matches ShellEvent::StageEnded { index, .. } ==> index < plan.stages@.len(),
    ensures
        match event {
            ShellEvent::Started => if plan.stages@.len() == 0 {
                r == ShellStep::SendEof
            } else {
                r == (ShellStep::Run { index: 0 })
            },
            ShellEvent::StageEnded { index, .. } => if index + 1 == plan.stages@.len() {
                r == ShellStep::SendEof
            } else {
                r matches ShellStep::Run { index: next } && next == index + 1
            },
            ShellEvent::EofSent { .. } => r == ShellStep::CloseChannel,
            ShellEvent::Closed { .. } => r == ShellStep::Finished,
        },
{
    assert(plan.stages@.len() == plan.stages.len());
}

/// Of a new connection nothing is known, and it has no playback.
pub proof fn law_new_connection_has_no_playback(session: Session)
    requires
        call_ensures(Session::new, (), session),
    ensures
        session.user is None,
        session.pty_size is None,
        !session.accepts_commands,
{
}

} // verus!

use tailpipe::config::{config_path, default_port, listen_address, Config, ServerConfig, UserConfig};
use tailpipe::player::PlaybackCommand;
use tailpipe::session::{
    decode_key, AuthDecision, DataAction, Session, ShellEvent, ShellStep, Stage,
};
use tailpipe::terminal::OutputBuffer;

fn user(castfile: &str, header: Option<&str>, footer: Option<&str>) -> UserConfig {
    UserConfig {
        castfile: castfile.to_string(),
        header: header.map(str::to_string),
        footer: footer.map(str::to_string),
    }
}

fn config(with_default: bool) -> Config {
    let mut config = Config::new(ServerConfig {
        port: default_port(),
        host_key: None,
        host_key_rsa: None,
        header: Some("/srv/casts/header.cast".to_string()),
        footer: Some("/srv/casts/footer.cast".to_string()),
    });
    config.add_user("demo".to_string(), user("demo.cast", None, Some("bye.cast")));
    config.add_user("custom".to_string(), user("custom.cast", Some("none"), Some("none")));
    if with_default {
        config.add_user("default".to_string(), user("default.cast", None, None));
    }
    config
}

fn stages(config: &Config, name: &str) -> Vec<String> {
    let mut session = Session::new();
    session.authenticate(config, name);
    let plan = session.shell_request(config);
    assert_eq!(plan.user, name);
    plan.stages
        .iter()
        .map(|stage| match stage {
            Stage::Play(path) => format!("play {path}"),
            Stage::PlayInteractive(path) => format!("control {path}"),
        })
        .collect()
}

#[test]
fn users_fall_back_to_default() {
    let with = config(true);
    assert_eq!(with.user_config("demo").unwrap().castfile, "demo.cast");
    assert_eq!(with.user_config("somebody").unwrap().castfile, "default.cast");
    let without = config(false);
    assert!(without.user_config("somebody").is_none());
    assert!(without.user_config("default").is_none());
}

#[test]
fn the_last_entry_of_a_user_holds() {
    let mut config = config(false);
    config.add_user("demo".to_string(), user("other.cast", None, None));
    assert_eq!(config.user_config("demo").unwrap().castfile, "other.cast");
}

#[test]
fn the_configuration_file_has_a_default() {
    assert_eq!(config_path(None), "tailpipe.toml");
    assert_eq!(config_path(Some("other.toml".to_string())), "other.toml");
}

#[test]
fn the_port_has_a_default() {
    assert_eq!(default_port(), 4242);
    assert_eq!(listen_address(4242), "0.0.0.0:4242");
    assert_eq!(listen_address(0), "0.0.0.0:0");
    assert_eq!(listen_address(65535), "0.0.0.0:65535");
}

#[test]
fn known_users_are_accepted() {
    let without = config(false);
    let mut session = Session::new();
    assert_eq!(session.authenticate(&without, "demo"), AuthDecision::Accept);
    assert_eq!(session.authenticate(&without, "somebody"), AuthDecision::Reject);
    assert_eq!(session.user.as_deref(), Some("somebody"));
    assert_eq!(session.authenticate(&config(true), "somebody"), AuthDecision::Accept);
}

#[test]
fn stages_have_header_cast_and_footer() {
    let config = config(true);
    assert_eq!(
        stages(&config, "demo"),
        vec!["play /srv/casts/header.cast", "control demo.cast", "play bye.cast"]
    );
    assert_eq!(stages(&config, "custom"), vec!["control custom.cast"]);
    assert_eq!(
        stages(&config, "somebody"),
        vec!["play /srv/casts/header.cast", "control default.cast", "play /srv/casts/footer.cast"]
    );
}

#[test]
fn unknown_users_see_nothing() {
    assert!(stages(&config(false), "somebody").is_empty());
    let plan = Session::new().shell_request(&config(false));
    assert_eq!(plan.user, "unknown");
    assert!(plan.stages.is_empty());
}

#[test]
fn the_server_can_have_neither_header_nor_footer() {
    let mut config = config(true);
    config.server.header = None;
    config.server.footer = Some("none".to_string());
    assert_eq!(stages(&config, "somebody"), vec!["control default.cast"]);
}

#[test]
fn failures_do_not_stop_a_plan() {
    for (name, stages) in [("demo", 3), ("custom", 1), ("somebody", 0)] {
        for ok in [false, true] {
            let mut session = Session::new();
            session.authenticate(&config(false), name);
            let plan = session.shell_request(&config(false));
            let mut event = ShellEvent::Started;
            for expected in 0..stages {
                assert_eq!(plan.next_step(event), ShellStep::Run { index: expected });
                event = ShellEvent::StageEnded { index: expected, ok };
            }
            assert_eq!(plan.next_step(event), ShellStep::SendEof);
            let closing = plan.next_step(ShellEvent::EofSent { ok });
            assert_eq!(closing, ShellStep::CloseChannel);
            assert_eq!(plan.next_step(ShellEvent::Closed { ok }), ShellStep::Finished);
        }
    }
}

#[test]
fn terminal_sizes_wrap_and_have_a_default() {
    let mut session = Session::new();
    assert_eq!(session.shell_request(&config(true)).pty_size, (80, 24));
    session.resize(100, 50);
    assert_eq!(session.shell_request(&config(true)).pty_size, (100, 50));
    session.resize(65536 + 7, u32::MAX);
    assert_eq!(session.pty_size, Some((7, 65535)));
}

#[test]
fn keys_are_commands() {
    assert_eq!(decode_key(b" "), Some(PlaybackCommand::TogglePause));
    assert_eq!(decode_key(b"\x1b[D"), Some(PlaybackCommand::SeekBack));
    assert_eq!(decode_key(b"\x1b[C"), Some(PlaybackCommand::SeekForward));
    assert_eq!(decode_key(b"o"), Some(PlaybackCommand::ToggleOverlay));
    assert_eq!(decode_key(b"q"), Some(PlaybackCommand::Quit));
    assert_eq!(decode_key(b"\x03"), Some(PlaybackCommand::Quit));
    for other in [&b""[..], b"x", b"  ", b"\x1b", b"\x1b[A", b"\x1b[", b"\x1b[DD", b"qq"] {
        assert_eq!(decode_key(other), None);
    }
}

#[test]
fn before_playback_only_ctrl_c_counts() {
    let mut session = Session::new();
    assert_eq!(session.data(b"\x03"), DataAction::Disconnect);
    assert_eq!(session.data(b"q"), DataAction::Ignore);
    assert_eq!(session.data(b"\x03\x03"), DataAction::Ignore);
    session.shell_request(&config(true));
    assert_eq!(session.data(b"\x03"), DataAction::Forward(PlaybackCommand::Quit));
    assert_eq!(session.data(b"q"), DataAction::Forward(PlaybackCommand::Quit));
    assert_eq!(session.data(b"z"), DataAction::Ignore);
}

#[test]
fn unsent_bytes_stay_in_the_buffer() {
    let mut buffer = OutputBuffer::new();
    assert_eq!(buffer.write(b"ab"), 2);
    assert_eq!(buffer.write(b""), 0);
    assert_eq!(buffer.write(b"c"), 1);
    assert_eq!(buffer.pending(), b"abc");
    buffer.flushed(false);
    assert_eq!(buffer.pending(), b"abc");
    buffer.flushed(true);
    assert!(buffer.pending().is_empty());
}

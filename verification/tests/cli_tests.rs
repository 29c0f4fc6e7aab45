use omapaste::cli::{command_at, daemon_action, parse_command, Action, DaemonAction, COMMAND_COUNT};

#[test]
fn no_args_toggles() {
    assert_eq!(parse_command(None), Ok(Action::Run("toggle".into())));
}

#[test]
fn known_commands() {
    for i in 0..COMMAND_COUNT {
        let cmd = command_at(i);
        assert_eq!(parse_command(Some(cmd)), Ok(Action::Run(cmd.into())));
    }
}

#[test]
fn version_and_help_flags() {
    assert_eq!(parse_command(Some("--version")), Ok(Action::Version));
    assert_eq!(parse_command(Some("-V")), Ok(Action::Version));
    assert_eq!(parse_command(Some("--help")), Ok(Action::Help));
    assert_eq!(parse_command(Some("-h")), Ok(Action::Help));
}

#[test]
fn unknown_command_errors() {
    let err = parse_command(Some("launch")).unwrap_err();
    assert!(err.contains("launch"));
    assert!(parse_command(Some("")).is_err());
    assert!(parse_command(Some("--daemon")).is_err());
}

#[test]
fn unknown_command_message_is_exact() {
    assert_eq!(
        parse_command(Some("launch")),
        Err("unknown command: launch".to_string())
    );
}

#[test]
fn command_list_is_the_seven_commands() {
    let all: Vec<&str> = (0..COMMAND_COUNT).map(command_at).collect();
    assert_eq!(all, ["daemon", "start", "toggle", "show", "hide", "quit", "stop"]);
}

#[test]
fn daemon_actions_follow_the_command() {
    assert_eq!(daemon_action("quit", true), DaemonAction::Quit);
    assert_eq!(daemon_action("stop", false), DaemonAction::Quit);
    assert_eq!(daemon_action("daemon", false), DaemonAction::Ready);
    assert_eq!(daemon_action("start", true), DaemonAction::Ready);
    assert_eq!(daemon_action("toggle", true), DaemonAction::Hide);
    assert_eq!(daemon_action("toggle", false), DaemonAction::Show);
    assert_eq!(daemon_action("", false), DaemonAction::Show);
    assert_eq!(daemon_action("show", true), DaemonAction::Show);
    assert_eq!(daemon_action("hide", false), DaemonAction::Hide);
    assert_eq!(daemon_action("launch", false), DaemonAction::Unknown);
}

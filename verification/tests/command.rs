use hyprcircl::command::{
    daemon_action, display_command, menu_launch, needs_shell, parse_cli, runtime_dir, socket_path,
    stream_backoff, CliCommand, CliError, CliOptions, CliOutcome, DaemonAction, DaemonCmd, Launch,
};

fn s(v: &str) -> String {
    v.to_string()
}

fn args(v: &[&str]) -> Vec<String> {
    v.iter().map(|a| a.to_string()).collect()
}

#[test]
fn socket_path_uses_runtime_dir_or_private_fallback() {
    // XDG_RUNTIME_DIR wins when present.
    let p = socket_path(&Some(s("/tmp/xdg")), &None, &None);
    assert!(std::path::Path::new(&p).starts_with("/tmp/xdg"));
    assert_eq!(std::path::Path::new(&p).file_name().unwrap(), "hyprcircl.sock");

    // Without it, TMPDIR (per-user on macOS) is honoured...
    let p = socket_path(&None, &Some(s("/tmp/user-tmp")), &None);
    assert!(std::path::Path::new(&p).starts_with("/tmp/user-tmp"));

    // ...then a user-owned ~/.cache instead of shared /tmp.
    let p = socket_path(&None, &None, &Some(s("/tmp/fake-home")));
    assert!(std::path::Path::new(&p).starts_with("/tmp/fake-home/.cache"));

    // Only with no environment at all does /tmp remain.
    assert_eq!(socket_path(&None, &None, &None), "/tmp/hyprcircl.sock");
}

#[test]
fn runtime_dir_ignores_empty_variables() {
    assert_eq!(runtime_dir(&Some(s("")), &Some(s("/t")), &None), Some(s("/t")));
    assert_eq!(runtime_dir(&None, &None, &Some(s(""))), None);
}

#[test]
fn needs_shell_detects_metacharacters() {
    assert!(!needs_shell(&vec!["playerctl".into(), "play-pause".into()]));
    assert!(!needs_shell(&vec!["pamixer".into(), "-i".into(), "5".into()]));
    assert!(needs_shell(&vec![
        "grim".into(),
        "-g".into(),
        "$(slurp)".into(),
        "-".into()
    ]));
    assert!(needs_shell(&vec!["cliphist".into(), "list".into(), "|".into()]));
    assert!(!needs_shell(&vec![
        "omarchy-brightness-display".into(),
        "+5%".into()
    ]));
}

#[test]
fn launch_plans() {
    assert_eq!(menu_launch(&vec![]), Launch::Nothing);
    assert_eq!(
        menu_launch(&args(&["grim", "-g", "$(slurp)", "-"])),
        Launch::Shell(s("grim -g $(slurp) -"))
    );
    assert_eq!(menu_launch(&args(&["foot"])), Launch::Exec(args(&["foot"])));
}

#[test]
fn display_quotes_arguments_with_spaces_or_quotes() {
    assert_eq!(display_command(&args(&["playerctl", "next"])), "playerctl next");
    assert_eq!(
        display_command(&args(&["sh", "-c", "grim - | wl-copy"])),
        "sh -c 'grim - | wl-copy'"
    );
    assert_eq!(display_command(&args(&["it's"])), "'it'\"'\"'s'");
    assert_eq!(display_command(&args(&[])), "");
}

#[test]
fn backoff_doubles_and_caps() {
    assert_eq!(stream_backoff(0), 250);
    assert_eq!(stream_backoff(1), 500);
    assert_eq!(stream_backoff(2), 1000);
    assert_eq!(stream_backoff(6), 16000);
    assert_eq!(stream_backoff(7), 30000);
    assert_eq!(stream_backoff(u32::MAX), 30000);
}

#[test]
fn daemon_messages_round_trip() {
    for c in [DaemonCmd::Toggle, DaemonCmd::Show, DaemonCmd::Hide, DaemonCmd::Quit] {
        assert_eq!(DaemonCmd::parse(&c.payload()), Some(c));
    }
    assert_eq!(DaemonCmd::parse(b"exit"), Some(DaemonCmd::Quit));
    assert_eq!(DaemonCmd::parse(b"toggle\n"), None);
    assert_eq!(DaemonCmd::parse(b""), None);
    assert_eq!(DaemonCmd::Toggle.payload(), b"toggle".to_vec());
}

#[test]
fn daemon_reactions() {
    assert_eq!(daemon_action(Some(DaemonCmd::Toggle), true), DaemonAction::Hide);
    assert_eq!(daemon_action(Some(DaemonCmd::Toggle), false), DaemonAction::Show);
    assert_eq!(daemon_action(Some(DaemonCmd::Show), true), DaemonAction::Show);
    assert_eq!(daemon_action(Some(DaemonCmd::Quit), false), DaemonAction::Exit);
    assert_eq!(daemon_action(None, false), DaemonAction::Nothing);
}

#[test]
fn cli_reading() {
    assert_eq!(
        parse_cli(&args(&[])),
        CliOutcome::Run(CliOptions { config: None, command: CliCommand::RunDaemon })
    );
    assert_eq!(
        parse_cli(&args(&["-c", "my.toml", "init", "--force"])),
        CliOutcome::Run(CliOptions {
            config: Some(s("my.toml")),
            command: CliCommand::Init { force: true }
        })
    );
    assert_eq!(
        parse_cli(&args(&["--force", "init"])),
        CliOutcome::Run(CliOptions { config: None, command: CliCommand::Init { force: false } })
    );
    assert_eq!(
        parse_cli(&args(&["config"])),
        CliOutcome::Run(CliOptions { config: None, command: CliCommand::ConfigPath })
    );
    assert_eq!(
        parse_cli(&args(&["config", "path", "toggle"])),
        CliOutcome::Run(CliOptions { config: None, command: CliCommand::RunDaemon })
    );
    assert_eq!(parse_cli(&args(&["show", "-x"])), CliOutcome::Signal(DaemonCmd::Show));
    assert_eq!(parse_cli(&args(&["exit"])), CliOutcome::Signal(DaemonCmd::Quit));
    assert_eq!(parse_cli(&args(&["init", "-h"])), CliOutcome::Help);
    assert_eq!(parse_cli(&args(&["-V"])), CliOutcome::Version);
    assert_eq!(
        parse_cli(&args(&["--config"])),
        CliOutcome::Fail(CliError::MissingConfigPath)
    );
    assert_eq!(
        parse_cli(&args(&["config", "edit"])),
        CliOutcome::Fail(CliError::UnknownConfigSubcommand(s("edit")))
    );
    assert_eq!(
        parse_cli(&args(&["-q"])),
        CliOutcome::Fail(CliError::UnknownOption(s("-q")))
    );
    assert_eq!(
        parse_cli(&args(&["frobnicate"])),
        CliOutcome::Fail(CliError::UnknownCommand(s("frobnicate")))
    );
}

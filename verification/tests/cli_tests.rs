use eth_poller::cli::{from_args, log_options, Cli, Command, LogLevel, LogOptions, LogOptionsSource};

fn args(list: &[&str]) -> Vec<String> {
    list.iter().map(|s| s.to_string()).collect()
}

#[test]
fn parses_flags_and_subcommand() {
    let cli = from_args(&args(&["--debug", "-c", "conf.toml", "node", "run"])).unwrap();
    assert_eq!(cli.config, Some("conf.toml".to_string()));
    assert!(cli.debug);
    assert!(!cli.trace);
    assert_eq!(cli.cmd, Command::Node(vec!["run".to_string()]));
}

#[test]
fn parses_wallet_subcommand_with_long_config_flag() {
    let cli = from_args(&args(&["--config", "w.toml", "--trace", "wallet"])).unwrap();
    assert_eq!(cli.config, Some("w.toml".to_string()));
    assert!(!cli.debug);
    assert!(cli.trace);
    assert_eq!(cli.cmd, Command::Wallet(vec![]));
}

#[test]
fn bare_subcommand_parses_with_defaults() {
    let cli = from_args(&args(&["node"])).unwrap();
    assert_eq!(
        cli,
        Cli { config: None, debug: false, trace: false, cmd: Command::Node(vec![]) },
    );
}

#[test]
fn rejects_missing_subcommand() {
    assert_eq!(from_args(&args(&[])), None);
    assert_eq!(from_args(&args(&["--debug"])), None);
}

#[test]
fn rejects_unknown_flag() {
    assert_eq!(from_args(&args(&["--verbose", "node"])), None);
}

#[test]
fn rejects_config_flag_without_value() {
    assert_eq!(from_args(&args(&["-c"])), None);
}

#[test]
fn subcommand_keeps_following_tokens_verbatim() {
    // After the subcommand nothing is interpreted, not even known flags.
    let cli = from_args(&args(&["node", "--debug", "-c", "x"])).unwrap();
    assert!(!cli.debug);
    assert_eq!(
        cli.cmd,
        Command::Node(vec!["--debug".to_string(), "-c".to_string(), "x".to_string()]),
    );
}

#[test]
fn trace_flag_wins_over_everything() {
    let opts = log_options(LogLevel::Info, Some(LogLevel::Warn), true, true);
    assert_eq!(opts, LogOptions { level: LogLevel::Trace, source: LogOptionsSource::Flag });
}

#[test]
fn debug_flag_wins_over_env_and_config() {
    let opts = log_options(LogLevel::Info, Some(LogLevel::Warn), true, false);
    assert_eq!(opts, LogOptions { level: LogLevel::Debug, source: LogOptionsSource::Flag });
}

#[test]
fn env_level_wins_over_config() {
    let opts = log_options(LogLevel::Info, Some(LogLevel::Warn), false, false);
    assert_eq!(opts, LogOptions { level: LogLevel::Warn, source: LogOptionsSource::Env });
}

#[test]
fn config_level_is_the_default() {
    let opts = log_options(LogLevel::Info, None, false, false);
    assert_eq!(opts, LogOptions { level: LogLevel::Info, source: LogOptionsSource::Config });
}

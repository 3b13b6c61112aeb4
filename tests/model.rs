use binutils::{
    command_to_string, default_config, get_socket_name, CommandRun, ReconcileError, TmuxCommand,
    TmuxOptions, TmuxState,
};

fn strings(items: &[&str]) -> Vec<String> {
    items.iter().map(|s| s.to_string()).collect()
}

fn plan() -> Vec<TmuxCommand> {
    let socket = "s".to_string();
    vec![
        TmuxCommand::new_session(&socket, &"foo".to_string(), &"bar".to_string(), &None),
        TmuxCommand::send_keys(&socket, &"foo".to_string(), &"bar".to_string(), &"ls -la".to_string()),
    ]
}

#[test]
fn default_config_declares_no_session() {
    let cfg = default_config();
    let tmux = cfg.tmux.expect("a tmux section");
    assert!(tmux.sessions.is_empty());
    assert_eq!(tmux.default_session, None);
    assert_eq!(cfg.shell_caching, None);
}

#[test]
fn socket_name_from_options_or_default() {
    let mut opts = TmuxOptions { dry_run: true, debug: true, attach: Some(false), socket_name: None, config_file: None };
    assert_eq!(get_socket_name(&opts), "default");
    opts.socket_name = Some("work".to_string());
    assert_eq!(get_socket_name(&opts), "work");
    assert!(opts.is_dry_run());
    assert!(opts.is_debug());
    assert_eq!(opts.should_attach(), Some(false));
    assert_eq!(opts.socket_name(), Some("work".to_string()));
    assert_eq!(opts.config_file(), None);
}

#[test]
fn command_text_forms() {
    let socket = "s".to_string();
    let list = TmuxCommand::list_sessions(&socket);
    assert_eq!(command_to_string(&list), "tmux -L s list-sessions -F #{session_name}");
    let windows = TmuxCommand::list_windows(&socket, &"foo".to_string());
    assert_eq!(command_to_string(&windows), "tmux -L s list-windows -F #{window_name} -t foo");
    let new_window = TmuxCommand::new_window(&socket, &"foo".to_string(), &"bar".to_string(), &Some("/tmp".to_string()));
    assert_eq!(new_window.program, "tmux");
    assert_eq!(new_window.args, strings(&["-L", "s", "new-window", "-t", "foo", "-n", "bar", "-c", "/tmp"]));
    let bare = TmuxCommand { program: "true".to_string(), args: vec![] };
    assert_eq!(command_to_string(&bare), "true");
}

#[test]
fn dry_run_starts_nothing_and_logs_everything() {
    let run = CommandRun::new(plan(), true);
    assert!(run.next_command().is_none());
    assert_eq!(
        run.outcome(),
        Ok(strings(&["tmux -L s new-session -d -s foo -n bar", "tmux -L s send-keys -t foo:bar ls -la Enter"]))
    );
}

#[test]
fn live_run_starts_each_command_in_order() {
    let commands = plan();
    let mut run = CommandRun::new(commands.clone(), false);
    let mut started = vec![];
    while let Some(c) = run.next_command() {
        started.push(c.clone());
        run.record(true);
    }
    assert_eq!(started, commands);
    let dry = CommandRun::new(commands, true).outcome();
    assert_eq!(run.outcome(), dry);
}

#[test]
fn run_stops_at_the_first_command_that_cannot_start() {
    let mut run = CommandRun::new(plan(), false);
    assert!(run.next_command().is_some());
    run.record(false);
    assert!(run.next_command().is_none());
    let err = run.outcome().unwrap_err();
    assert_eq!(err, ReconcileError { command: "tmux -L s new-session -d -s foo -n bar".to_string() });
    assert_eq!(err.message(), "failed to run: tmux -L s new-session -d -s foo -n bar");
}

#[test]
fn live_state_updates() {
    let mut state = TmuxState::new();
    state.add_window(&"foo".to_string(), &"a".to_string());
    state.add_window(&"foo".to_string(), &"b".to_string());
    state.add_window(&"bar".to_string(), &"c".to_string());
    assert!(state.has_window(&"foo".to_string(), &"b".to_string()));
    assert!(!state.has_window(&"bar".to_string(), &"b".to_string()));
    assert!(!state.has_window(&"baz".to_string(), &"a".to_string()));
    state.insert("foo".to_string(), strings(&["z"]));
    assert_eq!(state.windows(&"foo".to_string()), Some(strings(&["z"])));
    assert_eq!(state.windows(&"baz".to_string()), None);
    assert_eq!(state.session_names(), strings(&["foo", "bar"]));
}

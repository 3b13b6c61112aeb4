use binutils::{
    command_log, ensure_window, gather_tmux_state, startup_tmux, Command, Config, Session,
    TmuxOptions, TmuxState, Tmux, Window,
};

const SOCKET: &str = "Zq8tRk2LmW9pXv4NbC7yHs1JdF6gQe";

fn options() -> TmuxOptions {
    TmuxOptions {
        dry_run: false,
        debug: false,
        attach: None,
        socket_name: Some(SOCKET.to_string()),
        config_file: None,
    }
}

fn window(name: &str, command: Option<Command>) -> Window {
    Window { name: name.to_string(), path: None, command, env: None }
}

fn config(sessions: Vec<Session>) -> Config {
    Config { tmux: Some(Tmux { sessions, default_session: None }), shell_caching: None }
}

fn session(name: &str, windows: Vec<Window>) -> Session {
    Session { name: name.to_string(), windows }
}

fn strings(items: &[&str]) -> Vec<String> {
    items.iter().map(|s| s.to_string()).collect()
}

/// Runs a plan and returns its log, with the socket name replaced.
fn run(config: &Config, state: &mut TmuxState) -> Vec<String> {
    let commands = startup_tmux(config, &options(), state);
    command_log(&commands)
        .into_iter()
        .map(|c| c.replace(SOCKET, "[SOCKET_NAME]"))
        .collect()
}

fn live(entries: &[(&str, &[&str])]) -> TmuxState {
    let mut state = TmuxState::new();
    for (name, windows) in entries {
        state.insert(name.to_string(), strings(windows));
    }
    state
}

#[test]
fn test_gather_tmux_state() {
    let state = gather_tmux_state("foo\n", &vec!["bar\n".to_string()]);
    assert_eq!(state.session_names(), strings(&["foo"]));
    assert_eq!(state.windows(&"foo".to_string()), Some(strings(&["bar"])));

    let state = gather_tmux_state("baz\nfoo\n", &vec!["qux\n".to_string(), "bar\n".to_string()]);
    assert_eq!(state.windows(&"baz".to_string()), Some(strings(&["qux"])));
    assert_eq!(state.windows(&"foo".to_string()), Some(strings(&["bar"])));
    assert_eq!(state.session_names().len(), 2);
}

#[test]
fn gather_from_a_server_that_is_not_running() {
    let state = gather_tmux_state("", &vec![]);
    assert!(state.session_names().is_empty());
}

#[test]
fn test_creates_all_windows_when_server_is_not_started() {
    let mut state = TmuxState::new();
    let cfg = config(vec![session("foo", vec![window("bar", None)])]);
    let commands = run(&cfg, &mut state);
    assert_eq!(commands, strings(&["tmux -L [SOCKET_NAME] new-session -d -s foo -n bar"]));
    assert_eq!(state.session_names(), strings(&["foo"]));
    assert_eq!(state.windows(&"foo".to_string()), Some(strings(&["bar"])));
}

#[test]
fn test_creates_missing_windows_when_server_is_already_started() {
    let mut state = live(&[("foo", &["baz"])]);
    let cfg = config(vec![session("foo", vec![window("bar", None)])]);
    let commands = run(&cfg, &mut state);
    assert_eq!(commands, strings(&["tmux -L [SOCKET_NAME] new-window -t foo -n bar"]));
    assert_eq!(state.session_names(), strings(&["foo"]));
    assert_eq!(state.windows(&"foo".to_string()), Some(strings(&["baz", "bar"])));
}

#[test]
fn test_does_nothing_if_already_started() {
    let mut state = live(&[("foo", &["bar"])]);
    let cfg = config(vec![session("foo", vec![window("bar", None)])]);
    let commands = run(&cfg, &mut state);
    assert!(commands.is_empty());
    assert_eq!(state.windows(&"foo".to_string()), Some(strings(&["bar"])));
}

#[test]
fn test_invokes_command_when_window_is_created() {
    let mut state = TmuxState::new();
    let cfg = config(vec![session(
        "foo",
        vec![window("bar", Some(Command::Single("touch /tmp/random-value/some-file.txt".to_string())))],
    )]);
    let commands = run(&cfg, &mut state);
    assert_eq!(
        commands,
        strings(&[
            "tmux -L [SOCKET_NAME] new-session -d -s foo -n bar",
            "tmux -L [SOCKET_NAME] send-keys -t foo:bar touch /tmp/random-value/some-file.txt Enter",
        ])
    );
    assert_eq!(state.windows(&"foo".to_string()), Some(strings(&["bar"])));
}

#[test]
fn second_run_issues_nothing() {
    let mut state = live(&[("foo", &["baz"])]);
    let cfg = config(vec![
        session("foo", vec![window("bar", Some(Command::Single("ls".to_string()))), window("baz", None)]),
        session("qux", vec![window("one", None), window("two", None)]),
    ]);
    let first = run(&cfg, &mut state);
    assert_eq!(first.len(), 4);
    let after_first = state.clone();
    let second = run(&cfg, &mut state);
    assert!(second.is_empty());
    assert_eq!(state, after_first);
}

#[test]
fn sessions_and_windows_follow_declaration_order() {
    let mut state = TmuxState::new();
    let cfg = config(vec![
        session("A", vec![window("w1", None), window("w2", None)]),
        session("B", vec![window("w1", None), window("w2", None)]),
    ]);
    let commands = run(&cfg, &mut state);
    assert_eq!(
        commands,
        strings(&[
            "tmux -L [SOCKET_NAME] new-session -d -s A -n w1",
            "tmux -L [SOCKET_NAME] new-window -t A -n w2",
            "tmux -L [SOCKET_NAME] new-session -d -s B -n w1",
            "tmux -L [SOCKET_NAME] new-window -t B -n w2",
        ])
    );
    assert_eq!(state.session_names(), strings(&["A", "B"]));
}

#[test]
fn live_window_gets_no_startup_command() {
    let mut state = live(&[("foo", &["bar"])]);
    let cfg = config(vec![session("foo", vec![window("bar", Some(Command::Single("make".to_string())))])]);
    assert!(run(&cfg, &mut state).is_empty());
}

#[test]
fn ensure_window_on_live_window_changes_nothing() {
    let mut state = live(&[("foo", &["bar"])]);
    let before = state.clone();
    let w = window("bar", Some(Command::Multiple(strings(&["a", "b"]))));
    let commands = ensure_window(&"s".to_string(), &"foo".to_string(), &w, &mut state);
    assert!(commands.is_empty());
    assert_eq!(state, before);
}

#[test]
fn multiple_commands_are_sent_in_order() {
    let mut state = TmuxState::new();
    let cfg = config(vec![session(
        "foo",
        vec![window("bar", Some(Command::Multiple(strings(&["echo 1", "echo 2"]))))],
    )]);
    let commands = run(&cfg, &mut state);
    assert_eq!(
        commands,
        strings(&[
            "tmux -L [SOCKET_NAME] new-session -d -s foo -n bar",
            "tmux -L [SOCKET_NAME] send-keys -t foo:bar echo 1 Enter",
            "tmux -L [SOCKET_NAME] send-keys -t foo:bar echo 2 Enter",
        ])
    );
}

#[test]
fn absent_tmux_section_plans_nothing() {
    let mut state = live(&[("foo", &["bar"])]);
    let before = state.clone();
    let cfg = Config { tmux: None, shell_caching: None };
    assert!(run(&cfg, &mut state).is_empty());
    assert_eq!(state, before);
    let mut empty = TmuxState::new();
    assert!(run(&cfg, &mut empty).is_empty());
    assert!(empty.session_names().is_empty());
}

#[test]
fn working_directory_is_passed_on_creation() {
    let mut state = live(&[("foo", &["baz"])]);
    let mut w = window("bar", None);
    w.path = Some("/home/me/src".to_string());
    let mut other = window("top", None);
    other.path = Some("/var/log".to_string());
    let cfg = config(vec![session("foo", vec![w]), session("mon", vec![other])]);
    let commands = run(&cfg, &mut state);
    assert_eq!(
        commands,
        strings(&[
            "tmux -L [SOCKET_NAME] new-window -t foo -n bar -c /home/me/src",
            "tmux -L [SOCKET_NAME] new-session -d -s mon -n top -c /var/log",
        ])
    );
}

#[test]
fn duplicate_window_is_created_once() {
    let mut state = TmuxState::new();
    let cfg = config(vec![
        session("foo", vec![window("bar", Some(Command::Single("x".to_string())))]),
        session("foo", vec![window("bar", Some(Command::Single("y".to_string())))]),
    ]);
    let commands = run(&cfg, &mut state);
    assert_eq!(
        commands,
        strings(&[
            "tmux -L [SOCKET_NAME] new-session -d -s foo -n bar",
            "tmux -L [SOCKET_NAME] send-keys -t foo:bar x Enter",
        ])
    );
}

#[test]
fn default_socket_when_none_is_named() {
    let mut state = TmuxState::new();
    let mut opts = options();
    opts.socket_name = None;
    let cfg = config(vec![session("foo", vec![window("bar", None)])]);
    let commands = command_log(&startup_tmux(&cfg, &opts, &mut state));
    assert_eq!(commands, strings(&["tmux -L default new-session -d -s foo -n bar"]));
}

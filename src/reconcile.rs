//! Planning a run: which tmux commands bring the live state to the declared one.
//!
//! Sessions and windows are visited in declaration order. A window that is
//! already live is left alone; a missing window is created (with its session,
//! when that is missing too) and its startup commands are typed into it. The
//! live state is updated as commands are planned, never fetched again.

use vstd::prelude::*;

use crate::command::{
    get_socket_name, new_session_argv, new_window_argv, send_keys_argv, socket_of, TmuxCommand,
    TmuxOptions,
};
use crate::config::{declared_commands, Command, Config, Session, Window};
use crate::state::{LiveView, TmuxState};

verus! {

/// The argument vectors of a sequence of commands.
pub open spec fn argvs(v: Seq<TmuxCommand>) -> Seq<Seq<Seq<char>>> {
    v.map_values(|c: TmuxCommand| c@)
}

/// Whether the window `window` is live in the session `session`.
pub open spec fn window_exists(st: LiveView, session: Seq<char>, window: Seq<char>) -> bool {
    st.contains_key(session) && st[session].contains(window)
}

/// The keystroke commands that run a window's startup commands, in order.
pub open spec fn keys_argvs(socket: Seq<char>, session: Seq<char>, w: Window) -> Seq<Seq<Seq<char>>> {
    declared_commands(w.command).map_values(|k: Seq<char>| send_keys_argv(socket, session, w.name@, k))
}

/// The commands that bring one declared window about, given the live state.
pub open spec fn window_plan(socket: Seq<char>, session: Seq<char>, w: Window, st: LiveView) -> Seq<
    Seq<Seq<char>>,
> {
    if window_exists(st, session, w.name@) {
        Seq::empty()
    } else if st.contains_key(session) {
        seq![new_window_argv(socket, session, w.name@, w.path)] + keys_argvs(socket, session, w)
    } else {
        seq![new_session_argv(socket, session, w.name@, w.path)] + keys_argvs(socket, session, w)
    }
}

/// The live state once the window `window` of the session `session` exists.
pub open spec fn state_after_window(session: Seq<char>, window: Seq<char>, st: LiveView) -> LiveView {
    if window_exists(st, session, window) {
        st
    } else if st.contains_key(session) {
        st.insert(session, st[session].push(window))
    } else {
        st.insert(session, seq![window])
    }
}

/// The windows of one session, each paired with the session's name.
pub open spec fn session_windows(s: Session) -> Seq<(Seq<char>, Window)> {
    s.windows@.map_values(|w: Window| (s.name@, w))
}

/// All declared windows, session by session, in declaration order.
pub open spec fn declared_windows(sessions: Seq<Session>) -> Seq<(Seq<char>, Window)>
    decreases sessions.len(),
{
    if sessions.len() == 0 {
        Seq::empty()
    } else {
        declared_windows(sessions.drop_last()) + session_windows(sessions.last())
    }
}

/// The commands for a sequence of declared windows, and the live state after them.
pub open spec fn plan(socket: Seq<char>, ts: Seq<(Seq<char>, Window)>, st: LiveView) -> (Seq<
    Seq<Seq<char>>,
>, LiveView)
    decreases ts.len(),
{
    if ts.len() == 0 {
        (Seq::empty(), st)
    } else {
        let before = plan(socket, ts.drop_last(), st);
        let t = ts.last();
        (before.0 + window_plan(socket, t.0, t.1, before.1), state_after_window(t.0, t.1.name@, before.1))
    }
}

/// The commands of a whole run, and the live state after it. A configuration
/// without a tmux section asks for nothing.
pub open spec fn startup_plan(socket: Seq<char>, config: Config, st: LiveView) -> (Seq<
    Seq<Seq<char>>,
>, LiveView) {
    match config.tmux {
        None => (Seq::empty(), st),
        Some(t) => plan(socket, declared_windows(t.sessions@), st),
    }
}

/// The keystroke commands that type a window's startup commands into it.
pub fn execute_command(socket: &String, session: &String, window: &Window) -> (r: Vec<TmuxCommand>)
    ensures
        argvs(r@) == keys_argvs(socket@, session@, *window),
{
    let mut r: Vec<TmuxCommand> = Vec::new();
    match &window.command {
        None => {},
        Some(Command::Single(keys)) => {
            r.push(TmuxCommand::send_keys(socket, session, &window.name, keys));
        },
        Some(Command::Multiple(all)) => {
            let mut i: usize = 0;
            while i < all.len()
                invariant
                    i <= all@.len(),
                    window.command == Some(Command::Multiple(*all)),
                    argvs(r@) == keys_argvs(socket@, session@, *window).take(i as int),
                decreases all.len() - i,
            {
                let ghost prev = r@;
                r.push(TmuxCommand::send_keys(socket, session, &window.name, &all[i]));
                assert(declared_commands(window.command)[i as int] == all@[i as int]@);
                assert(argvs(r@) =~= argvs(prev).push(send_keys_argv(socket@, session@, window.name@, all@[i as int]@)));
                assert(argvs(r@) =~= keys_argvs(socket@, session@, *window).take(i + 1));
                i = i + 1;
            }
        },
    }
    assert(argvs(r@) =~= keys_argvs(socket@, session@, *window));
    r
}

/// Plans one declared window against the live state, and records its creation.
pub fn ensure_window(socket: &String, session: &String, window: &Window, state: &mut TmuxState) -> (r:
    Vec<TmuxCommand>)
    requires
        old(state).wf(),
    ensures
        final(state).wf(),
        argvs(r@) == window_plan(socket@, session@, *window, old(state)@),
        final(state)@ == state_after_window(session@, window.name@, old(state)@),
{
    if state.has_window(session, &window.name) {
        let r: Vec<TmuxCommand> = Vec::new();
        assert(argvs(r@) =~= Seq::empty());
        return r;
    }
    let create = match state.windows(session) {
        Some(_) => TmuxCommand::new_window(socket, session, &window.name, &window.path),
        None => TmuxCommand::new_session(socket, session, &window.name, &window.path),
    };
    let mut r = vec![create];
    let mut keys = execute_command(socket, session, window);
    let ghost first = argvs(r@);
    r.append(&mut keys);
    assert(argvs(r@) =~= first + keys_argvs(socket@, session@, *window));
    state.add_window(session, &window.name);
    r
}

/// Plans a whole run: the commands that bring the live state `state` to the
/// declared configuration, in the order they must be issued. `state` is
/// updated to what the server holds once they have run.
pub fn startup_tmux(config: &Config, options: &TmuxOptions, state: &mut TmuxState) -> (r: Vec<
    TmuxCommand,
>)
    requires
        old(state).wf(),
    ensures
        final(state).wf(),
        argvs(r@) == startup_plan(socket_of(*options), *config, old(state)@).0,
        final(state)@ == startup_plan(socket_of(*options), *config, old(state)@).1,
        config.tmux is None ==> r@.len() == 0 && final(state)@ == old(state)@,
{
    let socket = get_socket_name(options);
    let mut commands: Vec<TmuxCommand> = Vec::new();
    let ghost start = state@;
    match &config.tmux {
        None => {},
        Some(tmux) => {
            let sessions = &tmux.sessions;
            let mut i: usize = 0;
            while i < sessions.len()
                invariant
                    state.wf(),
                    i <= sessions@.len(),
                    argvs(commands@) == plan(socket@, declared_windows(sessions@.take(i as int)), start).0,
                    state@ == plan(socket@, declared_windows(sessions@.take(i as int)), start).1,
                decreases sessions.len() - i,
            {
                let session = &sessions[i];
                let ghost done = declared_windows(sessions@.take(i as int));
                let mut j: usize = 0;
                while j < session.windows.len()
                    invariant
                        state.wf(),
                        j <= session.windows@.len(),
                        argvs(commands@) == plan(socket@, done + session_windows(*session).take(j as int), start).0,
                        state@ == plan(socket@, done + session_windows(*session).take(j as int), start).1,
                    decreases session.windows.len() - j,
                {
                    let ghost ts = done + session_windows(*session).take(j + 1);
                    let ghost prev = commands@;
                    let mut cmds = ensure_window(&socket, &session.name, &session.windows[j], state);
                    let ghost added = cmds@;
                    commands.append(&mut cmds);
                    assert(ts.drop_last() =~= done + session_windows(*session).take(j as int));
                    assert(ts.last() == (session.name@, session.windows@[j as int]));
                    assert(argvs(commands@) =~= argvs(prev) + argvs(added));
                    j = j + 1;
                }
                assert(session_windows(*session).take(j as int) =~= session_windows(*session));
                assert(sessions@.take(i + 1).drop_last() =~= sessions@.take(i as int));
                i = i + 1;
            }
            assert(sessions@.take(i as int) =~= sessions@);
        },
    }
    commands
}

} // verus!

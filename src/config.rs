//! The declared configuration: sessions, their windows, and what to run in them.

use std::collections::BTreeMap;
use vstd::prelude::*;

verus! {

/// Configuration for the application.
#[derive(Debug, Clone, PartialEq, Eq)]
pub struct Config {
    /// Optional tmux configuration: the sessions and windows to be created.
    pub tmux: Option<Tmux>,
    /// Optional configuration of the shell-setup cache.
    pub shell_caching: Option<ShellCache>,
}

/// Where the shell-setup cache reads its sources and writes its output.
#[derive(Debug, Clone, PartialEq, Eq)]
pub struct ShellCache {
    pub source: String,
    pub destination: String,
}

/// Tmux configuration.
#[derive(Debug, Clone, PartialEq, Eq)]
pub struct Tmux {
    /// The sessions, in declaration order.
    pub sessions: Vec<Session>,
    /// The session to attach to after startup, if any.
    pub default_session: Option<String>,
}

/// A declared tmux session.
#[derive(Debug, Clone, PartialEq, Eq)]
pub struct Session {
    /// Name of the session, used as tmux's session identifier.
    pub name: String,
    /// The windows of the session, in declaration order.
    pub windows: Vec<Window>,
}

/// What to type into a freshly created window.
#[derive(Debug, Clone, PartialEq, Eq)]
pub enum Command {
    /// A single shell command.
    Single(String),
    /// Several shell commands, typed in order.
    Multiple(Vec<String>),
}

/// A declared tmux window.
#[derive(Debug, Clone, PartialEq, Eq)]
pub struct Window {
    /// Name of the window within its session.
    pub name: String,
    /// Working directory of the window, as an already expanded path.
    pub path: Option<String>,
    /// Startup command(s) to run in the window when it is created.
    pub command: Option<Command>,
    /// Additional environment variables for the window.
    pub env: Option<BTreeMap<String, String>>,
}

/// The startup commands that a window declares, in the order they are typed.
pub open spec fn declared_commands(command: Option<Command>) -> Seq<Seq<char>> {
    match command {
        None => Seq::empty(),
        Some(Command::Single(c)) => seq![c@],
        Some(Command::Multiple(cs)) => cs@.map_values(|c: String| c@),
    }
}

/// The configuration used when no configuration file exists: a tmux section
/// that declares no session, and no shell-setup cache.
pub fn default_config() -> (r: Config)
    ensures
        r.tmux is Some,
        r.tmux->0.sessions@.len() == 0,
        r.tmux->0.default_session is None,
        r.shell_caching is None,
{
    Config { tmux: Some(Tmux { sessions: Vec::new(), default_session: None }), shell_caching: None }
}

} // verus!

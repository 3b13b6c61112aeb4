//! Declarative provisioning of tmux sessions and windows.
//!
//! The library computes, from a declared configuration and a snapshot of the
//! live tmux server, the ordered list of tmux invocations that bring the
//! server to the declared state, and drives their execution one by one.
//! Running processes is left to the caller: every function here is pure.

pub mod command;
pub mod config;
pub mod laws;
pub mod reconcile;
pub mod run;
pub mod state;
pub mod text;

pub use command::{command_to_string, get_socket_name, TmuxCommand, TmuxOptions};
pub use config::{default_config, Command, Config, Session, ShellCache, Tmux, Window};
pub use state::{gather_tmux_state, TmuxState};
pub use reconcile::{ensure_window, execute_command, startup_tmux};
pub use text::{get_line_number, parse_lines};
pub use run::{command_log, CommandRun, ReconcileError};

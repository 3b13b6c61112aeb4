//! Issuing a planned run, one command at a time.
//!
//! The caller starts the processes; this state machine decides what comes
//! next. Under dry run nothing is started. Otherwise the commands are started
//! in order, and the first one that cannot be started ends the run with an
//! error that names it. A command that starts but fails is still logged: the
//! run converges on a best-effort basis.

use vstd::prelude::*;
use vstd::string::StringExecFns;

use crate::command::{argv_text, command_to_string, words, TmuxCommand};

verus! {

/// The log of a run: the text form of each command, in order.
pub open spec fn log_of(commands: Seq<TmuxCommand>) -> Seq<Seq<char>> {
    commands.map_values(|c: TmuxCommand| argv_text(c@))
}

/// The text forms of the commands, in order.
pub fn command_log(commands: &Vec<TmuxCommand>) -> (r: Vec<String>)
    ensures
        words(r@) == log_of(commands@),
{
    let mut r: Vec<String> = Vec::new();
    let mut i: usize = 0;
    while i < commands.len()
        invariant
            i <= commands@.len(),
            words(r@) == log_of(commands@).take(i as int),
        decreases commands.len() - i,
    {
        let ghost prev = words(r@);
        r.push(command_to_string(&commands[i]));
        assert(words(r@) =~= prev.push(argv_text(commands@[i as int]@)));
        assert(words(r@) =~= log_of(commands@).take(i + 1));
        i = i + 1;
    }
    assert(log_of(commands@).take(i as int) =~= log_of(commands@));
    r
}

/// A run ended because a command could not be started.
#[derive(Debug, Clone, PartialEq, Eq)]
pub struct ReconcileError {
    /// The text form of the command that could not be started.
    pub command: String,
}

impl ReconcileError {
    /// A message for the user.
    pub fn message(&self) -> (r: String)
        ensures
            r@ == "failed to run: "@ + self.command@,
    {
        let mut r = String::from_str("failed to run: ");
        r.append(self.command.as_str());
        r
    }
}

/// The execution of a planned run.
pub struct CommandRun {
    commands: Vec<TmuxCommand>,
    dry_run: bool,
    started: usize,
    failed: bool,
}

impl CommandRun {
    /// The planned commands.
    pub closed spec fn commands(&self) -> Seq<TmuxCommand> {
        self.commands@
    }

    /// Whether this is a dry run.
    pub closed spec fn dry_run(&self) -> bool {
        self.dry_run
    }

    /// How many commands have been started.
    pub closed spec fn started(&self) -> nat {
        self.started as nat
    }

    /// Whether the command after the started ones could not be started.
    pub closed spec fn failed(&self) -> bool {
        self.failed
    }

    pub closed spec fn wf(&self) -> bool {
        &&& self.started <= self.commands@.len()
        &&& self.failed ==> self.started < self.commands@.len()
        &&& self.dry_run ==> self.started == 0 && !self.failed
    }

    /// Whether a command is still to be started.
    pub open spec fn pending(&self) -> bool {
        !self.dry_run() && !self.failed() && self.started() < self.commands().len()
    }

    /// A run of the planned `commands`, none started yet.
    pub fn new(commands: Vec<TmuxCommand>, dry_run: bool) -> (r: CommandRun)
        ensures
            r.wf(),
            r.commands() == commands@,
            r.dry_run() == dry_run,
            r.started() == 0,
            !r.failed(),
    {
        CommandRun { commands, dry_run, started: 0, failed: false }
    }

    /// The command to start next, if any.
    pub fn next_command(&self) -> (r: Option<&TmuxCommand>)
        requires
            self.wf(),
        ensures
            r is Some <==> self.pending(),
            r is Some ==> *r->0 == self.commands()[self.started() as int],
    {
        if !self.dry_run && !self.failed && self.started < self.commands.len() {
            Some(&self.commands[self.started])
        } else {
            None
        }
    }

    /// Records whether the command given by `next_command` could be started.
    pub fn record(&mut self, could_start: bool)
        requires
            old(self).wf(),
            old(self).pending(),
        ensures
            final(self).wf(),
            final(self).commands() == old(self).commands(),
            final(self).dry_run() == old(self).dry_run(),
            could_start ==> final(self).started() == old(self).started() + 1 && !final(self).failed(),
            !could_start ==> final(self).started() == old(self).started() && final(self).failed(),
    {
        let planned = self.commands.len();
        if could_start {
            assert(self.started < planned);
            self.started = self.started + 1;
        } else {
            self.failed = true;
        }
    }

    /// How the run ended: the log of every planned command, or the error that
    /// names the command that could not be started.
    pub fn outcome(&self) -> (r: Result<Vec<String>, ReconcileError>)
        requires
            self.wf(),
            !self.pending(),
        ensures
            !self.failed() ==> (r matches Ok(log) && words(log@) == log_of(self.commands())),
            self.failed() ==> (r matches Err(e) && e.command@ == argv_text(
                self.commands()[self.started() as int]@,
            )),
    {
        if self.failed {
            Err(ReconcileError { command: command_to_string(&self.commands[self.started]) })
        } else {
            Ok(command_log(&self.commands))
        }
    }
}

} // verus!

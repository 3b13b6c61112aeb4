//! Tmux invocations: how each one is spelled, and its text form for the log.

use vstd::prelude::*;
use vstd::string::StringExecFns;

verus! {

/// The socket used when the options name none.
pub const DEFAULT_SOCKET: &'static str = "default";

/// Options of one provisioning run.
#[derive(Debug, Clone, PartialEq, Eq)]
pub struct TmuxOptions {
    /// Compute and log the commands without running any of them.
    pub dry_run: bool,
    /// Verbose output; not consulted by the planning itself.
    pub debug: bool,
    /// Whether to attach to tmux afterwards; `None` leaves it to the caller's default.
    pub attach: Option<bool>,
    /// The tmux socket (`tmux -L <name>`); `None` selects the default socket.
    pub socket_name: Option<String>,
    /// Path of the configuration file, consumed by whoever loads the configuration.
    pub config_file: Option<String>,
}

/// The socket that a run with these options addresses.
pub open spec fn socket_of(options: TmuxOptions) -> Seq<char> {
    match options.socket_name {
        Some(s) => s@,
        None => DEFAULT_SOCKET@,
    }
}

/// The views of a sequence of strings.
pub open spec fn words(v: Seq<String>) -> Seq<Seq<char>> {
    v.map_values(|s: String| s@)
}

/// One invocation of an outside program: the program and its arguments.
#[derive(Debug, Clone, PartialEq, Eq)]
pub struct TmuxCommand {
    pub program: String,
    pub args: Vec<String>,
}

impl View for TmuxCommand {
    /// The argument vector, program first.
    type V = Seq<Seq<char>>;

    open spec fn view(&self) -> Seq<Seq<char>> {
        seq![self.program@] + words(self.args@)
    }
}

/// The arguments that set a new window's working directory, if one is declared.
pub open spec fn dir_args(path: Option<String>) -> Seq<Seq<char>> {
    match path {
        Some(p) => seq!["-c"@, p@],
        None => Seq::empty(),
    }
}

/// `tmux -L <socket> new-session -d -s <session> -n <window> [-c <path>]`
pub open spec fn new_session_argv(
    socket: Seq<char>,
    session: Seq<char>,
    window: Seq<char>,
    path: Option<String>,
) -> Seq<Seq<char>> {
    seq!["tmux"@, "-L"@, socket, "new-session"@, "-d"@, "-s"@, session, "-n"@, window] + dir_args(
        path,
    )
}

/// `tmux -L <socket> new-window -t <session> -n <window> [-c <path>]`
pub open spec fn new_window_argv(
    socket: Seq<char>,
    session: Seq<char>,
    window: Seq<char>,
    path: Option<String>,
) -> Seq<Seq<char>> {
    seq!["tmux"@, "-L"@, socket, "new-window"@, "-t"@, session, "-n"@, window] + dir_args(path)
}

/// The address of a window: `<session>:<window>`.
pub open spec fn window_target(session: Seq<char>, window: Seq<char>) -> Seq<char> {
    session + ":"@ + window
}

/// `tmux -L <socket> send-keys -t <session>:<window> <keys> Enter`
pub open spec fn send_keys_argv(
    socket: Seq<char>,
    session: Seq<char>,
    window: Seq<char>,
    keys: Seq<char>,
) -> Seq<Seq<char>> {
    seq![
        "tmux"@,
        "-L"@,
        socket,
        "send-keys"@,
        "-t"@,
        window_target(session, window),
        keys,
        "Enter"@,
    ]
}

/// `tmux -L <socket> list-sessions -F #{session_name}`
pub open spec fn list_sessions_argv(socket: Seq<char>) -> Seq<Seq<char>> {
    seq!["tmux"@, "-L"@, socket, "list-sessions"@, "-F"@, "#{session_name}"@]
}

/// `tmux -L <socket> list-windows -F #{window_name} -t <session>`
pub open spec fn list_windows_argv(socket: Seq<char>, session: Seq<char>) -> Seq<Seq<char>> {
    seq!["tmux"@, "-L"@, socket, "list-windows"@, "-F"@, "#{window_name}"@, "-t"@, session]
}

/// The words joined, each preceded by one space.
pub open spec fn spaced(words: Seq<Seq<char>>) -> Seq<char>
    decreases words.len(),
{
    if words.len() == 0 {
        Seq::empty()
    } else {
        spaced(words.drop_last()) + " "@ + words.last()
    }
}

/// The text form of an argument vector: the words separated by single spaces.
pub open spec fn argv_text(argv: Seq<Seq<char>>) -> Seq<char> {
    if argv.len() == 0 {
        Seq::empty()
    } else {
        argv[0] + spaced(argv.drop_first())
    }
}

impl TmuxOptions {
    pub fn is_dry_run(&self) -> (r: bool)
        ensures
            r == self.dry_run,
    {
        self.dry_run
    }

    pub fn is_debug(&self) -> (r: bool)
        ensures
            r == self.debug,
    {
        self.debug
    }

    pub fn should_attach(&self) -> (r: Option<bool>)
        ensures
            r == self.attach,
    {
        self.attach
    }

    pub fn socket_name(&self) -> (r: Option<String>)
        ensures
            r == self.socket_name,
    {
        self.socket_name.clone()
    }

    pub fn config_file(&self) -> (r: Option<String>)
        ensures
            r == self.config_file,
    {
        self.config_file.clone()
    }
}

/// The socket name to pass to `tmux -L`: the one in the options, else `default`.
pub fn get_socket_name(options: &TmuxOptions) -> (r: String)
    ensures
        r@ == socket_of(*options),
{
    match &options.socket_name {
        Some(s) => s.clone(),
        None => String::from_str(DEFAULT_SOCKET),
    }
}

fn word(s: &str) -> (r: String)
    ensures
        r@ == s@,
{
    String::from_str(s)
}

/// Pushes `-c <path>` when a working directory is given.
fn push_dir_args(args: &mut Vec<String>, path: &Option<String>)
    ensures
        words(final(args)@) == words(old(args)@) + dir_args(*path),
{
    let ghost before = words(args@);
    if let Some(p) = path {
        args.push(word("-c"));
        args.push(p.clone());
    }
    assert(words(args@) =~= before + dir_args(*path));
}

impl TmuxCommand {
    fn tmux(socket: &String) -> (r: TmuxCommand)
        ensures
            r@ == seq!["tmux"@, "-L"@, socket@],
    {
        let args = vec![word("-L"), socket.clone()];
        let r = TmuxCommand { program: word("tmux"), args };
        assert(r@ =~= seq!["tmux"@, "-L"@, socket@]);
        r
    }

    fn push_arg(&mut self, a: String)
        ensures
            final(self)@ == old(self)@.push(a@),
    {
        let ghost before = self@;
        self.args.push(a);
        assert(self@ =~= before.push(a@));
    }

    /// Creates a detached session whose first window has the given name.
    pub fn new_session(socket: &String, session: &String, window: &String, path: &Option<String>) -> (r:
        TmuxCommand)
        ensures
            r@ == new_session_argv(socket@, session@, window@, *path),
    {
        let mut c = TmuxCommand::tmux(socket);
        c.push_arg(word("new-session"));
        c.push_arg(word("-d"));
        c.push_arg(word("-s"));
        c.push_arg(session.clone());
        c.push_arg(word("-n"));
        c.push_arg(window.clone());
        let ghost before = c@;
        push_dir_args(&mut c.args, path);
        assert(c@ =~= before + dir_args(*path));
        assert(c@ =~= new_session_argv(socket@, session@, window@, *path));
        c
    }

    /// Adds a window with the given name to an existing session.
    pub fn new_window(socket: &String, session: &String, window: &String, path: &Option<String>) -> (r:
        TmuxCommand)
        ensures
            r@ == new_window_argv(socket@, session@, window@, *path),
    {
        let mut c = TmuxCommand::tmux(socket);
        c.push_arg(word("new-window"));
        c.push_arg(word("-t"));
        c.push_arg(session.clone());
        c.push_arg(word("-n"));
        c.push_arg(window.clone());
        let ghost before = c@;
        push_dir_args(&mut c.args, path);
        assert(c@ =~= before + dir_args(*path));
        assert(c@ =~= new_window_argv(socket@, session@, window@, *path));
        c
    }

    /// Types `keys` into the window `<session>:<window>` and presses Enter.
    pub fn send_keys(socket: &String, session: &String, window: &String, keys: &String) -> (r:
        TmuxCommand)
        ensures
            r@ == send_keys_argv(socket@, session@, window@, keys@),
    {
        let mut target = session.clone();
        target.append(":");
        target.append(window.as_str());
        let mut c = TmuxCommand::tmux(socket);
        c.push_arg(word("send-keys"));
        c.push_arg(word("-t"));
        c.push_arg(target);
        c.push_arg(keys.clone());
        c.push_arg(word("Enter"));
        assert(c@ =~= send_keys_argv(socket@, session@, window@, keys@));
        c
    }

    /// Lists the names of the sessions, one per line.
    pub fn list_sessions(socket: &String) -> (r: TmuxCommand)
        ensures
            r@ == list_sessions_argv(socket@),
    {
        let mut c = TmuxCommand::tmux(socket);
        c.push_arg(word("list-sessions"));
        c.push_arg(word("-F"));
        c.push_arg(word("#{session_name}"));
        assert(c@ =~= list_sessions_argv(socket@));
        c
    }

    /// Lists the names of the windows of one session, one per line.
    pub fn list_windows(socket: &String, session: &String) -> (r: TmuxCommand)
        ensures
            r@ == list_windows_argv(socket@, session@),
    {
        let mut c = TmuxCommand::tmux(socket);
        c.push_arg(word("list-windows"));
        c.push_arg(word("-F"));
        c.push_arg(word("#{window_name}"));
        c.push_arg(word("-t"));
        c.push_arg(session.clone());
        assert(c@ =~= list_windows_argv(socket@, session@));
        c
    }
}

/// The text form of a command, as logged: program and arguments separated by spaces.
pub fn command_to_string(cmd: &TmuxCommand) -> (r: String)
    ensures
        r@ == argv_text(cmd@),
{
    let mut text = cmd.program.clone();
    let ghost all = words(cmd.args@);
    let mut i: usize = 0;
    while i < cmd.args.len()
        invariant
            i <= cmd.args.len(),
            all == words(cmd.args@),
            text@ == cmd.program@ + spaced(all.take(i as int)),
        decreases cmd.args.len() - i,
    {
        text.append(" ");
        text.append(cmd.args[i].as_str());
        assert(all.take(i + 1).drop_last() =~= all.take(i as int));
        i = i + 1;
    }
    assert(all.take(i as int) =~= all);
    assert(cmd@.drop_first() =~= all);
    text
}

} // verus!

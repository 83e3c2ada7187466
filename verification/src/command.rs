//! Cross-platform command planning for the command-bridge plugin: a native
//! command with arguments and working directory, and a plan that picks the
//! platform's variant. Running the planned command is the host's work.

use vstd::prelude::*;

use crate::strutil::str_eq;

verus! {

/// A concrete executable invocation: program, arguments, and an optional
/// working directory.
pub struct NativeCommand {
    pub program: String,
    pub args: Vec<String>,
    pub working_dir: Option<String>,
}

/// True when the two commands agree character for character.
pub open spec fn native_like(a: NativeCommand, b: NativeCommand) -> bool {
    &&& a.program@ == b.program@
    &&& a.args@.len() == b.args@.len()
    &&& forall|i: int| 0 <= i < a.args@.len() ==> #[trigger] a.args@[i]@ == b.args@[i]@
    &&& match (a.working_dir, b.working_dir) {
        (Option::None, Option::None) => true,
        (Option::Some(x), Option::Some(y)) => x@ == y@,
        _ => false,
    }
}

impl NativeCommand {
    /// A command with no arguments and no working directory.
    pub fn new(program: &str) -> (r: NativeCommand)
        ensures
            r.program@ == program@,
            r.args@.len() == 0,
            r.working_dir is None,
    {
        NativeCommand { program: program.to_owned(), args: Vec::new(), working_dir: None }
    }

    /// Appends the given arguments, returning the command for chaining.
    pub fn with_args(self, args: Vec<String>) -> (r: NativeCommand)
        ensures
            r.program == self.program,
            r.working_dir == self.working_dir,
            r.args@ == self.args@ + args@,
    {
        let mut r = self;
        let mut more = args;
        r.args.append(&mut more);
        r
    }

    /// Sets the working directory, returning the command for chaining.
    pub fn working_dir(self, dir: &str) -> (r: NativeCommand)
        ensures
            r.program == self.program,
            r.args == self.args,
            r.working_dir matches Some(d) && d@ == dir@,
    {
        let mut r = self;
        r.working_dir = Some(dir.to_owned());
        r
    }

    /// A copy that agrees character for character.
    pub fn duplicate(&self) -> (r: NativeCommand)
        ensures
            native_like(r, *self),
    {
        NativeCommand {
            program: self.program.clone(),
            args: crate::strutil::clone_strs(&self.args),
            working_dir: match &self.working_dir {
                Some(d) => Some(d.clone()),
                None => None,
            },
        }
    }
}

/// What can go wrong planning or launching a command.
pub enum CommandError {
    /// No variant of the plan fits the current platform.
    UnsupportedPlatform { command_id: String },
    /// An interceptor refused the command before launch.
    Unauthorized { command_id: String, reason: String },
    /// The host could not spawn the process.
    LaunchFailure { command_id: String, source: String },
}

impl CommandError {
    /// A plain rendering for callers.
    pub fn message(&self) -> (r: String)
        ensures
            r@ == match *self {
                CommandError::UnsupportedPlatform { command_id: ref c } => "command '"@ + c@
                    + "' is not supported on this platform"@,
                CommandError::Unauthorized { command_id: ref c, reason: ref m } => "command '"@
                    + c@ + "' is not authorized: "@ + m@,
                CommandError::LaunchFailure { command_id: ref c, source: ref m } =>
                    "failed to spawn command '"@ + c@ + "': "@ + m@,
            },
    {
        match self {
            CommandError::UnsupportedPlatform { command_id } => {
                let mut r = String::from_str("command '");
                r.append(command_id.as_str());
                r.append("' is not supported on this platform");
                r
            },
            CommandError::Unauthorized { command_id, reason } => {
                let mut r = String::from_str("command '");
                r.append(command_id.as_str());
                r.append("' is not authorized: ");
                r.append(reason.as_str());
                r
            },
            CommandError::LaunchFailure { command_id, source } => {
                let mut r = String::from_str("failed to spawn command '");
                r.append(command_id.as_str());
                r.append("': ");
                r.append(source.as_str());
                r
            },
        }
    }
}

/// A command described for both platform families: a Unix variant always,
/// a Windows variant optionally.
pub struct CommandPlan {
    pub id: String,
    pub display_name: String,
    pub description: String,
    pub unix: NativeCommand,
    pub windows: Option<NativeCommand>,
}

impl CommandPlan {
    /// A plan with only the Unix variant.
    pub fn new(id: &str, display_name: &str, description: &str, unix: NativeCommand) -> (r:
        CommandPlan)
        ensures
            r.id@ == id@,
            r.display_name@ == display_name@,
            r.description@ == description@,
            r.unix == unix,
            r.windows is None,
    {
        CommandPlan {
            id: id.to_owned(),
            display_name: display_name.to_owned(),
            description: description.to_owned(),
            unix,
            windows: None,
        }
    }

    /// Adds the Windows variant, returning the plan for chaining.
    pub fn with_windows(self, windows: NativeCommand) -> (r: CommandPlan)
        ensures
            r.id == self.id,
            r.display_name == self.display_name,
            r.description == self.description,
            r.unix == self.unix,
            r.windows matches Some(w) && w == windows,
    {
        let mut r = self;
        r.windows = Some(windows);
        r
    }

    /// Picks the variant for the platform the host reports: on Windows the
    /// Windows variant when one was given, else the Unix variant, which also
    /// serves as the fallback — so resolution never fails.
    pub fn resolve(&self, on_windows: bool) -> (r: Result<NativeCommand, CommandError>)
        ensures
            r matches Ok(c) && native_like(
                c,
                if on_windows && self.windows is Some {
                    self.windows.unwrap()
                } else {
                    self.unix
                },
            ),
    {
        if on_windows {
            match &self.windows {
                Some(w) => Ok(w.duplicate()),
                None => Ok(self.unix.duplicate()),
            }
        } else {
            Ok(self.unix.duplicate())
        }
    }
}

/// What running a planned command produced.
pub struct CommandOutput {
    pub success: bool,
    pub status_code: i32,
    pub stdout: String,
    pub stderr: String,
}

/// A command wrapped for the bridge: its names, whether a human must approve
/// it, and how to build its plan.
pub trait CommandSpec {
    /// The command's unique name.
    fn name(&self) -> &'static str;

    /// The name shown to people.
    fn display_name(&self) -> &'static str;

    /// What the command will do.
    fn description(&self) -> String;

    /// Whether a human must approve the run first.
    fn requires_approval(&self) -> bool;

    /// The cross-platform plan to execute.
    fn build_plan(&self) -> CommandPlan;
}

/// Intercepts command execution: a veto before launch, an observation after.
/// Consumers of the bridge implement this for auditing and access control.
pub trait CommandInterceptor {
    /// May refuse the command before it is launched.
    fn before_execute(&self, plan: &CommandPlan, native: &NativeCommand) -> Result<
        (),
        CommandError,
    >;

    /// Observes a finished command.
    fn after_execute(&self, plan: &CommandPlan, native: &NativeCommand, output: &CommandOutput);
}

/// Chains registered interceptors around command execution; launching the
/// process itself is the host's work, bracketed by `authorize` and
/// `observe`. The interceptors are trait objects, of which nothing can be
/// stated, so these functions carry no contracts beyond being checked.
pub struct CommandExecutor {
    interceptors: Vec<Box<dyn CommandInterceptor>>,
}

impl CommandExecutor {
    /// An executor with no interceptors.
    pub fn new() -> CommandExecutor {
        CommandExecutor { interceptors: Vec::new() }
    }

    /// Registers an interceptor; they run in registration order.
    pub fn register(&mut self, interceptor: Box<dyn CommandInterceptor>) {
        self.interceptors.push(interceptor);
    }

    /// Asks every interceptor in order; the first refusal aborts the
    /// command.
    pub fn authorize(&self, plan: &CommandPlan, native: &NativeCommand) -> (r: Result<
        (),
        CommandError,
    >)
    {
        let mut i: usize = 0;
        while i < self.interceptors.len()
            invariant
                i <= self.interceptors@.len(),
            decreases self.interceptors@.len() - i,
        {
            match self.interceptors[i].before_execute(plan, native) {
                Ok(()) => {},
                Err(e) => {
                    return Err(e);
                },
            }
            i += 1;
        }
        Ok(())
    }

    /// Lets every interceptor observe the finished command.
    pub fn observe(&self, plan: &CommandPlan, native: &NativeCommand, output: &CommandOutput) {
        let mut i: usize = 0;
        while i < self.interceptors.len()
            invariant
                i <= self.interceptors@.len(),
            decreases self.interceptors@.len() - i,
        {
            self.interceptors[i].after_execute(plan, native, output);
            i += 1;
        }
    }
}

/// Listing a directory, the bridge's built-in command.
pub struct LsCommand {
    target_dir: String,
    include_hidden: bool,
    requires_approval: bool,
}

impl LsCommand {
    /// A listing of `target_dir`, optionally with hidden entries.
    pub fn new(target_dir: String, include_hidden: bool, requires_approval: bool) -> (r:
        LsCommand)
        ensures
            r.dir_spec() == target_dir@,
            r.hidden_spec() == include_hidden,
            r.approval_spec() == requires_approval,
    {
        LsCommand { target_dir, include_hidden, requires_approval }
    }

    /// The directory this command lists.
    pub closed spec fn dir_spec(self) -> Seq<char> {
        self.target_dir@
    }

    /// Whether hidden entries are included.
    pub closed spec fn hidden_spec(self) -> bool {
        self.include_hidden
    }

    /// Whether a human must approve the run.
    pub closed spec fn approval_spec(self) -> bool {
        self.requires_approval
    }
}

impl CommandSpec for LsCommand {
    fn name(&self) -> &'static str {
        "ls"
    }

    fn display_name(&self) -> &'static str {
        "List directory"
    }

    fn description(&self) -> String {
        let mut r = String::from_str("List directory ");
        r.append(self.target_dir.as_str());
        if self.include_hidden {
            r.append(" (include hidden)");
        }
        r
    }

    fn requires_approval(&self) -> bool {
        self.requires_approval
    }

    fn build_plan(&self) -> CommandPlan {
        let mut unix_args: Vec<String> = Vec::new();
        if self.include_hidden {
            unix_args.push(String::from_str("-a"));
        }
        unix_args.push(String::from_str("-1"));
        let unix = NativeCommand::new("ls").with_args(unix_args).working_dir(
            self.target_dir.as_str(),
        );
        let mut windows_args: Vec<String> = Vec::new();
        windows_args.push(String::from_str("/C"));
        windows_args.push(String::from_str("dir"));
        windows_args.push(String::from_str("/b"));
        if self.include_hidden {
            windows_args.push(String::from_str("/a"));
        }
        let windows = NativeCommand::new("cmd").with_args(windows_args).working_dir(
            self.target_dir.as_str(),
        );
        let desc = self.description();
        CommandPlan::new("ls", "List directory", desc.as_str(), unix).with_windows(windows)
    }
}

} // verus!

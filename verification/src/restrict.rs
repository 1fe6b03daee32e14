//! The request: what to run, and under which limits.

use vstd::prelude::*;
use vstd::string::*;

verus! {

/// What is wrong with a request that cannot be run.
#[derive(Clone, Copy, Debug, PartialEq, Eq, Structural)]
pub enum ConfigError {
    /// No shell is named.
    EmptyShell,
    /// There is no command to run.
    EmptyCommand,
    /// The control group's name is not a single path segment.
    InvalidScope,
    /// The memory ceiling is more than the backend can hold.
    MemoryTooLarge,
}

/// A command to run and the limits to run it under.
///
/// A request that can be run is a valid one, see [`RestrictView::valid`].
/// A request made from a command line is valid from the start. One that is
/// put together by hand begins with `new`, which names neither shell nor
/// command, and is filled in by the `with_` methods; it is valid once
/// [`Restrict::check`] finds nothing wrong with it, and no run begins from
/// one that is not.
#[derive(Clone, Debug)]
pub struct Restrict {
    debug: bool,
    memory_limit: Option<u64>,
    cpu_shares: Option<u64>,
    shell: String,
    command: String,
    cgroup_path: String,
}

/// A request as plain values.
pub struct RestrictView {
    /// Whether status lines are wanted.
    pub debug: bool,
    /// The memory ceiling in bytes, if there is one.
    pub memory_limit: Option<u64>,
    /// The CPU weight, if there is one.
    pub cpu_shares: Option<u64>,
    /// The interpreter that runs the command.
    pub shell: Seq<char>,
    /// The command line, as the interpreter is to read it.
    pub command: Seq<char>,
    /// The name of the control group.
    pub cgroup_path: Seq<char>,
}

/// Whether `id` names a control group directly below the backend's root: it
/// is not empty, holds neither `/` nor a NUL, and is neither `.` nor `..`.
/// Such a name is one directory, which creating makes and deleting removes.
pub open spec fn valid_scope_id(id: Seq<char>) -> bool {
    &&& id.len() > 0
    &&& forall|i: int| 0 <= i < id.len() ==> id[i] != '/' && id[i] != '\0'
    &&& !(id.len() == 1 && id[0] == '.')
    &&& !(id.len() == 2 && id[0] == '.' && id[1] == '.')
}

impl RestrictView {
    /// The first thing that keeps this request from being run, if any:
    /// shell, command, group name and memory ceiling are looked at in this
    /// order.
    pub open spec fn defect(self) -> Option<ConfigError> {
        if self.shell.len() == 0 {
            Some(ConfigError::EmptyShell)
        } else if self.command.len() == 0 {
            Some(ConfigError::EmptyCommand)
        } else if !valid_scope_id(self.cgroup_path) {
            Some(ConfigError::InvalidScope)
        } else if self.memory_limit matches Some(ceiling) && !crate::limits::ceiling_fits(
            ceiling,
        ) {
            Some(ConfigError::MemoryTooLarge)
        } else {
            None
        }
    }

    /// A request that can be run: shell and command are not empty, the
    /// group's name is a valid one, and the backend can hold the ceiling.
    pub open spec fn valid(self) -> bool {
        &&& self.shell.len() > 0
        &&& self.command.len() > 0
        &&& valid_scope_id(self.cgroup_path)
        &&& self.memory_limit matches Some(ceiling) ==> crate::limits::ceiling_fits(ceiling)
    }

    /// A request is valid exactly when nothing is wrong with it.
    pub proof fn lemma_valid_iff_no_defect(self)
        ensures
            self.valid() <==> self.defect() is None,
    {
    }
}

impl View for Restrict {
    type V = RestrictView;

    closed spec fn view(&self) -> RestrictView {
        RestrictView {
            debug: self.debug,
            memory_limit: self.memory_limit,
            cpu_shares: self.cpu_shares,
            shell: self.shell@,
            command: self.command@,
            cgroup_path: self.cgroup_path@,
        }
    }
}

/// Decides [`valid_scope_id`].
pub fn is_valid_scope_id(id: &str) -> (valid: bool)
    ensures
        valid == valid_scope_id(id@),
{
    let len: usize = id.unicode_len();
    if len == 0 {
        return false;
    }
    let mut dots: usize = 0;
    let mut i: usize = 0;
    while i < len
        invariant
            len == id@.len(),
            0 <= i <= len,
            dots <= i,
            forall|j: int| 0 <= j < i ==> id@[j] != '/' && id@[j] != '\0',
            dots == i <==> forall|j: int| 0 <= j < i ==> id@[j] == '.',
        decreases len - i,
    {
        let c: char = id.get_char(i);
        if c == '/' || c == '\0' {
            return false;
        }
        if c == '.' && dots == i {
            dots = dots + 1;
        }
        i = i + 1;
    }
    !(dots == len && len <= 2)
}

impl Restrict {
    /// A request with no limits, no shell and no command, for the group
    /// `restrict`, that is silent.
    pub fn new() -> (r: Restrict)
        ensures
            r@ == (RestrictView {
                debug: false,
                memory_limit: None,
                cpu_shares: None,
                shell: Seq::<char>::empty(),
                command: Seq::<char>::empty(),
                cgroup_path: "restrict"@,
            }),
    {
        Restrict {
            debug: false,
            memory_limit: None,
            cpu_shares: None,
            shell: String::new(),
            command: String::new(),
            cgroup_path: String::from_str("restrict"),
        }
    }

    /// The same request with `shell` as its interpreter.
    pub fn with_shell(self, shell: String) -> (r: Restrict)
        ensures
            r@ == (RestrictView { shell: shell@, ..self@ }),
    {
        let mut r = self;
        r.shell = shell;
        r
    }

    /// The same request with `command` as its command line.
    pub fn with_command(self, command: String) -> (r: Restrict)
        ensures
            r@ == (RestrictView { command: command@, ..self@ }),
    {
        let mut r = self;
        r.command = command;
        r
    }

    /// The same request, with status lines wanted or not.
    pub fn with_debug(self, debug: bool) -> (r: Restrict)
        ensures
            r@ == (RestrictView { debug, ..self@ }),
    {
        let mut r = self;
        r.debug = debug;
        r
    }

    /// The same request with `memory_limit` bytes as its ceiling, or with
    /// none.
    pub fn with_memory_limit(self, memory_limit: Option<u64>) -> (r: Restrict)
        ensures
            r@ == (RestrictView { memory_limit, ..self@ }),
    {
        let mut r = self;
        r.memory_limit = memory_limit;
        r
    }

    /// The same request with `cpu_shares` as its CPU weight, or with none.
    pub fn with_cpu_limit(self, cpu_shares: Option<u64>) -> (r: Restrict)
        ensures
            r@ == (RestrictView { cpu_shares, ..self@ }),
    {
        let mut r = self;
        r.cpu_shares = cpu_shares;
        r
    }

    /// The same request for the control group `cgroup_path`.
    pub fn with_cgroup_path(self, cgroup_path: String) -> (r: Restrict)
        ensures
            r@ == (RestrictView { cgroup_path: cgroup_path@, ..self@ }),
    {
        let mut r = self;
        r.cgroup_path = cgroup_path;
        r
    }

    /// Whether status lines are wanted.
    pub fn debug(&self) -> (debug: bool)
        ensures
            debug == self@.debug,
    {
        self.debug
    }

    /// The memory ceiling in bytes.
    pub fn memory_limit(&self) -> (limit: Option<u64>)
        ensures
            limit == self@.memory_limit,
    {
        self.memory_limit
    }

    /// The CPU weight.
    pub fn cpu_shares(&self) -> (shares: Option<u64>)
        ensures
            shares == self@.cpu_shares,
    {
        self.cpu_shares
    }

    /// The interpreter.
    pub fn shell(&self) -> (shell: &str)
        ensures
            shell@ == self@.shell,
    {
        self.shell.as_str()
    }

    /// The command line.
    pub fn command(&self) -> (command: &str)
        ensures
            command@ == self@.command,
    {
        self.command.as_str()
    }

    /// The control group's name.
    pub fn cgroup_path(&self) -> (path: &str)
        ensures
            path@ == self@.cgroup_path,
    {
        self.cgroup_path.as_str()
    }

    /// The arguments the interpreter is started with: `-c`, which makes it
    /// read a command line, and the command line itself, in one piece and
    /// as it was given.
    pub fn shell_arguments(&self) -> (arguments: Vec<String>)
        ensures
            arguments@.len() == 2,
            arguments@[0]@ == "-c"@,
            arguments@[1]@ == self@.command,
    {
        let mut arguments: Vec<String> = Vec::new();
        arguments.push(String::from_str("-c"));
        arguments.push(self.command.clone());
        arguments
    }

    /// Finds what [`RestrictView::defect`] names, if anything.
    pub fn check(&self) -> (checked: Result<(), ConfigError>)
        ensures
            checked is Ok <==> self@.valid(),
            checked matches Err(e) ==> self@.defect() == Some(e),
    {
        if self.shell.as_str().unicode_len() == 0 {
            return Err(ConfigError::EmptyShell);
        }
        if self.command.as_str().unicode_len() == 0 {
            return Err(ConfigError::EmptyCommand);
        }
        if !is_valid_scope_id(self.cgroup_path.as_str()) {
            return Err(ConfigError::InvalidScope);
        }
        match self.memory_limit {
            Some(ceiling) => {
                if ceiling > crate::limits::MEMORY_CEILING_MAX {
                    return Err(ConfigError::MemoryTooLarge);
                }
            },
            None => {},
        }
        Ok(())
    }
}

impl Default for Restrict {
    /// The request that [`Restrict::new`] gives.
    fn default() -> (r: Restrict)
        ensures
            r@ == (RestrictView {
                debug: false,
                memory_limit: None,
                cpu_shares: None,
                shell: Seq::<char>::empty(),
                command: Seq::<char>::empty(),
                cgroup_path: "restrict"@,
            }),
    {
        Restrict::new()
    }
}

} // verus!

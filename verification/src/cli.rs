//! From the words of a command line to a request.

use crate::limits::{ceiling_fits, MEMORY_CEILING_MAX};
use crate::restrict::{is_valid_scope_id, valid_scope_id, Restrict, RestrictView};
use crate::size::{byte_size_of, parse_byte_size};
use crate::text::{
    decimal_text, is_digit, lemma_decimal_text_is_digits, lemma_decimal_text_is_one_to_one,
    parse_u64, push_decimal, unsigned_value,
};
use vstd::prelude::*;
use vstd::string::*;

verus! {

/// What was given on the command line, and what the process knows of
/// itself.
#[derive(Clone, Debug)]
pub struct CliInput {
    /// The shell that was asked for.
    pub shell: Option<String>,
    /// The shell that the environment names.
    pub env_shell: Option<String>,
    /// The command line to run.
    pub command: Option<String>,
    /// Whether status lines were asked for.
    pub debug: bool,
    /// The memory ceiling, as it was written.
    pub memory: Option<String>,
    /// The CPU weight, as it was written.
    pub cpu: Option<String>,
    /// The control group that was asked for.
    pub group: Option<String>,
    /// The id of this process.
    pub pid: u32,
}

/// A [`CliInput`] as plain values.
pub struct CliInputView {
    pub shell: Option<Seq<char>>,
    pub env_shell: Option<Seq<char>>,
    pub command: Option<Seq<char>>,
    pub debug: bool,
    pub memory: Option<Seq<char>>,
    pub cpu: Option<Seq<char>>,
    pub group: Option<Seq<char>>,
    pub pid: u32,
}

/// The text of `word`, if there is one.
pub open spec fn text_of(word: Option<String>) -> Option<Seq<char>> {
    match word {
        Some(s) => Some(s@),
        None => None,
    }
}

impl View for CliInput {
    type V = CliInputView;

    open spec fn view(&self) -> CliInputView {
        CliInputView {
            shell: text_of(self.shell),
            env_shell: text_of(self.env_shell),
            command: text_of(self.command),
            debug: self.debug,
            memory: text_of(self.memory),
            cpu: text_of(self.cpu),
            group: text_of(self.group),
            pid: self.pid,
        }
    }
}

/// Why a command line gives no request.
#[derive(Clone, Copy, Debug, PartialEq, Eq, Structural)]
pub enum CliError {
    /// No shell was asked for and the environment names none, or the shell
    /// to use is the empty text.
    MissingShell,
    /// There is no command, or it is the empty text.
    MissingCommand,
    /// The memory ceiling is not a size, or it is more than the backend can
    /// hold.
    InvalidMemory,
    /// The CPU weight is not an unsigned number.
    InvalidCpu,
    /// The group that was asked for is not a single path segment.
    InvalidGroup,
}

/// The name of the group of the process `pid`, where none was asked for:
/// `restrict-` and the id. Processes that run at one time so get groups of
/// their own.
pub open spec fn default_scope(pid: u32) -> Seq<char> {
    "restrict-"@ + decimal_text(pid as nat)
}

/// How the memory argument reads: nothing where none was given, else what
/// [`byte_size_of`] makes of it.
pub open spec fn memory_reading(memory: Option<Seq<char>>) -> Option<Option<u64>> {
    match memory {
        Some(text) => Some(byte_size_of(text)),
        None => None,
    }
}

/// The shell that `input` settles on: the one asked for, else that of the
/// environment.
pub open spec fn chosen_shell(input: CliInputView) -> Option<Seq<char>> {
    if input.shell is Some {
        input.shell
    } else {
        input.env_shell
    }
}

/// The request that `input` asks for, where the memory argument reads as
/// `memory`: `None` where none was given, `Some(None)` where what was given
/// is no size.
///
/// The shell is [`chosen_shell`]. The CPU weight is read by
/// [`unsigned_value`]. The group is the one asked for, else
/// [`default_scope`]. A request is given only where it is a valid one: what
/// is missing, empty, unreadable or out of bounds is an error, found in the
/// order shell, command, memory, CPU, group.
pub open spec fn request_of(input: CliInputView, memory: Option<Option<u64>>) -> Result<
    RestrictView,
    CliError,
> {
    let shell = chosen_shell(input);
    if shell is None || shell.unwrap().len() == 0 {
        Err(CliError::MissingShell)
    } else if input.command is None || input.command.unwrap().len() == 0 {
        Err(CliError::MissingCommand)
    } else if memory is Some && (memory.unwrap() is None || !ceiling_fits(
        memory.unwrap().unwrap(),
    )) {
        Err(CliError::InvalidMemory)
    } else if input.cpu is Some && unsigned_value(input.cpu.unwrap()) is None {
        Err(CliError::InvalidCpu)
    } else if input.group is Some && !valid_scope_id(input.group.unwrap()) {
        Err(CliError::InvalidGroup)
    } else {
        Ok(
            RestrictView {
                debug: input.debug,
                memory_limit: match memory {
                    Some(bytes) => bytes,
                    None => None,
                },
                cpu_shares: match input.cpu {
                    Some(text) => unsigned_value(text),
                    None => None,
                },
                shell: shell.unwrap(),
                command: input.command.unwrap(),
                cgroup_path: match input.group {
                    Some(name) => name,
                    None => default_scope(input.pid),
                },
            },
        )
    }
}

/// Every request that a command line gives is a valid one: its shell and
/// its command are not empty, its group is a single path segment, and the
/// backend can hold its memory ceiling.
pub proof fn lemma_request_of_is_valid(input: CliInputView, memory: Option<Option<u64>>)
    ensures
        request_of(input, memory) matches Ok(r) ==> {
            &&& r.valid()
            &&& r.shell.len() > 0
            &&& r.command.len() > 0
        },
{
    lemma_default_scope_is_valid(input.pid);
}

/// Writes [`default_scope`].
pub fn default_scope_name(pid: u32) -> (name: String)
    ensures
        name@ == default_scope(pid),
        valid_scope_id(name@),
{
    let mut name: String = String::from_str("restrict-");
    push_decimal(&mut name, pid);
    proof {
        lemma_default_scope_is_valid(pid);
    }
    name
}

/// The name that a process gets for its group is a valid one.
pub proof fn lemma_default_scope_is_valid(pid: u32)
    ensures
        valid_scope_id(default_scope(pid)),
{
    reveal_strlit("restrict-");
    lemma_decimal_text_is_digits(pid as nat);
    let head = "restrict-"@;
    let digits = decimal_text(pid as nat);
    let name = default_scope(pid);
    assert(head.len() == 9);
    assert(name.len() == 9 + digits.len());
    assert forall|i: int| 0 <= i < name.len() implies name[i] != '/' && name[i] != '\0' by {
        if i < 9 {
            assert(name[i] == head[i]);
        } else {
            assert(name[i] == digits[i - 9]);
            assert(is_digit(digits[i - 9]));
        }
    }
}

/// Two processes never get the same name for their groups: the name tells
/// the process id.
pub proof fn lemma_default_scope_is_one_to_one(p: u32, q: u32)
    ensures
        default_scope(p) == default_scope(q) ==> p == q,
{
    if default_scope(p) == default_scope(q) {
        reveal_strlit("restrict-");
        let head = "restrict-"@;
        let a = decimal_text(p as nat);
        let b = decimal_text(q as nat);
        assert((head + a).subrange(9, (head + a).len() as int) =~= a);
        assert((head + b).subrange(9, (head + b).len() as int) =~= b);
        lemma_decimal_text_is_one_to_one(p as nat, q as nat);
    }
}

/// Computes [`request_of`] from `input` and the reading of its memory
/// argument. The memory argument of `input` itself is not looked at.
pub fn request_from_parts(input: CliInput, memory: Option<Option<u64>>) -> (request: Result<
    Restrict,
    CliError,
>)
    ensures
        request matches Ok(r) ==> request_of(input@, memory) == Ok::<RestrictView, CliError>(r@),
        request matches Err(e) ==> request_of(input@, memory) == Err::<RestrictView, CliError>(e),
        request matches Ok(r) ==> r@.valid() && r@.shell.len() > 0 && r@.command.len() > 0,
{
    proof {
        lemma_request_of_is_valid(input@, memory);
    }
    let CliInput { shell, env_shell, command, debug, memory: _, cpu, group, pid } = input;
    let shell: String = match shell {
        Some(asked) => asked,
        None => match env_shell {
            Some(named) => named,
            None => {
                return Err(CliError::MissingShell);
            },
        },
    };
    if shell.as_str().is_empty() {
        return Err(CliError::MissingShell);
    }
    let command: String = match command {
        Some(command) => command,
        None => {
            return Err(CliError::MissingCommand);
        },
    };
    if command.as_str().is_empty() {
        return Err(CliError::MissingCommand);
    }
    let memory_limit: Option<u64> = match memory {
        Some(Some(bytes)) => {
            if bytes > MEMORY_CEILING_MAX {
                return Err(CliError::InvalidMemory);
            }
            Some(bytes)
        },
        Some(None) => {
            return Err(CliError::InvalidMemory);
        },
        None => None,
    };
    let cpu_shares: Option<u64> = match cpu {
        Some(text) => match parse_u64(text.as_str()) {
            Some(weight) => Some(weight),
            None => {
                return Err(CliError::InvalidCpu);
            },
        },
        None => None,
    };
    let cgroup_path: String = match group {
        Some(name) => {
            if !is_valid_scope_id(name.as_str()) {
                return Err(CliError::InvalidGroup);
            }
            name
        },
        None => default_scope_name(pid),
    };
    Ok(
        Restrict::new().with_shell(shell).with_command(command).with_debug(debug).with_memory_limit(
            memory_limit,
        ).with_cpu_limit(cpu_shares).with_cgroup_path(cgroup_path),
    )
}

/// The request that a command line asks for: [`request_of`], with the
/// memory argument read as the `bytesize` crate reads sizes. A request that
/// comes back is a valid one.
pub fn restrict_from_cli(input: CliInput) -> (request: Result<Restrict, CliError>)
    ensures
        request matches Ok(r) ==> request_of(input@, memory_reading(input@.memory)) == Ok::<
            RestrictView,
            CliError,
        >(r@),
        request matches Err(e) ==> request_of(input@, memory_reading(input@.memory)) == Err::<
            RestrictView,
            CliError,
        >(e),
        request matches Ok(r) ==> r@.valid() && r@.shell.len() > 0 && r@.command.len() > 0,
{
    let memory: Option<Option<u64>> = match &input.memory {
        Some(text) => Some(parse_byte_size(text.as_str())),
        None => None,
    };
    request_from_parts(input, memory)
}

} // verus!

//! How a run ends, and the exit status that follows from it.

use vstd::prelude::*;

verus! {

/// How the child process ended.
#[derive(Clone, Copy, Debug, PartialEq, Eq, Structural)]
pub enum ExitOutcome {
    /// The child exited on its own with this status code.
    Exited(i32),
    /// The child was terminated by a signal. It has no status code, and none
    /// is made up for it.
    Signaled,
}

/// The resource a limit is set on.
#[derive(Clone, Copy, Debug, PartialEq, Eq, Structural)]
pub enum Resource {
    Memory,
    Cpu,
}

/// What stops a run before the child has ended on its own account.
#[derive(Clone, Copy, Debug, PartialEq, Eq, Structural)]
pub enum RunError {
    /// The host does not offer the unified control-group interface.
    BackendUnavailable,
    /// The control group could not be created.
    CreateFailed,
    /// The backend refused the limit on this resource.
    LimitRejected(Resource),
    /// The child could not be started.
    SpawnFailed,
    /// Waiting for the child failed.
    WaitFailed,
}

/// The exit status of a run that ended in a [`RunError`].
///
/// It lies outside `0..=255`, the range of a child's own status codes, and
/// its low byte is not zero, so a system that keeps only that byte still
/// reports a failure.
pub const FATAL_EXIT_CODE: i32 = -1;

/// The least and greatest status code a child can exit with.
pub const CHILD_CODE_MIN: i32 = 0;

pub const CHILD_CODE_MAX: i32 = 255;

/// The exit status that a finished run hands to its caller: the child's own
/// code where it exited, [`FATAL_EXIT_CODE`] where the run failed, and none
/// where a signal ended the child.
pub open spec fn status_of(result: Result<ExitOutcome, RunError>) -> Option<i32> {
    match result {
        Ok(ExitOutcome::Exited(code)) => Some(code),
        Ok(ExitOutcome::Signaled) => None,
        Err(_) => Some(FATAL_EXIT_CODE),
    }
}

impl ExitOutcome {
    /// The outcome of a child whose wait returned `code`: the status code if
    /// it has one, a termination by signal if it has none.
    pub fn from_code(code: Option<i32>) -> (outcome: ExitOutcome)
        ensures
            outcome == match code {
                Some(n) => ExitOutcome::Exited(n),
                None => ExitOutcome::Signaled,
            },
    {
        match code {
            Some(n) => ExitOutcome::Exited(n),
            None => ExitOutcome::Signaled,
        }
    }

    /// The child's status code, if it exited with one.
    pub fn code(&self) -> (code: Option<i32>)
        ensures
            code == status_of(Ok(*self)),
    {
        match self {
            ExitOutcome::Exited(n) => Some(*n),
            ExitOutcome::Signaled => None,
        }
    }

    /// Whether the child exited with status code zero.
    pub fn success(&self) -> (yes: bool)
        ensures
            yes == (*self == ExitOutcome::Exited(0)),
    {
        match self {
            ExitOutcome::Exited(n) => *n == 0,
            ExitOutcome::Signaled => false,
        }
    }
}

/// Computes [`status_of`].
pub fn exit_status(result: Result<ExitOutcome, RunError>) -> (status: Option<i32>)
    ensures
        status == status_of(result),
{
    match result {
        Ok(outcome) => outcome.code(),
        Err(_) => Some(FATAL_EXIT_CODE),
    }
}

/// A child's status code comes back unchanged, and is never mistaken for a
/// failed run: every code in `0..=255` differs from [`FATAL_EXIT_CODE`].
pub proof fn lemma_child_code_is_kept(code: i32, error: RunError)
    requires
        CHILD_CODE_MIN <= code <= CHILD_CODE_MAX,
    ensures
        status_of(Ok(ExitOutcome::Exited(code))) == Some(code),
        status_of(Ok(ExitOutcome::Exited(code))) != status_of(Err(error)),
{
}

/// A child that a signal ended has no exit status: neither some child's
/// code nor that of a failed run stands in for it.
pub proof fn lemma_signal_is_told_apart(code: i32, error: RunError)
    ensures
        status_of(Ok(ExitOutcome::Signaled)) is None,
        status_of(Ok(ExitOutcome::Signaled)) != status_of(Ok(ExitOutcome::Exited(code))),
        status_of(Ok(ExitOutcome::Signaled)) != status_of(Err(error)),
        ExitOutcome::Signaled != ExitOutcome::Exited(code),
{
}

/// A failed run never exits with zero, not even after a system has cut its
/// status down to one byte.
pub proof fn lemma_failure_is_nonzero(error: RunError)
    ensures
        status_of(Err(error)) == Some(FATAL_EXIT_CODE),
        FATAL_EXIT_CODE != 0,
        FATAL_EXIT_CODE & 0xff != 0,
{
    assert(-1i32 & 0xff != 0) by (bit_vector);
}

} // verus!

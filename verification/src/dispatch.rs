//! From the predicate's result to what is done: whether the wrapped command
//! runs, with which arguments, and the exit code in which it all ends.

use crate::predicate::PredicateParseError;
use vstd::prelude::*;

verus! {

/// The exit code after a command that was skipped.
pub const EXIT_SKIPPED: i32 = 0;

/// The exit code after a usage error or a predicate that cannot be judged.
pub const EXIT_USAGE: i32 = 1;

/// The exit code where the wrapped command could not be started or ended
/// without a status.
pub const EXIT_DISPATCH_FAILURE: i32 = 127;

/// The two ways of reading a predicate.
#[derive(Clone, Copy, Debug, PartialEq, Eq, Structural)]
pub enum Mode {
    /// Run the command when the predicate holds.
    When,
    /// Run the command unless the predicate holds.
    Unless,
}

impl Mode {
    /// Whether the command runs in this mode, given whether the predicate
    /// holds.
    pub open spec fn runs(self, matched: bool) -> bool {
        match self {
            Mode::When => matched,
            Mode::Unless => !matched,
        }
    }

    /// Whether the command is to run, given whether the predicate holds.
    pub fn dispatches(self, matched: bool) -> (r: bool)
        ensures
            r == self.runs(matched),
    {
        match self {
            Mode::When => matched,
            Mode::Unless => !matched,
        }
    }
}

/// What is to be done once the predicate has been judged.
#[derive(Debug, PartialEq)]
pub enum Decision<T> {
    /// The predicate cannot be judged: report the error and the usage.
    Reject(PredicateParseError),
    /// Do not run the command.
    Skip,
    /// Run the command with these arguments.
    Run(Vec<T>),
}

/// What is done with `command` in the given mode: nothing but a report where
/// the predicate could not be judged; else the command runs or not, as the
/// mode has it.
pub open spec fn decided<T>(
    mode: Mode,
    verdict: Result<bool, PredicateParseError>,
    command: Vec<T>,
) -> Decision<T> {
    match verdict {
        Err(e) => Decision::Reject(e),
        Ok(matched) => if mode.runs(matched) {
            Decision::Run(command)
        } else {
            Decision::Skip
        },
    }
}

/// Decides what to do with `command` in the given mode, from the result of
/// the predicate. The arguments are handed on as they are.
pub fn decide<T>(mode: Mode, verdict: Result<bool, PredicateParseError>, command: Vec<T>) -> (r:
    Decision<T>)
    ensures
        r == decided(mode, verdict, command),
{
    match verdict {
        Err(e) => Decision::Reject(e),
        Ok(matched) => if mode.dispatches(matched) {
            Decision::Run(command)
        } else {
            Decision::Skip
        },
    }
}

/// On the same result of the predicate, `Unless` runs the command exactly
/// when `When` does not.
pub proof fn lemma_unless_negates_when(matched: bool)
    ensures
        Mode::Unless.runs(matched) == !Mode::When.runs(matched),
{
}

/// On the same judged predicate and the same command, one of the two modes
/// runs the command and the other skips it; a predicate that could not be
/// judged is rejected in both.
pub proof fn lemma_modes_are_complements<T>(
    verdict: Result<bool, PredicateParseError>,
    command: Vec<T>,
)
    ensures
        verdict is Ok ==> (decided(Mode::When, verdict, command) == Decision::Run(command)
            <==> decided(Mode::Unless, verdict, command) == Decision::<T>::Skip),
        verdict is Ok ==> (decided(Mode::When, verdict, command) == Decision::<T>::Skip
            <==> decided(Mode::Unless, verdict, command) == Decision::Run(command)),
        verdict matches Err(e) ==> decided(Mode::When, verdict, command) == Decision::<
            T,
        >::Reject(e) && decided(Mode::Unless, verdict, command) == Decision::<T>::Reject(e),
{
}

/// The wrapped command and its arguments: the command's name `external`,
/// followed by the arguments `values` where there are any. Without a name
/// there is no command, which is a usage error.
pub fn get_cargo_command<T>(external: Option<T>, values: Option<Vec<T>>) -> (r: Option<Vec<T>>)
    ensures
        external is None <==> r is None,
        external matches Some(name) ==> r.unwrap()@ == seq![name] + match values {
            Some(rest) => rest@,
            None => Seq::empty(),
        },
{
    match external {
        Some(name) => {
            let mut command: Vec<T> = match values {
                Some(rest) => rest,
                None => Vec::new(),
            };
            command.insert(0, name);
            Some(command)
        },
        None => None,
    }
}

/// How an invocation ends.
#[derive(Clone, Copy, Debug, PartialEq, Eq, Structural)]
pub enum Ending {
    /// No wrapped command was given.
    UsageError,
    /// The predicate could not be judged.
    PredicateError,
    /// The command was not to run.
    Skipped,
    /// The command ran and ended with this exit code.
    Exited(i32),
    /// The command ran and ended without an exit code.
    NoStatus,
    /// The command could not be started.
    SpawnFailed,
}

/// The exit code in which an invocation ends: that of the wrapped command
/// where it gave one.
pub fn exit_code(ending: Ending) -> (code: i32)
    ensures
        code == match ending {
            Ending::UsageError => EXIT_USAGE,
            Ending::PredicateError => EXIT_USAGE,
            Ending::Skipped => EXIT_SKIPPED,
            Ending::Exited(own) => own,
            Ending::NoStatus => EXIT_DISPATCH_FAILURE,
            Ending::SpawnFailed => EXIT_DISPATCH_FAILURE,
        },
{
    match ending {
        Ending::UsageError => EXIT_USAGE,
        Ending::PredicateError => EXIT_USAGE,
        Ending::Skipped => EXIT_SKIPPED,
        Ending::Exited(own) => own,
        Ending::NoStatus => EXIT_DISPATCH_FAILURE,
        Ending::SpawnFailed => EXIT_DISPATCH_FAILURE,
    }
}

} // verus!

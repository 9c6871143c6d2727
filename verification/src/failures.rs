//! Why a collector could not do what it was asked to.

use vstd::prelude::*;

verus! {

/// What a failure is about.
#[derive(Clone, Copy, Debug, PartialEq, Eq, Structural)]
pub enum FailureKind {
    /// The library cannot be put into the target.
    InjectFailed,
    /// Something that the collector needs is missing.
    CuptiPluginError,
    /// A collection window cannot be started.
    TriggerCollectorError,
    /// Something that was tried failed; the cause says how.
    Context,
}

/// A failure.
#[derive(Debug)]
pub struct Failure {
    pub kind: FailureKind,
    pub message: String,
    /// The error that led to it, where there is one.
    pub cause: Option<String>,
}

/// What a [`Failure`] says.
pub struct Fault {
    pub kind: FailureKind,
    pub message: Seq<char>,
    pub cause: Option<Seq<char>>,
}

impl View for Failure {
    type V = Fault;

    open spec fn view(&self) -> Fault {
        Fault {
            kind: self.kind,
            message: self.message@,
            cause: match self.cause {
                Some(cause) => Some(cause@),
                None => None,
            },
        }
    }
}

/// A failure of a kind, with no error behind it.
pub open spec fn fault(kind: FailureKind, message: Seq<char>) -> Fault {
    Fault { kind, message, cause: None }
}

/// A failure that an error led to.
pub open spec fn fault_from(message: Seq<char>, cause: Seq<char>) -> Fault {
    Fault { kind: FailureKind::Context, message, cause: Some(cause) }
}

/// What an outcome without a value says.
pub open spec fn outcome(r: Result<(), Failure>) -> Result<(), Fault> {
    match r {
        Ok(_) => Ok(()),
        Err(failure) => Err(failure@),
    }
}

/// A failure says what it is about, in which words, and what led to it.
pub proof fn law_failures_say_what_they_hold(
    failure: Failure,
    kind: FailureKind,
    message: Seq<char>,
    cause: Seq<char>,
)
    ensures
        failure@.kind == failure.kind,
        failure@.message == failure.message@,
        failure@.cause is Some <==> failure.cause is Some,
        failure.cause is Some ==> failure@.cause->0 == failure.cause->0@,
        fault(kind, message).kind == kind,
        fault(kind, message).message == message,
        fault(kind, message).cause is None,
        fault_from(message, cause).kind is Context,
        fault_from(message, cause).message == message,
        fault_from(message, cause).cause == Some(cause),
        outcome(Ok(())) is Ok,
        outcome(Err(failure)) == Err::<(), Fault>(failure@),
{
}

impl Failure {
    /// A failure of a kind, with no error behind it.
    pub fn of(kind: FailureKind, message: String) -> (r: Failure)
        ensures
            r@ == fault(kind, message@),
    {
        Failure { kind, message, cause: None }
    }

    /// A failure that an error led to.
    pub fn from_error(message: String, cause: String) -> (r: Failure)
        ensures
            r@ == fault_from(message@, cause@),
    {
        Failure { kind: FailureKind::Context, message, cause: Some(cause) }
    }
}

} // verus!

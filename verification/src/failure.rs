//! Errors that carry their cause.

use vstd::prelude::*;

use crate::text;

verus! {

/// What went wrong, and what made it go wrong.
#[derive(Debug)]
pub struct Failure {
    pub message: String,
    pub cause: Option<String>,
}

/// A failure as characters.
pub struct FailureView {
    pub message: Seq<char>,
    pub cause: Option<Seq<char>>,
}

impl View for Failure {
    type V = FailureView;

    open spec fn view(&self) -> FailureView {
        FailureView { message: self.message@, cause: text::opt_text(self.cause) }
    }
}

/// A failure without a cause.
pub open spec fn plain(message: Seq<char>) -> FailureView {
    FailureView { message, cause: None }
}

/// A failure with its cause.
pub open spec fn caused(message: Seq<char>, cause: Seq<char>) -> FailureView {
    FailureView { message, cause: Some(cause) }
}

/// Whether an outcome is the expected one, failures compared by their characters.
pub open spec fn agrees<T>(outcome: Result<T, Failure>, expected: Result<T, FailureView>) -> bool {
    match (outcome, expected) {
        (Ok(value), Ok(wanted)) => value == wanted,
        (Err(failure), Err(wanted)) => failure@ == wanted,
        _ => false,
    }
}

/// Whether an outcome is a refusal exactly when one is expected, with its text.
pub open spec fn refuses<T>(outcome: Result<T, Failure>, expected: Option<FailureView>) -> bool {
    match expected {
        Some(wanted) => outcome matches Err(failure) && failure@ == wanted,
        None => outcome is Ok,
    }
}

impl Failure {
    /// A failure without a cause.
    pub fn new(message: String) -> (failure: Failure)
        ensures
            failure@ == plain(message@),
    {
        Failure { message, cause: None }
    }

    /// A failure with its cause.
    pub fn with_cause(message: String, cause: &str) -> (failure: Failure)
        ensures
            failure@ == caused(message@, cause@),
    {
        Failure { message, cause: Some(cause.to_owned()) }
    }

    /// The message and its cause in one line.
    pub fn full(&self) -> (line: String)
        ensures
            line@ == (match self.cause {
                Some(cause) => self.message@ + ": "@ + cause@,
                None => self.message@,
            }),
    {
        match &self.cause {
            Some(cause) => text::cat3(self.message.as_str(), ": ", cause.as_str()),
            None => self.message.clone(),
        }
    }
}

/// A failure is told by its message and its cause, both in full: one without a cause has
/// none, and one with a cause keeps it.
pub proof fn failures_keep_message_and_cause(f: Failure, message: Seq<char>, cause: Seq<char>)
    ensures
        f@.message == f.message@,
        f.cause is None <==> f@.cause is None,
        f.cause matches Some(c) ==> f@.cause == Some(c@),
        plain(message).message == message,
        plain(message).cause is None,
        caused(message, cause).message == message,
        caused(message, cause).cause == Some(cause),
{
}

/// An outcome that agrees with another succeeds exactly where the other does, with the same
/// value, and otherwise fails for the same reason; one that is refused as expected fails
/// exactly where a refusal is expected, for that reason.
pub proof fn agreement_is_of_value_and_reason<T>(
    outcome: Result<T, Failure>,
    expected: Result<T, FailureView>,
    refusal: Option<FailureView>,
)
    ensures
        agrees(outcome, expected) <==> {
            &&& outcome is Ok <==> expected is Ok
            &&& outcome is Ok ==> outcome->Ok_0 == expected->Ok_0
            &&& outcome is Err ==> outcome->Err_0@ == expected->Err_0
        },
        refuses(outcome, refusal) <==> {
            &&& outcome is Err <==> refusal is Some
            &&& outcome is Err ==> outcome->Err_0@ == refusal->0
        },
{
}

} // verus!

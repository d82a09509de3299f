//! Why the driver stops.
use vstd::prelude::*;

verus! {

/// What kind of thing went wrong.
#[derive(Debug, PartialEq, Eq, Clone, Copy)]
pub enum ErrorKind {
    InvalidData,
    UnexpectedEof,
    TimedOut,
}

/// Why the driver stops, for its user.
#[derive(Debug, PartialEq, Eq)]
pub struct DriverError {
    pub kind: ErrorKind,
    pub message: String,
}

/// The content of a `DriverError`.
pub struct FaultModel {
    pub kind: ErrorKind,
    pub message: Seq<char>,
}

impl View for DriverError {
    type V = FaultModel;

    open spec fn view(&self) -> FaultModel {
        FaultModel { kind: self.kind, message: self.message@ }
    }
}

/// Data that cannot be gone on with.
pub open spec fn invalid_data(message: Seq<char>) -> FaultModel {
    FaultModel { kind: ErrorKind::InvalidData, message }
}

/// An error about data that cannot be gone on with.
pub fn invalid(message: &str) -> (error: DriverError)
    ensures
        error@ == invalid_data(message@),
{
    DriverError { kind: ErrorKind::InvalidData, message: message.to_string() }
}

/// Such an error whose message has two parts.
pub fn invalid_about(message: &str, what: &str) -> (error: DriverError)
    ensures
        error@ == invalid_data(message@ + what@),
{
    let mut text = message.to_string();
    text.push_str(what);
    DriverError { kind: ErrorKind::InvalidData, message: text }
}

/// An error stands for its kind and its message, and data that cannot be gone on with is of one kind.
pub proof fn law_errors_stand_for_what_they_say(error: DriverError, message: Seq<char>)
    ensures
        error@.kind == error.kind && error@.message == error.message@,
        invalid_data(message).kind == ErrorKind::InvalidData && invalid_data(message).message
            == message,
{
}

} // verus!

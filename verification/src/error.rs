//! The redacted error carried across the control-plane boundary.

use vstd::prelude::*;
use vstd::string::*;

verus! {

/// The error of a verified core operation.
pub type CoreResult<T> = Result<T, CoreError>;

#[verifier::external_type_specification]
#[verifier::external_body]
pub struct ExIoError(std::io::Error);

/// A stable, redacted error returned across the control-plane boundary.
#[derive(Debug)]
pub struct CoreError {
    pub code: &'static str,
    pub message: String,
}

impl CoreError {
    pub fn new(code: &'static str, message: &str) -> (e: CoreError)
        ensures
            e.code == code,
            e.message@ == message@,
    {
        CoreError { code, message: message.to_owned() }
    }

    /// A failed durable storage operation; the cause is never disclosed.
    pub fn storage<T>(_cause: T) -> (e: CoreError)
        ensures
            e.code@ == "STORAGE_FAILURE"@,
            e.message@ == "a durable storage operation failed"@,
    {
        CoreError::new("STORAGE_FAILURE", "a durable storage operation failed")
    }

    /// A failed filesystem operation; the cause is never disclosed.
    pub fn io(_cause: std::io::Error) -> (e: CoreError)
        ensures
            e.code@ == "STORAGE_FAILURE"@,
            e.message@ == "a controlled filesystem operation failed"@,
    {
        CoreError::new("STORAGE_FAILURE", "a controlled filesystem operation failed")
    }

    /// The code and message as one line, `code: message`.
    pub fn describe(&self) -> (s: String)
        ensures
            s@ == self.code@ + ": "@ + self.message@,
    {
        let mut s = String::from_str(self.code);
        s.append(": ");
        s.append(self.message.as_str());
        s
    }
}

/// An error with the given code, whatever its message.
pub open spec fn has_code(e: CoreError, code: &str) -> bool {
    e.code@ == code@
}

} // verus!

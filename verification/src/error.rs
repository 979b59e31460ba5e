//! The error type shared by every operation of the store.
use vstd::prelude::*;
use vstd::string::StringExecFns;
use crate::text::{extend_str, string_of};

verus! {

/// An operation failure: a human-readable message and a stable machine code.
///
/// The codes in use are `IO_ERROR`, `NOT_FOUND`, `PARSE_ERROR` and
/// `VALIDATION_ERROR`.
#[derive(Debug, Clone, PartialEq, Eq)]
pub struct AppError {
    pub message: String,
    pub code: String,
}

impl AppError {
    pub fn new(message: &str, code: &str) -> (r: AppError)
        ensures
            r.message@ == message@,
            r.code@ == code@,
    {
        AppError { message: String::from_str(message), code: String::from_str(code) }
    }

    pub fn io_error(message: &str) -> (r: AppError)
        ensures
            r.message@ == message@,
            r.code@ == "IO_ERROR"@,
    {
        Self::new(message, "IO_ERROR")
    }

    pub fn not_found(message: &str) -> (r: AppError)
        ensures
            r.message@ == message@,
            r.code@ == "NOT_FOUND"@,
    {
        Self::new(message, "NOT_FOUND")
    }

    pub fn parse_error(message: &str) -> (r: AppError)
        ensures
            r.message@ == message@,
            r.code@ == "PARSE_ERROR"@,
    {
        Self::new(message, "PARSE_ERROR")
    }

    pub fn validation_error(message: &str) -> (r: AppError)
        ensures
            r.message@ == message@,
            r.code@ == "VALIDATION_ERROR"@,
    {
        Self::new(message, "VALIDATION_ERROR")
    }

    /// The error as one line of text: the code in brackets, then the message.
    pub fn describe(&self) -> (r: String)
        ensures
            r@ == seq!['['] + self.code@ + seq![']', ' '] + self.message@,
    {
        let mut out: Vec<char> = Vec::new();
        out.push('[');
        extend_str(&mut out, self.code.as_str());
        out.push(']');
        out.push(' ');
        extend_str(&mut out, self.message.as_str());
        proof {
            assert(out@ =~= seq!['['] + self.code@ + seq![']', ' '] + self.message@);
        }
        string_of(&out)
    }
}

} // verus!

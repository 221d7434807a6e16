use vstd::prelude::*;
use crate::util::{dec_text, push_radix};

verus! {

/// Why a lookup failed.
#[derive(Debug)]
pub enum OsintError {
    /// The source answered that it holds nothing for the query.
    NotFound,
    /// The source answered with an HTTP status other than success or 404.
    Status(u16),
    /// The request or the reading of the answer failed on the way.
    Transport(String),
    /// The answer was not the JSON that was expected.
    Decode(String),
    /// The query does not have the shape that the source needs.
    Invalid(String),
}

/// The message of an error, as its `Display` writes it.
pub open spec fn error_text(e: OsintError) -> Seq<char> {
    match e {
        OsintError::NotFound => "not found"@,
        OsintError::Status(code) => "http status "@ + dec_text(code as nat),
        OsintError::Transport(m) => "transport error: "@ + m@,
        OsintError::Decode(m) => "decode error: "@ + m@,
        OsintError::Invalid(m) => "invalid input: "@ + m@,
    }
}

impl OsintError {
    /// The message of the error.
    pub fn describe(&self) -> (s: String)
        ensures
            s@ == error_text(*self),
    {
        match self {
            OsintError::NotFound => String::from_str("not found"),
            OsintError::Status(code) => {
                let mut s = String::from_str("http status ");
                push_radix(&mut s, *code as u64, 10);
                s
            },
            OsintError::Transport(m) => {
                let mut s = String::from_str("transport error: ");
                s.append(m.as_str());
                s
            },
            OsintError::Decode(m) => {
                let mut s = String::from_str("decode error: ");
                s.append(m.as_str());
                s
            },
            OsintError::Invalid(m) => {
                let mut s = String::from_str("invalid input: ");
                s.append(m.as_str());
                s
            },
        }
    }
}

/// An `Invalid` error with the given message.
pub fn invalid(message: &str) -> (e: OsintError)
    ensures
        e matches OsintError::Invalid(m) && m@ == message@,
{
    OsintError::Invalid(String::from_str(message))
}

} // verus!

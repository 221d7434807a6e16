use vstd::prelude::*;
use crate::error::{error_text, OsintError};
use crate::order::Keyed;
use crate::sources::AnySource;
use serde_json::Value;

verus! {

/// A JSON value, carried through as the data of an answer.
#[verifier::external_type_specification]
#[verifier::external_body]
pub struct ExJsonValue(Value);

/// How a lookup ended.
#[derive(Clone, Copy, PartialEq, Eq, Debug, Structural)]
pub enum Status {
    /// The source answered with data.
    Success,
    /// The source holds nothing for the query.
    NotFound,
    /// The lookup failed.
    Error,
}

/// The answer of one source to one query, in the same shape for every source.
pub struct Outcome {
    pub source: String,
    pub kind: String,
    pub category: String,
    pub query: String,
    pub status: Status,
    pub data: Option<Value>,
    pub error: Option<String>,
    pub elapsed_ms: u128,
}

/// The status that an answer gives its outcome.
pub open spec fn status_of<T>(answer: Result<T, OsintError>) -> Status {
    match answer {
        Ok(_) => Status::Success,
        Err(OsintError::NotFound) => Status::NotFound,
        Err(_) => Status::Error,
    }
}

/// The outcome carries its status, data and error as its answer gives them: data only
/// on success, an error message only on an error other than not found.
pub open spec fn outcome_of(o: Outcome, answer: Result<Value, OsintError>) -> bool {
    &&& o.status == status_of(answer)
    &&& match answer {
        Ok(v) => o.data == Some(v) && o.error is None,
        Err(OsintError::NotFound) => o.data is None && o.error is None,
        Err(e) => o.data is None && (o.error matches Some(m) && m@ == error_text(e)),
    }
}

impl Outcome {
    /// The outcome of `source`'s answer to `query`, which took `elapsed_ms` milliseconds.
    pub fn new(source: &AnySource, query: &str, answer: Result<Value, OsintError>, elapsed_ms: u128) -> (o: Outcome)
        ensures
            o.source@ == source.spec_name(),
            o.kind@ == source.spec_kind(),
            o.category@ == source.spec_category(),
            o.query@ == query@,
            o.elapsed_ms == elapsed_ms,
            outcome_of(o, answer),
    {
        let (status, data, error) = match answer {
            Ok(value) => (Status::Success, Some(value), None),
            Err(OsintError::NotFound) => (Status::NotFound, None, None),
            Err(other) => (Status::Error, None, Some(other.describe())),
        };
        Outcome {
            source: String::from_str(source.name()),
            kind: String::from_str(source.kind()),
            category: String::from_str(source.category()),
            query: String::from_str(query),
            status,
            data,
            error,
            elapsed_ms,
        }
    }
}

/// Every outcome has the same shape, success or failure: data exactly on success, an error
/// message exactly on an error, neither when nothing was found.
pub proof fn lemma_outcome_envelope(o: Outcome, answer: Result<Value, OsintError>)
    requires
        outcome_of(o, answer),
    ensures
        (o.status == Status::Success) == (o.data is Some),
        (o.status == Status::Error) == (o.error is Some),
        o.status == Status::NotFound ==> o.data is None && o.error is None,
{
}

impl Keyed for Outcome {
    open spec fn key(&self) -> Seq<char> {
        self.source@
    }

    fn key_text(&self) -> (r: &str) {
        self.source.as_str()
    }
}

} // verus!

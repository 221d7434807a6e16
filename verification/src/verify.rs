use vstd::prelude::*;
use crate::error::{error_text, OsintError};
use crate::order::Keyed;
use crate::sources::AnySource;

verus! {

/// Whether a source is reachable, as its probe found it.
pub struct Health {
    pub source: String,
    pub category: String,
    pub kind: String,
    pub alive: bool,
    pub latency_ms: u128,
    pub requires_key: bool,
    pub detail: Option<String>,
}

/// Reachability and detail after a probe. Without a probe query a source counts as down;
/// an answer, or a not-found answer to the sample, counts as up; any other error as down,
/// with its message.
pub open spec fn verdict(answer: Option<Result<(), OsintError>>) -> (bool, Option<Seq<char>>) {
    match answer {
        None => (false, Some("no probe configured"@)),
        Some(Ok(())) => (true, None),
        Some(Err(OsintError::NotFound)) => (true, Some("reachable, sample empty"@)),
        Some(Err(e)) => (false, Some(error_text(e))),
    }
}

/// A probe finds a source up exactly when it answered, or answered that its sample holds
/// nothing: a source without a probe query, or whose probe ended in any other error (an HTTP
/// status such as 503, a transport or a decode error, a refused query), is down.
pub proof fn lemma_up_exactly_when_answered(answer: Option<Result<(), OsintError>>)
    ensures
        verdict(answer).0 <==> (answer matches Some(Ok(_)) || answer matches Some(
            Err(OsintError::NotFound),
        )),
        answer matches Some(Err(e)) && !(e is NotFound) ==> !verdict(answer).0,
{
}

/// The detail text, if any.
pub open spec fn detail_view(d: Option<String>) -> Option<Seq<char>> {
    match d {
        Some(s) => Some(s@),
        None => None,
    }
}

impl Health {
    /// The health of `source` after probing it: `answer` is `None` when it has no probe query,
    /// and the outcome of the probe otherwise, which took `latency_ms` milliseconds.
    pub fn assess(source: &AnySource, answer: Option<Result<(), OsintError>>, latency_ms: u128) -> (h: Health)
        ensures
            h.source@ == source.spec_name(),
            h.category@ == source.spec_category(),
            h.kind@ == source.spec_kind(),
            h.latency_ms == latency_ms,
            !h.requires_key,
            (h.alive, detail_view(h.detail)) == verdict(answer),
    {
        let (alive, detail) = match answer {
            None => (false, Some(String::from_str("no probe configured"))),
            Some(Ok(())) => (true, None),
            Some(Err(OsintError::NotFound)) => (true, Some(String::from_str("reachable, sample empty"))),
            Some(Err(e)) => (false, Some(e.describe())),
        };
        Health {
            source: String::from_str(source.name()),
            category: String::from_str(source.category()),
            kind: String::from_str(source.kind()),
            alive,
            latency_ms,
            requires_key: source.requires_key(),
            detail,
        }
    }
}

impl Keyed for Health {
    open spec fn key(&self) -> Seq<char> {
        self.source@
    }

    fn key_text(&self) -> (r: &str) {
        self.source.as_str()
    }
}

/// Whether every source in the report is up.
pub fn all_alive(report: &Vec<Health>) -> (r: bool)
    ensures
        r == forall|i: int| 0 <= i < report@.len() ==> (#[trigger] report@[i]).alive,
{
    let n = report.len();
    for i in 0..n
        invariant
            n == report@.len(),
            forall|j: int| 0 <= j < i ==> (#[trigger] report@[j]).alive,
    {
        if !report[i].alive {
            return false;
        }
    }
    true
}

} // verus!

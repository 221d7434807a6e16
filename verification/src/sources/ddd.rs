use vstd::prelude::*;
use crate::error::OsintError;
use crate::source::{Call, Progress, Reply, Source, Step};
use crate::sources::{digits_exactly, finish_plain, join2, json_plan, one_json_call, plain_verdict, refused};
use crate::util::digits_of;

verus! {

/// Telephone area codes at BrasilAPI.
pub struct BrasilApi;

/// What the plan of `BrasilApi` is for `query`.
pub open spec fn ddd_plan(query: Seq<char>, r: Result<Vec<Call>, OsintError>) -> bool {
    &&& digits_of(query).len() == 2 ==> json_plan(r, "https://brasilapi.com.br/api/ddd/v1/"@ + digits_of(query))
    &&& digits_of(query).len() != 2 ==> refused(r, "ddd must contain 2 digits"@)
}

impl Source for BrasilApi {
    fn name(&self) -> (r: &'static str)
        ensures
            r@ == "ddd-brasilapi"@,
    {
        "ddd-brasilapi"
    }

    fn category(&self) -> (r: &'static str)
        ensures
            r@ == "telecom"@,
    {
        "telecom"
    }

    fn kind(&self) -> (r: &'static str)
        ensures
            r@ == "ddd"@,
    {
        "ddd"
    }

    fn requires_key(&self) -> (r: bool)
        ensures
            !r,
    {
        false
    }

    fn probe(&self) -> (r: Option<&'static str>)
        ensures
            r matches Some(p) && p@ == "21"@,
    {
        Some("21")
    }

    fn plan(&self, query: &str) -> (r: Result<Vec<Call>, OsintError>)
        ensures
            ddd_plan(query@, r),
    {
        match digits_exactly(query, 2, "ddd must contain 2 digits") {
            Ok(d) => Ok(one_json_call(join2("https://brasilapi.com.br/api/ddd/v1/", d.as_str()))),
            Err(e) => Err(e),
        }
    }

    fn step(&self, progress: Progress, reply: Reply) -> (s: Step)
        ensures
            s == Step::Done(plain_verdict(reply)),
    {
        finish_plain(reply)
    }
}

} // verus!

use vstd::prelude::*;
use crate::error::OsintError;
use crate::source::{Call, Progress, Reply, Source, Step};
use crate::sources::{finish_plain, join2, json_plan, one_json_call, plain_verdict, refused, some_digits};
use crate::util::digits_of;

verus! {

/// Bank registry at BrasilAPI.
pub struct BrasilApi;

/// What the plan of `BrasilApi` is for `query`.
pub open spec fn bank_plan(query: Seq<char>, r: Result<Vec<Call>, OsintError>) -> bool {
    &&& digits_of(query).len() > 0 ==> json_plan(r, "https://brasilapi.com.br/api/banks/v1/"@ + digits_of(query))
    &&& digits_of(query).len() == 0 ==> refused(r, "bank code expected"@)
}

impl Source for BrasilApi {
    fn name(&self) -> (r: &'static str)
        ensures
            r@ == "bank-brasilapi"@,
    {
        "bank-brasilapi"
    }

    fn category(&self) -> (r: &'static str)
        ensures
            r@ == "financial"@,
    {
        "financial"
    }

    fn kind(&self) -> (r: &'static str)
        ensures
            r@ == "bank"@,
    {
        "bank"
    }

    fn requires_key(&self) -> (r: bool)
        ensures
            !r,
    {
        false
    }

    fn probe(&self) -> (r: Option<&'static str>)
        ensures
            r matches Some(p) && p@ == "001"@,
    {
        Some("001")
    }

    fn plan(&self, query: &str) -> (r: Result<Vec<Call>, OsintError>)
        ensures
            bank_plan(query@, r),
    {
        match some_digits(query, "bank code expected") {
            Ok(d) => Ok(one_json_call(join2("https://brasilapi.com.br/api/banks/v1/", d.as_str()))),
            Err(e) => Err(e),
        }
    }

    fn step(&self, progress: Progress, reply: Reply) -> (s: Step)
        ensures
            s == Step::Done(plain_verdict(reply)),
    {
        finish_plain(reply)
    }
}

} // verus!

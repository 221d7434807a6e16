use vstd::prelude::*;
use crate::error::OsintError;
use crate::source::{field, has_field, Call, Progress, Reply, Source, Step};
use crate::sources::{digits_exactly, finish_plain, join2, join3, json_plan, one_json_call, plain_verdict, refused};
use crate::util::digits_of;

verus! {

/// How ViaCEP's reply is judged: an `erro` member tells that the CEP is unknown.
pub open spec fn viacep_verdict(reply: Reply) -> Result<(), OsintError> {
    match reply {
        Err(e) => Err(e),
        Ok(shape) => if field(shape, "erro"@) is Some {
            Err(OsintError::NotFound)
        } else {
            Ok(())
        },
    }
}

/// Postal addresses at ViaCEP.
pub struct ViaCep;

/// What the plan of `ViaCep` is for `query`.
pub open spec fn viacep_plan(query: Seq<char>, r: Result<Vec<Call>, OsintError>) -> bool {
    &&& digits_of(query).len() == 8 ==> json_plan(r, "https://viacep.com.br/ws/"@ + digits_of(query) + "/json/"@)
    &&& digits_of(query).len() != 8 ==> refused(r, "cep must contain 8 digits"@)
}

impl Source for ViaCep {
    fn name(&self) -> (r: &'static str)
        ensures
            r@ == "cep-viacep"@,
    {
        "cep-viacep"
    }

    fn category(&self) -> (r: &'static str)
        ensures
            r@ == "address"@,
    {
        "address"
    }

    fn kind(&self) -> (r: &'static str)
        ensures
            r@ == "cep"@,
    {
        "cep"
    }

    fn requires_key(&self) -> (r: bool)
        ensures
            !r,
    {
        false
    }

    fn probe(&self) -> (r: Option<&'static str>)
        ensures
            r matches Some(p) && p@ == "01310100"@,
    {
        Some("01310100")
    }

    fn plan(&self, query: &str) -> (r: Result<Vec<Call>, OsintError>)
        ensures
            viacep_plan(query@, r),
    {
        match digits_exactly(query, 8, "cep must contain 8 digits") {
            Ok(d) => Ok(one_json_call(join3("https://viacep.com.br/ws/", d.as_str(), "/json/"))),
            Err(e) => Err(e),
        }
    }

    fn step(&self, progress: Progress, reply: Reply) -> (s: Step)
        ensures
            s == Step::Done(viacep_verdict(reply)),
    {
        match reply {
            Err(e) => Step::Done(Err(e)),
            Ok(shape) => {
                if has_field(&shape, "erro") {
                    Step::Done(Err(OsintError::NotFound))
                } else {
                    Step::Done(Ok(()))
                }
            },
        }
    }
}

/// Postal addresses at BrasilAPI.
pub struct BrasilApi;

/// What the plan of `BrasilApi` is for `query`.
pub open spec fn cep_brasilapi_plan(query: Seq<char>, r: Result<Vec<Call>, OsintError>) -> bool {
    &&& digits_of(query).len() == 8 ==> json_plan(r, "https://brasilapi.com.br/api/cep/v2/"@ + digits_of(query))
    &&& digits_of(query).len() != 8 ==> refused(r, "cep must contain 8 digits"@)
}

impl Source for BrasilApi {
    fn name(&self) -> (r: &'static str)
        ensures
            r@ == "cep-brasilapi"@,
    {
        "cep-brasilapi"
    }

    fn category(&self) -> (r: &'static str)
        ensures
            r@ == "address"@,
    {
        "address"
    }

    fn kind(&self) -> (r: &'static str)
        ensures
            r@ == "cep"@,
    {
        "cep"
    }

    fn requires_key(&self) -> (r: bool)
        ensures
            !r,
    {
        false
    }

    fn probe(&self) -> (r: Option<&'static str>)
        ensures
            r matches Some(p) && p@ == "01310100"@,
    {
        Some("01310100")
    }

    fn plan(&self, query: &str) -> (r: Result<Vec<Call>, OsintError>)
        ensures
            cep_brasilapi_plan(query@, r),
    {
        match digits_exactly(query, 8, "cep must contain 8 digits") {
            Ok(d) => Ok(one_json_call(join2("https://brasilapi.com.br/api/cep/v2/", d.as_str()))),
            Err(e) => Err(e),
        }
    }

    fn step(&self, progress: Progress, reply: Reply) -> (s: Step)
        ensures
            s == Step::Done(plain_verdict(reply)),
    {
        finish_plain(reply)
    }
}

} // verus!

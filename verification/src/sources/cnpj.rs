use vstd::prelude::*;
use crate::error::{invalid, OsintError};
use crate::source::{Call, Progress, Reply, Source, Step};
use crate::sources::{finish_plain, join2, json_plan, one_json_call, plain_verdict, refused};
use crate::util::{digits, digits_of};

verus! {

/// The digits of a CNPJ query, which must be fourteen.
pub fn normalize(query: &str) -> (r: Result<String, OsintError>)
    ensures
        digits_of(query@).len() == 14 ==> (r matches Ok(d) && d@ == digits_of(query@)),
        digits_of(query@).len() != 14 ==> (r matches Err(OsintError::Invalid(m)) && m@
            == "cnpj must contain 14 digits"@),
{
    let d = digits(query);
    if d.as_str().unicode_len() != 14 {
        return Err(invalid("cnpj must contain 14 digits"));
    }
    Ok(d)
}

/// The plan of a CNPJ lookup at a URL made of `prefix` and the CNPJ's digits.
pub open spec fn cnpj_plan(query: Seq<char>, prefix: Seq<char>, r: Result<Vec<Call>, OsintError>) -> bool {
    &&& digits_of(query).len() == 14 ==> json_plan(r, prefix + digits_of(query))
    &&& digits_of(query).len() != 14 ==> refused(r, "cnpj must contain 14 digits"@)
}

/// Company registry at BrasilAPI.
pub struct BrasilApi;

/// Company registry at Minha Receita.
pub struct MinhaReceita;

impl Source for BrasilApi {
    fn name(&self) -> (r: &'static str)
        ensures
            r@ == "cnpj-brasilapi"@,
    {
        "cnpj-brasilapi"
    }

    fn category(&self) -> (r: &'static str)
        ensures
            r@ == "corporate"@,
    {
        "corporate"
    }

    fn kind(&self) -> (r: &'static str)
        ensures
            r@ == "cnpj"@,
    {
        "cnpj"
    }

    fn requires_key(&self) -> (r: bool)
        ensures
            !r,
    {
        false
    }

    fn probe(&self) -> (r: Option<&'static str>)
        ensures
            r matches Some(p) && p@ == "00000000000191"@,
    {
        Some("00000000000191")
    }

    fn plan(&self, query: &str) -> (r: Result<Vec<Call>, OsintError>)
        ensures
            cnpj_plan(query@, "https://brasilapi.com.br/api/cnpj/v1/"@, r),
    {
        match normalize(query) {
            Ok(cnpj) => Ok(one_json_call(join2("https://brasilapi.com.br/api/cnpj/v1/", cnpj.as_str()))),
            Err(e) => Err(e),
        }
    }

    fn step(&self, progress: Progress, reply: Reply) -> (s: Step)
        ensures
            s == Step::Done(plain_verdict(reply)),
    {
        finish_plain(reply)
    }
}

impl Source for MinhaReceita {
    fn name(&self) -> (r: &'static str)
        ensures
            r@ == "cnpj-minhareceita"@,
    {
        "cnpj-minhareceita"
    }

    fn category(&self) -> (r: &'static str)
        ensures
            r@ == "corporate"@,
    {
        "corporate"
    }

    fn kind(&self) -> (r: &'static str)
        ensures
            r@ == "cnpj"@,
    {
        "cnpj"
    }

    fn requires_key(&self) -> (r: bool)
        ensures
            !r,
    {
        false
    }

    fn probe(&self) -> (r: Option<&'static str>)
        ensures
            r matches Some(p) && p@ == "00000000000191"@,
    {
        Some("00000000000191")
    }

    fn plan(&self, query: &str) -> (r: Result<Vec<Call>, OsintError>)
        ensures
            cnpj_plan(query@, "https://minhareceita.org/"@, r),
    {
        match normalize(query) {
            Ok(cnpj) => Ok(one_json_call(join2("https://minhareceita.org/", cnpj.as_str()))),
            Err(e) => Err(e),
        }
    }

    fn step(&self, progress: Progress, reply: Reply) -> (s: Step)
        ensures
            s == Step::Done(plain_verdict(reply)),
    {
        finish_plain(reply)
    }
}

} // verus!

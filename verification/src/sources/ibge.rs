use vstd::prelude::*;
use crate::error::{invalid, OsintError};
use crate::source::{Call, Progress, Reply, Source, Step};
use crate::sources::{all_ascii_alpha, finish_nonempty, is_ascii_alpha, join3, json_plan, nonempty_verdict, one_json_call, refused};
use crate::util::{ascii_upper_text, chars_of, is_ascii_text, trim, trimmed_upper, upper};

verus! {

/// A state code: two ASCII letters.
pub open spec fn state_code_ok(u: Seq<char>) -> bool {
    u.len() == 2 && forall|i: int| 0 <= i < 2 ==> is_ascii_alpha(#[trigger] u[i])
}

/// Municipalities of a state at IBGE.
pub struct Municipios;

/// What the plan of `Municipios` is for `query`. The state code is the trimmed query
/// upper-cased, which for ASCII text is letter by letter.
pub open spec fn municipios_plan(query: Seq<char>, r: Result<Vec<Call>, OsintError>) -> bool {
    &&& state_code_ok(upper(trim(query))) ==> json_plan(r, "https://servicodados.ibge.gov.br/api/v1/localidades/estados/"@ + upper(trim(query)) + "/municipios"@)
    &&& !state_code_ok(upper(trim(query))) ==> refused(r, "expected a 2-letter state code"@)
    &&& is_ascii_text(trim(query)) ==> upper(trim(query)) == ascii_upper_text(trim(query))
}

impl Source for Municipios {
    fn name(&self) -> (r: &'static str)
        ensures
            r@ == "ibge-municipios"@,
    {
        "ibge-municipios"
    }

    fn category(&self) -> (r: &'static str)
        ensures
            r@ == "geo"@,
    {
        "geo"
    }

    fn kind(&self) -> (r: &'static str)
        ensures
            r@ == "uf"@,
    {
        "uf"
    }

    fn requires_key(&self) -> (r: bool)
        ensures
            !r,
    {
        false
    }

    fn probe(&self) -> (r: Option<&'static str>)
        ensures
            r matches Some(p) && p@ == "RJ"@,
    {
        Some("RJ")
    }

    fn plan(&self, query: &str) -> (r: Result<Vec<Call>, OsintError>)
        ensures
            municipios_plan(query@, r),
    {
        let uf = trimmed_upper(query);
        let cs = chars_of(uf.as_str());
        if cs.len() != 2 || !all_ascii_alpha(&cs) {
            return Err(invalid("expected a 2-letter state code"));
        }
        Ok(
            one_json_call(
                join3(
                    "https://servicodados.ibge.gov.br/api/v1/localidades/estados/",
                    uf.as_str(),
                    "/municipios",
                ),
            ),
        )
    }

    fn step(&self, progress: Progress, reply: Reply) -> (s: Step)
        ensures
            s == Step::Done(nonempty_verdict(reply)),
    {
        finish_nonempty(reply)
    }
}

} // verus!

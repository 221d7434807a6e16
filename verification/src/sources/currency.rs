use vstd::prelude::*;
use crate::error::{invalid, OsintError};
use crate::source::{Call, Progress, Reply, Source, Step};
use crate::sources::{all_ascii_alpha, finish_plain, is_ascii_alpha, join2, json_plan, one_json_call, plain_verdict, refused};
use crate::ipaddr::{fields, split_fields, views};
use crate::util::{ascii_upper_text, chars_of, is_ascii_text, trim, trimmed_upper, upper};

verus! {

/// A currency code: three ASCII letters.
pub open spec fn is_code3(p: Seq<char>) -> bool {
    p.len() == 3 && forall|i: int| 0 <= i < 3 ==> is_ascii_alpha(#[trigger] p[i])
}

/// A currency pair: two currency codes joined by `-`, like `USD-BRL`.
pub open spec fn pair_ok(pair: Seq<char>) -> bool {
    let f = fields(pair, '-');
    f.len() == 2 && is_code3(f[0]) && is_code3(f[1])
}

/// Whether `pair` is two three-letter codes joined by `-`.
pub fn valid_pair(pair: &str) -> (r: bool)
    ensures
        r == pair_ok(pair@),
{
    let cs = chars_of(pair);
    let f = split_fields(&cs, '-');
    if f.len() != 2 {
        return false;
    }
    assert(views(f@)[0] == f@[0]@);
    assert(views(f@)[1] == f@[1]@);
    f[0].len() == 3 && all_ascii_alpha(&f[0]) && f[1].len() == 3 && all_ascii_alpha(&f[1])
}

/// Exchange rates at AwesomeAPI.
pub struct AwesomeApi;

/// What the plan of `AwesomeApi` is for `query`. The pair is the trimmed query upper-cased,
/// which for ASCII text is letter by letter.
pub open spec fn currency_plan(query: Seq<char>, r: Result<Vec<Call>, OsintError>) -> bool {
    &&& pair_ok(upper(trim(query))) ==> json_plan(r, "https://economia.awesomeapi.com.br/json/last/"@ + upper(trim(query)))
    &&& !pair_ok(upper(trim(query))) ==> refused(r, "expected a pair like USD-BRL"@)
    &&& is_ascii_text(trim(query)) ==> upper(trim(query)) == ascii_upper_text(trim(query))
}

impl Source for AwesomeApi {
    fn name(&self) -> (r: &'static str)
        ensures
            r@ == "currency-awesomeapi"@,
    {
        "currency-awesomeapi"
    }

    fn category(&self) -> (r: &'static str)
        ensures
            r@ == "financial"@,
    {
        "financial"
    }

    fn kind(&self) -> (r: &'static str)
        ensures
            r@ == "currency"@,
    {
        "currency"
    }

    fn requires_key(&self) -> (r: bool)
        ensures
            !r,
    {
        false
    }

    fn probe(&self) -> (r: Option<&'static str>)
        ensures
            r matches Some(p) && p@ == "USD-BRL"@,
    {
        Some("USD-BRL")
    }

    fn plan(&self, query: &str) -> (r: Result<Vec<Call>, OsintError>)
        ensures
            currency_plan(query@, r),
    {
        let pair = trimmed_upper(query);
        if !valid_pair(pair.as_str()) {
            return Err(invalid("expected a pair like USD-BRL"));
        }
        Ok(one_json_call(join2("https://economia.awesomeapi.com.br/json/last/", pair.as_str())))
    }

    fn step(&self, progress: Progress, reply: Reply) -> (s: Step)
        ensures
            s == Step::Done(plain_verdict(reply)),
    {
        finish_plain(reply)
    }
}

} // verus!

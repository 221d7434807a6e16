use vstd::prelude::*;
use crate::error::OsintError;
use crate::source::{Call, Progress, Reply, Source, Step};
use crate::sources::{digits_exactly, finish_plain, join2, json_plan, one_json_call, plain_verdict, refused, some_digits};
use crate::util::{chars_of, digits_of, lemma_filter_agree, string_of};

verus! {

/// National holidays at BrasilAPI.
pub struct Holidays;

/// What the plan of `Holidays` is for `query`.
pub open spec fn holidays_plan(query: Seq<char>, r: Result<Vec<Call>, OsintError>) -> bool {
    &&& digits_of(query).len() == 4 ==> json_plan(r, "https://brasilapi.com.br/api/feriados/v1/"@ + digits_of(query))
    &&& digits_of(query).len() != 4 ==> refused(r, "year must have 4 digits"@)
}

impl Source for Holidays {
    fn name(&self) -> (r: &'static str)
        ensures
            r@ == "holidays-brasilapi"@,
    {
        "holidays-brasilapi"
    }

    fn category(&self) -> (r: &'static str)
        ensures
            r@ == "reference"@,
    {
        "reference"
    }

    fn kind(&self) -> (r: &'static str)
        ensures
            r@ == "holidays"@,
    {
        "holidays"
    }

    fn requires_key(&self) -> (r: bool)
        ensures
            !r,
    {
        false
    }

    fn probe(&self) -> (r: Option<&'static str>)
        ensures
            r matches Some(p) && p@ == "2025"@,
    {
        Some("2025")
    }

    fn plan(&self, query: &str) -> (r: Result<Vec<Call>, OsintError>)
        ensures
            holidays_plan(query@, r),
    {
        match digits_exactly(query, 4, "year must have 4 digits") {
            Ok(d) => Ok(one_json_call(join2("https://brasilapi.com.br/api/feriados/v1/", d.as_str()))),
            Err(e) => Err(e),
        }
    }

    fn step(&self, progress: Progress, reply: Reply) -> (s: Step)
        ensures
            s == Step::Done(plain_verdict(reply)),
    {
        finish_plain(reply)
    }
}

/// An ASCII letter or digit.
pub open spec fn is_ascii_alnum(c: char) -> bool {
    ('0' <= c && c <= '9') || ('a' <= c && c <= 'z') || ('A' <= c && c <= 'Z')
}

/// The ASCII letters and digits of `s`, in order.
pub open spec fn alnum_of(s: Seq<char>) -> Seq<char> {
    s.filter(|c: char| is_ascii_alnum(c))
}

/// The ISBN code keeps every ASCII letter and every ASCII digit of the query, in order, and
/// nothing else, so the check letter `X` of an ISBN-10 stays part of the code.
pub proof fn lemma_isbn_code_keeps_letters(query: Seq<char>)
    ensures
        alnum_of(query) == query.filter(
            |c: char| ('0' <= c && c <= '9') || ('a' <= c && c <= 'z') || ('A' <= c && c <= 'Z'),
        ),
{
    lemma_filter_agree(
        query,
        |c: char| is_ascii_alnum(c),
        |c: char| ('0' <= c && c <= '9') || ('a' <= c && c <= 'z') || ('A' <= c && c <= 'Z'),
    );
}

/// The ASCII letters and digits of `query`, in order.
pub fn alnum_chars(query: &str) -> (r: String)
    ensures
        r@ == alnum_of(query@),
{
    let cs = chars_of(query);
    let n = cs.len();
    let mut out: Vec<char> = Vec::new();
    let ghost keep = |c: char| is_ascii_alnum(c);
    for i in 0..n
        invariant
            n == cs@.len(),
            cs@ == query@,
            keep == (|c: char| is_ascii_alnum(c)),
            out@ == alnum_of(cs@.take(i as int)),
    {
        let c = cs[i];
        proof {
            assert(cs@.take(i + 1) == cs@.take(i as int).push(c));
            cs@.take(i as int).lemma_filter_push(c, keep);
        }
        if ('0' <= c && c <= '9') || ('a' <= c && c <= 'z') || ('A' <= c && c <= 'Z') {
            out.push(c);
        }
    }
    assert(cs@.take(n as int) == cs@);
    string_of(out.as_slice())
}

/// Book metadata at BrasilAPI.
pub struct Isbn;

/// What the plan of `Isbn` is for `query`.
pub open spec fn isbn_plan(query: Seq<char>, r: Result<Vec<Call>, OsintError>) -> bool {
    &&& alnum_of(query).len() >= 10 ==> json_plan(r, "https://brasilapi.com.br/api/isbn/v1/"@ + alnum_of(query))
    &&& alnum_of(query).len() < 10 ==> refused(r, "isbn expected"@)
}

impl Source for Isbn {
    fn name(&self) -> (r: &'static str)
        ensures
            r@ == "isbn-brasilapi"@,
    {
        "isbn-brasilapi"
    }

    fn category(&self) -> (r: &'static str)
        ensures
            r@ == "reference"@,
    {
        "reference"
    }

    fn kind(&self) -> (r: &'static str)
        ensures
            r@ == "isbn"@,
    {
        "isbn"
    }

    fn requires_key(&self) -> (r: bool)
        ensures
            !r,
    {
        false
    }

    fn probe(&self) -> (r: Option<&'static str>)
        ensures
            r matches Some(p) && p@ == "9788535902778"@,
    {
        Some("9788535902778")
    }

    fn plan(&self, query: &str) -> (r: Result<Vec<Call>, OsintError>)
        ensures
            isbn_plan(query@, r),
    {
        let code = alnum_chars(query);
        if code.as_str().unicode_len() < 10 {
            return Err(crate::error::invalid("isbn expected"));
        }
        Ok(one_json_call(join2("https://brasilapi.com.br/api/isbn/v1/", code.as_str())))
    }

    fn step(&self, progress: Progress, reply: Reply) -> (s: Step)
        ensures
            s == Step::Done(plain_verdict(reply)),
    {
        finish_plain(reply)
    }
}

/// Customs product codes at BrasilAPI.
pub struct Ncm;

/// What the plan of `Ncm` is for `query`.
pub open spec fn ncm_plan(query: Seq<char>, r: Result<Vec<Call>, OsintError>) -> bool {
    &&& digits_of(query).len() > 0 ==> json_plan(r, "https://brasilapi.com.br/api/ncm/v1/"@ + digits_of(query))
    &&& digits_of(query).len() == 0 ==> refused(r, "ncm code expected"@)
}

impl Source for Ncm {
    fn name(&self) -> (r: &'static str)
        ensures
            r@ == "ncm-brasilapi"@,
    {
        "ncm-brasilapi"
    }

    fn category(&self) -> (r: &'static str)
        ensures
            r@ == "reference"@,
    {
        "reference"
    }

    fn kind(&self) -> (r: &'static str)
        ensures
            r@ == "ncm"@,
    {
        "ncm"
    }

    fn requires_key(&self) -> (r: bool)
        ensures
            !r,
    {
        false
    }

    fn probe(&self) -> (r: Option<&'static str>)
        ensures
            r matches Some(p) && p@ == "33030010"@,
    {
        Some("33030010")
    }

    fn plan(&self, query: &str) -> (r: Result<Vec<Call>, OsintError>)
        ensures
            ncm_plan(query@, r),
    {
        match some_digits(query, "ncm code expected") {
            Ok(d) => Ok(one_json_call(join2("https://brasilapi.com.br/api/ncm/v1/", d.as_str()))),
            Err(e) => Err(e),
        }
    }

    fn step(&self, progress: Progress, reply: Reply) -> (s: Step)
        ensures
            s == Step::Done(plain_verdict(reply)),
    {
        finish_plain(reply)
    }
}

} // verus!

use vstd::prelude::*;
use crate::error::{invalid, OsintError};
use crate::source::{field, field_text_is, Call, Progress, Reply, Source, Step};
use crate::sources::{finish_plain, join2, json_plan, one_json_call, plain_verdict, refused};
use crate::ipaddr::{ip_literal, ip_text, parse_ip, spells, IpValue};
use crate::util::{chars_of, trim, trimmed};

verus! {

/// The address that a query spells, surrounding white space ignored.
pub fn addr(query: &str) -> (r: Result<IpValue, OsintError>)
    ensures
        ip_literal(trim(query@)) ==> (r matches Ok(a) && spells(trim(query@), a)),
        !ip_literal(trim(query@)) ==> refused(r, "not a valid ip address"@),
{
    let cs = chars_of(query);
    let t = trimmed(&cs);
    match parse_ip(&t) {
        Some(a) => Ok(a),
        None => Err(invalid("not a valid ip address")),
    }
}

/// The plan of an IP lookup at a URL made of `prefix` and the address as `Display` writes it.
pub open spec fn ip_plan(query: Seq<char>, prefix: Seq<char>, r: Result<Vec<Call>, OsintError>) -> bool {
    &&& ip_literal(trim(query)) ==> exists|a: IpValue|
        spells(trim(query), a) && json_plan(r, prefix + ip_text(a))
    &&& !ip_literal(trim(query)) ==> refused(r, "not a valid ip address"@)
}

/// Plans one JSON call to `prefix` followed by the address of `query`.
fn plan_ip(query: &str, prefix: &str) -> (r: Result<Vec<Call>, OsintError>)
    ensures
        ip_plan(query@, prefix@, r),
{
    match addr(query) {
        Ok(a) => {
            let text = a.text();
            let r = Ok(one_json_call(join2(prefix, text.as_str())));
            assert(spells(trim(query@), a) && json_plan(r, prefix@ + ip_text(a)));
            r
        },
        Err(e) => Err(e),
    }
}

/// How ip-api's reply is judged: a `status` of `fail` tells that nothing is known.
pub open spec fn ipapi_verdict(reply: Reply) -> Result<(), OsintError> {
    match reply {
        Err(e) => Err(e),
        Ok(shape) => if field(shape, "status"@) matches Some(m) && m.text matches Some(t) && t@
            == "fail"@ {
            Err(OsintError::NotFound)
        } else {
            Ok(())
        },
    }
}

/// Geolocation and network of an address at ip-api.
pub struct IpApi;

/// Exposed services of an address at Shodan InternetDB.
pub struct InternetDb;

/// Registration of an address over RDAP.
pub struct Rdap;

impl Source for IpApi {
    fn name(&self) -> (r: &'static str)
        ensures
            r@ == "ip-ipapi"@,
    {
        "ip-ipapi"
    }

    fn category(&self) -> (r: &'static str)
        ensures
            r@ == "geo"@,
    {
        "geo"
    }

    fn kind(&self) -> (r: &'static str)
        ensures
            r@ == "ip"@,
    {
        "ip"
    }

    fn requires_key(&self) -> (r: bool)
        ensures
            !r,
    {
        false
    }

    fn probe(&self) -> (r: Option<&'static str>)
        ensures
            r matches Some(p) && p@ == "8.8.8.8"@,
    {
        Some("8.8.8.8")
    }

    fn plan(&self, query: &str) -> (r: Result<Vec<Call>, OsintError>)
        ensures
            ip_plan(query@, "http://ip-api.com/json/"@, r),
    {
        plan_ip(query, "http://ip-api.com/json/")
    }

    fn step(&self, progress: Progress, reply: Reply) -> (s: Step)
        ensures
            s == Step::Done(ipapi_verdict(reply)),
    {
        match reply {
            Err(e) => Step::Done(Err(e)),
            Ok(shape) => {
                if field_text_is(&shape, "status", "fail") {
                    Step::Done(Err(OsintError::NotFound))
                } else {
                    Step::Done(Ok(()))
                }
            },
        }
    }
}

impl Source for InternetDb {
    fn name(&self) -> (r: &'static str)
        ensures
            r@ == "ip-internetdb"@,
    {
        "ip-internetdb"
    }

    fn category(&self) -> (r: &'static str)
        ensures
            r@ == "infrastructure"@,
    {
        "infrastructure"
    }

    fn kind(&self) -> (r: &'static str)
        ensures
            r@ == "ip"@,
    {
        "ip"
    }

    fn requires_key(&self) -> (r: bool)
        ensures
            !r,
    {
        false
    }

    fn probe(&self) -> (r: Option<&'static str>)
        ensures
            r matches Some(p) && p@ == "8.8.8.8"@,
    {
        Some("8.8.8.8")
    }

    fn plan(&self, query: &str) -> (r: Result<Vec<Call>, OsintError>)
        ensures
            ip_plan(query@, "https://internetdb.shodan.io/"@, r),
    {
        plan_ip(query, "https://internetdb.shodan.io/")
    }

    fn step(&self, progress: Progress, reply: Reply) -> (s: Step)
        ensures
            s == Step::Done(plain_verdict(reply)),
    {
        finish_plain(reply)
    }
}

impl Source for Rdap {
    fn name(&self) -> (r: &'static str)
        ensures
            r@ == "ip-rdap"@,
    {
        "ip-rdap"
    }

    fn category(&self) -> (r: &'static str)
        ensures
            r@ == "infrastructure"@,
    {
        "infrastructure"
    }

    fn kind(&self) -> (r: &'static str)
        ensures
            r@ == "ip"@,
    {
        "ip"
    }

    fn requires_key(&self) -> (r: bool)
        ensures
            !r,
    {
        false
    }

    fn probe(&self) -> (r: Option<&'static str>)
        ensures
            r matches Some(p) && p@ == "8.8.8.8"@,
    {
        Some("8.8.8.8")
    }

    fn plan(&self, query: &str) -> (r: Result<Vec<Call>, OsintError>)
        ensures
            ip_plan(query@, "https://rdap.org/ip/"@, r),
    {
        plan_ip(query, "https://rdap.org/ip/")
    }

    fn step(&self, progress: Progress, reply: Reply) -> (s: Step)
        ensures
            s == Step::Done(plain_verdict(reply)),
    {
        finish_plain(reply)
    }
}

} // verus!

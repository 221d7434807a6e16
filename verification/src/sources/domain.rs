use vstd::prelude::*;
use crate::error::{invalid, OsintError};
use crate::ipaddr::{ip_literal, is_hex_digit, parse_ip};
use crate::source::{field, find_member, has_field, Call, Progress, Reply, Shape, Source, Step};
use crate::sources::{finish_nonempty, finish_plain, join2, join3, json_plan, nonempty_verdict, one_json_call, plain_verdict, refused};
use crate::util::{chars_of, has_char, is_digit, string_of, trim, trim_dots, trimmed, without_trailing_dots};

verus! {

/// A character that a host name may hold: an ASCII letter or digit, `.` or `-`.
pub open spec fn is_host_char(c: char) -> bool {
    ('0' <= c && c <= '9') || ('a' <= c && c <= 'z') || ('A' <= c && c <= 'Z') || c == '.' || c
        == '-'
}

/// The host name that a query names: surrounding white space and trailing dots dropped.
pub open spec fn host_text(q: Seq<char>) -> Seq<char> {
    trim_dots(trim(q))
}

/// The last label of a host name: what follows its last dot, or all of it when it has none.
pub open spec fn last_label(h: Seq<char>) -> Seq<char>
    decreases h.len(),
{
    if h.len() == 0 {
        h
    } else if h.last() == '.' {
        Seq::empty()
    } else {
        last_label(h.drop_last()).push(h.last())
    }
}

/// A label that a URL parser reads as a number: decimal digits (octal too, with a leading
/// zero), or `0x` or `0X` followed by hexadecimal digits.
pub open spec fn numeric_label(l: Seq<char>) -> bool {
    ||| (l.len() > 0 && forall|i: int| 0 <= i < l.len() ==> is_digit(#[trigger] l[i]))
    ||| (l.len() >= 2 && l[0] == '0' && (l[1] == 'x' || l[1] == 'X') && forall|i: int|
        2 <= i < l.len() ==> is_hex_digit(#[trigger] l[i]))
}

/// A host whose last label is a number. A URL parser reads such a host as an IPv4 address,
/// whatever its other labels (`127.1`, `0x7f.0.0.1` and `010.0.0.1` among them), or refuses
/// it as a malformed one; it never reads it as a domain name.
pub open spec fn ends_in_number(h: Seq<char>) -> bool {
    numeric_label(last_label(h))
}

/// A query that names no domain: nothing, no dot, an IP address, or a host that a URL parser
/// reads as an address.
pub open spec fn names_no_domain(h: Seq<char>) -> bool {
    h.len() == 0 || !h.contains('.') || ip_literal(h) || ends_in_number(h)
}

/// Every character of `h` may stand in a host name.
pub open spec fn host_chars(h: Seq<char>) -> bool {
    forall|i: int| 0 <= i < h.len() ==> is_host_char(#[trigger] h[i])
}

/// A query that names a domain that may be looked up.
pub open spec fn host_ok(q: Seq<char>) -> bool {
    !names_no_domain(host_text(q)) && host_chars(host_text(q))
}

/// The last label of a host with a dot is what follows its last dot.
pub proof fn lemma_last_label_after(x: Seq<char>, y: Seq<char>)
    requires
        !y.contains('.'),
    ensures
        last_label(x + seq!['.'] + y) == y,
    decreases y.len(),
{
    let z = x + seq!['.'] + y;
    if y.len() == 0 {
        assert(z.last() == '.');
        assert(y =~= Seq::<char>::empty());
    } else {
        let u = y.drop_last();
        assert(y.last() != '.') by {
            assert(y[y.len() - 1] == y.last());
        }
        assert(!u.contains('.')) by {
            if u.contains('.') {
                let i = choose|i: int| 0 <= i < u.len() && u[i] == '.';
                assert(y[i] == '.');
            }
        }
        lemma_last_label_after(x, u);
        assert(z.drop_last() =~= x + seq!['.'] + u);
        assert(z.last() == y.last());
        assert(y =~= u.push(y.last()));
    }
}

proof fn lemma_trim_dots_last(s: Seq<char>)
    ensures
        trim_dots(s).len() > 0 ==> trim_dots(s).last() != '.',
        trim_dots(s).len() <= s.len(),
    decreases s.len(),
{
    if s.len() > 0 && s.last() == '.' {
        lemma_trim_dots_last(s.drop_last());
    }
}

/// A host name that passes the guard is one that a URL parser reads as a domain name, never
/// as an address: it holds a dot, does not end in one, is no IP address, its last label is no
/// number, and it holds only ASCII letters, digits, dots and hyphens, so that it cannot
/// smuggle a user, path, query or parameter into a URL either.
pub proof fn lemma_host_guard(query: Seq<char>)
    requires
        host_ok(query),
    ensures
        host_text(query).contains('.'),
        host_text(query).last() != '.',
        !ip_literal(host_text(query)),
        !numeric_label(last_label(host_text(query))),
        forall|i: int|
            0 <= i < host_text(query).len() ==> {
                let c = #[trigger] host_text(query)[i];
                c != '@' && c != '/' && c != '?' && c != '&' && c != '#' && c != ':' && c != ' '
            },
{
    lemma_trim_dots_last(trim(query));
    assert forall|i: int| 0 <= i < host_text(query).len() implies {
        let c = #[trigger] host_text(query)[i];
        c != '@' && c != '/' && c != '?' && c != '&' && c != '#' && c != ':' && c != ' '
    } by {
        assert(is_host_char(host_text(query)[i]));
    }
}

/// Every domain name written with ASCII letters, digits, dots and hyphens passes the guard:
/// a query whose host text names a domain and holds nothing else is accepted as that text, so
/// hyphenated names such as `my-site.com.br` are looked up.
pub proof fn lemma_domain_names_pass(query: Seq<char>)
    requires
        !names_no_domain(host_text(query)),
        forall|i: int|
            0 <= i < host_text(query).len() ==> {
                let c = #[trigger] host_text(query)[i];
                ('0' <= c && c <= '9') || ('a' <= c && c <= 'z') || ('A' <= c && c <= 'Z') || c
                    == '.' || c == '-'
            },
    ensures
        host_ok(query),
{
}

/// Where the last label of `h` starts.
fn last_label_start(h: &Vec<char>) -> (k: usize)
    ensures
        k <= h@.len(),
        h@.subrange(k as int, h@.len() as int) == last_label(h@),
{
    let n = h.len();
    let mut start: usize = 0;
    assert(h@.take(0) =~= Seq::<char>::empty());
    for i in 0..n
        invariant
            n == h@.len(),
            start <= i,
            last_label(h@.take(i as int)) == h@.subrange(start as int, i as int),
    {
        let c = h[i];
        let ghost t = h@.take(i + 1);
        assert(t.last() == c);
        assert(t.drop_last() =~= h@.take(i as int));
        if c == '.' {
            start = i + 1;
            assert(h@.subrange(start as int, (i + 1) as int) =~= Seq::<char>::empty());
        } else {
            assert(h@.subrange(start as int, (i + 1) as int) =~= h@.subrange(start as int, i as int).push(c));
        }
    }
    assert(h@.take(n as int) =~= h@);
    start
}

/// Whether the characters of `h` from `k` on make a label that a URL parser reads as a number.
fn is_numeric_label(h: &Vec<char>, k: usize) -> (r: bool)
    requires
        k <= h@.len(),
    ensures
        r == numeric_label(h@.subrange(k as int, h@.len() as int)),
{
    let n = h.len();
    let ghost l = h@.subrange(k as int, n as int);
    if k == n {
        return false;
    }
    let mut digits = true;
    let mut i = k;
    while i < n
        invariant
            k <= i <= n,
            n == h@.len(),
            l == h@.subrange(k as int, n as int),
            digits == forall|j: int| 0 <= j < i - k ==> is_digit(#[trigger] l[j]),
        decreases n - i,
    {
        assert(l[i - k] == h@[i as int]);
        if !('0' <= h[i] && h[i] <= '9') {
            digits = false;
        }
        i = i + 1;
    }
    if digits {
        return true;
    }
    if n - k < 2 || h[k] != '0' || !(h[k + 1] == 'x' || h[k + 1] == 'X') {
        assert(!(l.len() >= 2 && l[0] == '0' && (l[1] == 'x' || l[1] == 'X')));
        return false;
    }
    let mut j = k + 2;
    while j < n
        invariant
            k + 2 <= j <= n,
            n == h@.len(),
            l == h@.subrange(k as int, n as int),
            forall|m: int| 2 <= m < j - k ==> is_hex_digit(#[trigger] l[m]),
        decreases n - j,
    {
        let c = h[j];
        assert(l[j - k] == c);
        if !(('0' <= c && c <= '9') || ('a' <= c && c <= 'f') || ('A' <= c && c <= 'F')) {
            assert(!is_hex_digit(l[j - k]));
            return false;
        }
        j = j + 1;
    }
    true
}

/// The host name of a domain query. It is refused as no domain when it is empty, has no dot,
/// is an IP address, or ends in a numeric label (`127.1`, `0x7f.0.0.1`, `010.0.0.1`), which a
/// URL parser reads as an IPv4 address; and it is refused when it holds anything but ASCII
/// letters, digits, dots and hyphens. What passes is read by a URL parser as a domain name,
/// so no URL built from it is steered at an address.
pub fn host(query: &str) -> (r: Result<String, OsintError>)
    ensures
        names_no_domain(host_text(query@)) ==> refused(r, "domain expected"@),
        !names_no_domain(host_text(query@)) && !host_chars(host_text(query@)) ==> refused(
            r,
            "invalid characters in domain"@,
        ),
        host_ok(query@) ==> (r matches Ok(h) && h@ == host_text(query@)),
{
    let cs = chars_of(query);
    let t = trimmed(&cs);
    let h = without_trailing_dots(&t);
    if h.len() == 0 || !has_char(&h, '.') || parse_ip(&h).is_some() {
        return Err(invalid("domain expected"));
    }
    let k = last_label_start(&h);
    if is_numeric_label(&h, k) {
        return Err(invalid("domain expected"));
    }
    let n = h.len();
    for i in 0..n
        invariant
            n == h@.len(),
            h@ == host_text(query@),
            !names_no_domain(h@),
            forall|j: int| 0 <= j < i ==> is_host_char(#[trigger] h@[j]),
    {
        let c = h[i];
        if !(('0' <= c && c <= '9') || ('a' <= c && c <= 'z') || ('A' <= c && c <= 'Z') || c == '.'
            || c == '-') {
            assert(!is_host_char(h@[i as int]));
            return Err(invalid("invalid characters in domain"));
        }
    }
    Ok(string_of(h.as_slice()))
}

/// The DNS record types asked of Google DNS, in order.
pub open spec fn dns_types() -> Seq<Seq<char>> {
    seq!["A"@, "AAAA"@, "MX"@, "NS"@, "TXT"@]
}

/// The Google DNS URL for record type `t` of host `h`.
pub open spec fn dns_url(h: Seq<char>, t: Seq<char>) -> Seq<char> {
    "https://dns.google/resolve?name="@ + h + "&type="@ + t
}

/// The calls of a DNS lookup of `h`: one per record type, in order.
pub open spec fn dns_calls(c: Seq<Call>, h: Seq<char>) -> bool {
    &&& c.len() == 5
    &&& forall|k: int|
        0 <= k < 5 ==> match #[trigger] c[k] {
            Call::Record(t, u) => t@ == dns_types()[k] && u@ == dns_url(h, dns_types()[k]),
            _ => false,
        }
}

fn record_call(rtype: &'static str, h: &str) -> (c: Call)
    ensures
        c matches Call::Record(t, u) && t == rtype && u@ == dns_url(h@, rtype@),
{
    let mut u = join3("https://dns.google/resolve?name=", h, "&type=");
    u.append(rtype);
    Call::Record(rtype, u)
}

/// The answer to one DNS question holds records: its `Answer` member is a non-empty array.
pub open spec fn dns_answered(shape: Shape) -> bool {
    field(shape, "Answer"@) matches Some(m) && m.items matches Some(n) && n > 0
}

/// Whether the answer to one DNS question holds records.
pub fn has_answer(shape: &Shape) -> (r: bool)
    ensures
        r == dns_answered(*shape),
{
    match shape {
        Shape::Object(ms) => match find_member(ms, "Answer") {
            Some(i) => match ms[i].items {
                Some(n) => n > 0,
                None => false,
            },
            None => false,
        },
        _ => false,
    }
}

/// What stands under a record type in the map of DNS records that a lookup returns.
#[derive(Clone, Copy, Debug, PartialEq, Eq, Structural)]
pub enum RecordEntry {
    /// The `Answer` member of the answer.
    AnswerMember,
    /// An empty array.
    Empty,
}

/// The entry that the reply for one record type puts under that type: none for an error
/// (a type answered with not found is left out, and any other error ends the lookup); for an
/// answer, its `Answer` member where it is an object that has one, and an empty array
/// otherwise.
pub open spec fn dns_entry_of(reply: Reply) -> Option<RecordEntry> {
    match reply {
        Err(_) => None,
        Ok(shape) => Some(
            if field(shape, "Answer"@) is Some {
                RecordEntry::AnswerMember
            } else {
                RecordEntry::Empty
            },
        ),
    }
}

/// The entry that the reply for one record type puts under that type in the map of records.
pub fn dns_entry(reply: &Reply) -> (e: Option<RecordEntry>)
    ensures
        e == dns_entry_of(*reply),
{
    match reply {
        Err(_) => None,
        Ok(shape) => Some(
            if has_field(shape, "Answer") {
                RecordEntry::AnswerMember
            } else {
                RecordEntry::Empty
            },
        ),
    }
}

/// How a DNS lookup goes on after one answer: an error other than not found ends it with
/// that error; after the last record type it ends found or not found; otherwise it goes on,
/// remembering whether some answer held records.
pub open spec fn dns_step(p: Progress, reply: Reply) -> Step {
    match reply {
        Err(OsintError::NotFound) => if p.answered >= 4 {
            Step::Done(if p.found { Ok(()) } else { Err(OsintError::NotFound) })
        } else {
            Step::Next(Progress { answered: (p.answered + 1) as usize, found: p.found })
        },
        Err(e) => Step::Done(Err(e)),
        Ok(shape) => {
            let found = p.found || dns_answered(shape);
            if p.answered >= 4 {
                Step::Done(if found { Ok(()) } else { Err(OsintError::NotFound) })
            } else {
                Step::Next(Progress { answered: (p.answered + 1) as usize, found })
            }
        },
    }
}

/// DNS records of a domain at Google DNS.
pub struct GoogleDns;

/// Certificates of a domain in the crt.sh transparency log.
pub struct CrtSh;

/// Registration of a domain over RDAP.
pub struct Rdap;

/// The status and headers that a domain's web server answers with.
pub struct Headers;

/// What the plan of `GoogleDns` is for `query`.
pub open spec fn googledns_plan(query: Seq<char>, r: Result<Vec<Call>, OsintError>) -> bool {
    &&& names_no_domain(host_text(query)) ==> refused(r, "domain expected"@)
    &&& !names_no_domain(host_text(query)) && !host_chars(host_text(query)) ==> refused(r, "invalid characters in domain"@)
    &&& r matches Ok(c) ==> dns_calls(c@, host_text(query))
    &&& r is Ok <==> host_ok(query)
}

impl Source for GoogleDns {
    fn name(&self) -> (r: &'static str)
        ensures
            r@ == "domain-googledns"@,
    {
        "domain-googledns"
    }

    fn category(&self) -> (r: &'static str)
        ensures
            r@ == "infrastructure"@,
    {
        "infrastructure"
    }

    fn kind(&self) -> (r: &'static str)
        ensures
            r@ == "domain"@,
    {
        "domain"
    }

    fn requires_key(&self) -> (r: bool)
        ensures
            !r,
    {
        false
    }

    fn probe(&self) -> (r: Option<&'static str>)
        ensures
            r matches Some(p) && p@ == "github.com"@,
    {
        Some("github.com")
    }

    fn plan(&self, query: &str) -> (r: Result<Vec<Call>, OsintError>)
        ensures
            googledns_plan(query@, r),
    {
        let h = match host(query) {
            Ok(h) => h,
            Err(e) => {
                return Err(e);
            },
        };
        let mut calls: Vec<Call> = Vec::new();
        calls.push(record_call("A", h.as_str()));
        calls.push(record_call("AAAA", h.as_str()));
        calls.push(record_call("MX", h.as_str()));
        calls.push(record_call("NS", h.as_str()));
        calls.push(record_call("TXT", h.as_str()));
        assert(dns_calls(calls@, host_text(query@)));
        Ok(calls)
    }

    fn step(&self, progress: Progress, reply: Reply) -> (s: Step)
        ensures
            s == dns_step(progress, reply),
    {
        let last = progress.answered >= 4;
        match reply {
            Err(OsintError::NotFound) => {
                if last {
                    Step::Done(if progress.found { Ok(()) } else { Err(OsintError::NotFound) })
                } else {
                    Step::Next(Progress { answered: progress.answered + 1, found: progress.found })
                }
            },
            Err(e) => Step::Done(Err(e)),
            Ok(shape) => {
                let found = progress.found || has_answer(&shape);
                if last {
                    Step::Done(if found { Ok(()) } else { Err(OsintError::NotFound) })
                } else {
                    Step::Next(Progress { answered: progress.answered + 1, found })
                }
            },
        }
    }
}

/// What the plan of `CrtSh` is for `query`.
pub open spec fn crtsh_plan(query: Seq<char>, r: Result<Vec<Call>, OsintError>) -> bool {
    &&& names_no_domain(host_text(query)) ==> refused(r, "domain expected"@)
    &&& !names_no_domain(host_text(query)) && !host_chars(host_text(query)) ==> refused(r, "invalid characters in domain"@)
    &&& host_ok(query) ==> json_plan(r, "https://crt.sh/?q="@ + host_text(query) + "&output=json"@)
}

impl Source for CrtSh {
    fn name(&self) -> (r: &'static str)
        ensures
            r@ == "domain-crtsh"@,
    {
        "domain-crtsh"
    }

    fn category(&self) -> (r: &'static str)
        ensures
            r@ == "infrastructure"@,
    {
        "infrastructure"
    }

    fn kind(&self) -> (r: &'static str)
        ensures
            r@ == "domain"@,
    {
        "domain"
    }

    fn requires_key(&self) -> (r: bool)
        ensures
            !r,
    {
        false
    }

    fn probe(&self) -> (r: Option<&'static str>)
        ensures
            r matches Some(p) && p@ == "github.com"@,
    {
        Some("github.com")
    }

    fn plan(&self, query: &str) -> (r: Result<Vec<Call>, OsintError>)
        ensures
            crtsh_plan(query@, r),
    {
        match host(query) {
            Ok(h) => Ok(one_json_call(join3("https://crt.sh/?q=", h.as_str(), "&output=json"))),
            Err(e) => Err(e),
        }
    }

    fn step(&self, progress: Progress, reply: Reply) -> (s: Step)
        ensures
            s == Step::Done(nonempty_verdict(reply)),
    {
        finish_nonempty(reply)
    }
}

/// What the plan of `Rdap` is for `query`.
pub open spec fn domain_rdap_plan(query: Seq<char>, r: Result<Vec<Call>, OsintError>) -> bool {
    &&& names_no_domain(host_text(query)) ==> refused(r, "domain expected"@)
    &&& !names_no_domain(host_text(query)) && !host_chars(host_text(query)) ==> refused(r, "invalid characters in domain"@)
    &&& host_ok(query) ==> json_plan(r, "https://rdap.org/domain/"@ + host_text(query))
}

impl Source for Rdap {
    fn name(&self) -> (r: &'static str)
        ensures
            r@ == "domain-rdap"@,
    {
        "domain-rdap"
    }

    fn category(&self) -> (r: &'static str)
        ensures
            r@ == "infrastructure"@,
    {
        "infrastructure"
    }

    fn kind(&self) -> (r: &'static str)
        ensures
            r@ == "domain"@,
    {
        "domain"
    }

    fn requires_key(&self) -> (r: bool)
        ensures
            !r,
    {
        false
    }

    fn probe(&self) -> (r: Option<&'static str>)
        ensures
            r matches Some(p) && p@ == "github.com"@,
    {
        Some("github.com")
    }

    fn plan(&self, query: &str) -> (r: Result<Vec<Call>, OsintError>)
        ensures
            domain_rdap_plan(query@, r),
    {
        match host(query) {
            Ok(h) => Ok(one_json_call(join2("https://rdap.org/domain/", h.as_str()))),
            Err(e) => Err(e),
        }
    }

    fn step(&self, progress: Progress, reply: Reply) -> (s: Step)
        ensures
            s == Step::Done(plain_verdict(reply)),
    {
        finish_plain(reply)
    }
}

/// What the plan of `Headers` is for `query`.
pub open spec fn headers_plan(query: Seq<char>, r: Result<Vec<Call>, OsintError>) -> bool {
    &&& names_no_domain(host_text(query)) ==> refused(r, "domain expected"@)
    &&& !names_no_domain(host_text(query)) && !host_chars(host_text(query)) ==> refused(r, "invalid characters in domain"@)
    &&& host_ok(query) ==> r is Ok
    &&& r matches Ok(c) ==> c@.len() == 1 && (c@[0] matches Call::Head(u) && u@ == "https://"@ + host_text(query))
}

impl Source for Headers {
    fn name(&self) -> (r: &'static str)
        ensures
            r@ == "domain-headers"@,
    {
        "domain-headers"
    }

    fn category(&self) -> (r: &'static str)
        ensures
            r@ == "infrastructure"@,
    {
        "infrastructure"
    }

    fn kind(&self) -> (r: &'static str)
        ensures
            r@ == "domain"@,
    {
        "domain"
    }

    fn requires_key(&self) -> (r: bool)
        ensures
            !r,
    {
        false
    }

    fn probe(&self) -> (r: Option<&'static str>)
        ensures
            r matches Some(p) && p@ == "github.com"@,
    {
        Some("github.com")
    }

    fn plan(&self, query: &str) -> (r: Result<Vec<Call>, OsintError>)
        ensures
            headers_plan(query@, r),
    {
        match host(query) {
            Ok(h) => {
                let mut calls: Vec<Call> = Vec::new();
                calls.push(Call::Head(join2("https://", h.as_str())));
                Ok(calls)
            },
            Err(e) => Err(e),
        }
    }

    fn step(&self, progress: Progress, reply: Reply) -> (s: Step)
        ensures
            s == Step::Done(plain_verdict(reply)),
    {
        finish_plain(reply)
    }
}

/// Runs the DNS steps over `replies`, in order, from `p`: where the lookup stands after them.
pub open spec fn dns_run(p: Progress, replies: Seq<Reply>) -> Step
    decreases replies.len(),
{
    if replies.len() == 0 {
        Step::Next(p)
    } else {
        match dns_step(p, replies[0]) {
            Step::Next(q) => dns_run(q, replies.drop_first()),
            done => done,
        }
    }
}

/// The reply at `i` is an error other than not found.
pub open spec fn failure_at(rs: Seq<Reply>, i: int) -> bool {
    0 <= i < rs.len() && (rs[i] matches Err(e) && !(e is NotFound))
}

/// The reply at `i` is an answer that holds records.
pub open spec fn answered_at(rs: Seq<Reply>, i: int) -> bool {
    0 <= i < rs.len() && (rs[i] matches Ok(shape) && dns_answered(shape))
}

/// Where the first failure stands.
pub open spec fn first_failure(rs: Seq<Reply>) -> int {
    choose|i: int| failure_at(rs, i) && forall|j: int| 0 <= j < i ==> !failure_at(rs, j)
}

/// The error of a reply, as a verdict.
pub open spec fn error_of(r: Reply) -> Result<(), OsintError> {
    match r {
        Err(e) => Err(e),
        Ok(_) => Ok(()),
    }
}

/// The verdict that the replies call for: the first error other than not found; else
/// records found, by an earlier answer or one of these; else not found.
pub open spec fn dns_expected(found: bool, rs: Seq<Reply>) -> Step {
    if exists|i: int| failure_at(rs, i) {
        Step::Done(error_of(rs[first_failure(rs)]))
    } else if found || exists|i: int| answered_at(rs, i) {
        Step::Done(Ok(()))
    } else {
        Step::Done(Err(OsintError::NotFound))
    }
}

proof fn lemma_first_failure_is(rs: Seq<Reply>, i: int)
    requires
        failure_at(rs, i),
        forall|j: int| 0 <= j < i ==> !failure_at(rs, j),
    ensures
        first_failure(rs) == i,
{
    let k = first_failure(rs);
    assert(failure_at(rs, k) && forall|j: int| 0 <= j < k ==> !failure_at(rs, j));
    if k < i {
        assert(!failure_at(rs, k));
    }
    if k > i {
        assert(!failure_at(rs, i));
    }
}

proof fn lemma_dns_run_from(p: Progress, rs: Seq<Reply>)
    requires
        rs.len() >= 1,
        p.answered + rs.len() == 5,
    ensures
        dns_run(p, rs) == dns_expected(p.found, rs),
    decreases rs.len(),
{
    let r0 = rs[0];
    let rest = rs.drop_first();
    if failure_at(rs, 0) {
        lemma_first_failure_is(rs, 0);
        assert(dns_step(p, r0) == Step::Done(error_of(r0)));
    } else {
        let found = p.found || answered_at(rs, 0);
        if p.answered >= 4 {
            assert(rs.len() == 1);
            assert forall|i: int| !failure_at(rs, i) by {}
            if found {
            } else {
                assert forall|i: int| !answered_at(rs, i) by {}
            }
        } else {
            let q = Progress { answered: (p.answered + 1) as usize, found };
            assert(dns_step(p, r0) == Step::Next(q));
            lemma_dns_run_from(q, rest);
            assert forall|i: int| failure_at(rest, i) <==> failure_at(rs, i + 1) by {
                if 0 <= i < rest.len() {
                    assert(rest[i] == rs[i + 1]);
                }
            }
            assert forall|i: int| 0 <= i implies answered_at(rest, i) <==> answered_at(rs, i + 1) by {
                if 0 <= i < rest.len() {
                    assert(rest[i] == rs[i + 1]);
                }
            }
            if exists|i: int| failure_at(rs, i) {
                let i = first_failure(rs);
                assert(failure_at(rs, i) && forall|j: int| 0 <= j < i ==> !failure_at(rs, j));
                assert(i >= 1);
                assert(failure_at(rest, i - 1));
                assert forall|j: int| 0 <= j < i - 1 implies !failure_at(rest, j) by {
                    assert(!failure_at(rs, j + 1));
                }
                lemma_first_failure_is(rest, i - 1);
                assert(rest[i - 1] == rs[i]);
            } else {
                assert forall|i: int| !failure_at(rest, i) by {
                    assert(!failure_at(rs, i + 1));
                }
                if found || exists|i: int| answered_at(rest, i) {
                    if !found {
                        let i = choose|i: int| answered_at(rest, i);
                        assert(answered_at(rs, i + 1));
                    }
                } else {
                    assert forall|i: int| !answered_at(rs, i) by {
                        if i >= 1 {
                            assert(!answered_at(rest, i - 1));
                        }
                    }
                }
            }
        }
    }
}

/// A DNS lookup over the answers to its five record types ends with the first error other
/// than not found, and asks nothing after it; failing that, it has found records exactly when
/// one answer holds some, and ends not found otherwise.
pub proof fn lemma_dns_lookup_verdict(rs: Seq<Reply>)
    requires
        rs.len() == 5,
    ensures
        dns_run(Progress { answered: 0, found: false }, rs) == dns_expected(false, rs),
        forall|i: int|
            #![trigger rs.take(i + 1)]
            failure_at(rs, i) && (forall|j: int| 0 <= j < i ==> !failure_at(rs, j)) ==> dns_run(
                Progress { answered: 0, found: false },
                rs.take(i + 1),
            ) == Step::Done(error_of(rs[i])),
{
    lemma_dns_run_from(Progress { answered: 0, found: false }, rs);
    assert forall|i: int|
        #![trigger rs.take(i + 1)]
        failure_at(rs, i) && (forall|j: int| 0 <= j < i ==> !failure_at(rs, j)) implies dns_run(
            Progress { answered: 0, found: false },
            rs.take(i + 1),
        ) == Step::Done(error_of(rs[i])) by {
        let t = rs.take(i + 1);
        assert forall|j: int| 0 <= j < i implies !failure_at(t, j) by {
            assert(t[j] == rs[j]);
            assert(!failure_at(rs, j));
        }
        assert(t[i] == rs[i]);
        lemma_dns_stops_at_failure(Progress { answered: 0, found: false }, rs.take(i + 1), i);
    }
}

proof fn lemma_dns_stops_at_failure(p: Progress, rs: Seq<Reply>, i: int)
    requires
        i == rs.len() - 1,
        failure_at(rs, i),
        forall|j: int| 0 <= j < i ==> !failure_at(rs, j),
        p.answered + rs.len() <= 5,
    ensures
        dns_run(p, rs) == Step::Done(error_of(rs[i])),
    decreases rs.len(),
{
    if i > 0 {
        let r0 = rs[0];
        assert(!failure_at(rs, 0));
        let found = p.found || answered_at(rs, 0);
        let q = Progress { answered: (p.answered + 1) as usize, found };
        assert(dns_step(p, r0) == Step::Next(q));
        let rest = rs.drop_first();
        assert forall|j: int| 0 <= j < i - 1 implies !failure_at(rest, j) by {
            assert(rest[j] == rs[j + 1]);
            assert(!failure_at(rs, j + 1));
        }
        assert(rest[i - 1] == rs[i]);
        lemma_dns_stops_at_failure(q, rest, i - 1);
    }
}

} // verus!

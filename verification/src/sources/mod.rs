use vstd::prelude::*;
use crate::error::{invalid, OsintError};
use crate::source::{is_empty_array, Call, Progress, Reply, Shape, Source, Step};
use crate::util::{ascii_upper_text, digits, digits_of, is_ascii_text, lemma_ascii_upper_keeps, lemma_digits_of_all_digits, lemma_filter_keeps_all, lemma_trim_plain, trim, trim_dots};
use crate::ipaddr::{dec_number, fields, has_double_colon, ip_literal, is_group, is_octet, lemma_fields_push_piece, lemma_fields_single};

pub mod banks;
pub mod cep;
pub mod cnpj;
pub mod currency;
pub mod ddd;
pub mod domain;
pub mod ibge;
pub mod ip;
pub mod refs;

verus! {

/// `a`, `b` and `c` written one after the other.
pub fn join3(a: &str, b: &str, c: &str) -> (r: String)
    ensures
        r@ == a@ + b@ + c@,
{
    let mut r = String::from_str(a);
    r.append(b);
    r.append(c);
    r
}

/// `a` and `b` written one after the other.
pub fn join2(a: &str, b: &str) -> (r: String)
    ensures
        r@ == a@ + b@,
{
    let mut r = String::from_str(a);
    r.append(b);
    r
}

/// The digits of `query`, if there are exactly `count` of them; else the query is refused
/// with message `msg`.
pub fn digits_exactly(query: &str, count: usize, msg: &str) -> (r: Result<String, OsintError>)
    ensures
        digits_of(query@).len() == count ==> (r matches Ok(d) && d@ == digits_of(query@)),
        digits_of(query@).len() != count ==> refused(r, msg@),
{
    let d = digits(query);
    if d.as_str().unicode_len() != count {
        return Err(invalid(msg));
    }
    Ok(d)
}

/// The digits of `query`, if there is at least one; else the query is refused with `msg`.
pub fn some_digits(query: &str, msg: &str) -> (r: Result<String, OsintError>)
    ensures
        digits_of(query@).len() > 0 ==> (r matches Ok(d) && d@ == digits_of(query@)),
        digits_of(query@).len() == 0 ==> refused(r, msg@),
{
    let d = digits(query);
    if d.as_str().unicode_len() == 0 {
        return Err(invalid(msg));
    }
    Ok(d)
}

/// A plan of one JSON call to `url`.
pub fn one_json_call(url: String) -> (r: Vec<Call>)
    ensures
        r@.len() == 1,
        r@[0] == Call::Json(url),
{
    let mut r: Vec<Call> = Vec::new();
    r.push(Call::Json(url));
    r
}

/// A plan of exactly one JSON call, to `url`.
pub open spec fn json_plan(r: Result<Vec<Call>, OsintError>, url: Seq<char>) -> bool {
    match r {
        Ok(c) => c@.len() == 1 && match c@[0] {
            Call::Json(u) => u@ == url,
            _ => false,
        },
        Err(_) => false,
    }
}

/// The query refused as invalid, with message `msg`.
pub open spec fn refused<T>(r: Result<T, OsintError>, msg: Seq<char>) -> bool {
    match r {
        Err(OsintError::Invalid(m)) => m@ == msg,
        _ => false,
    }
}

/// The verdict on the single reply of a lookup whose answer is taken as it comes.
pub open spec fn plain_verdict(reply: Reply) -> Result<(), OsintError> {
    match reply {
        Err(e) => Err(e),
        Ok(_) => Ok(()),
    }
}

/// Stops on the reply to a single call: its error, or success.
pub fn finish_plain(reply: Reply) -> (s: Step)
    ensures
        s == Step::Done(plain_verdict(reply)),
{
    match reply {
        Err(e) => Step::Done(Err(e)),
        Ok(_) => Step::Done(Ok(())),
    }
}


/// The verdict of a lookup whose answer, when an empty array, means that nothing was found.
pub open spec fn nonempty_verdict(reply: Reply) -> Result<(), OsintError> {
    match reply {
        Err(e) => Err(e),
        Ok(shape) => if shape matches Shape::Array(n) && n == 0 {
            Err(OsintError::NotFound)
        } else {
            Ok(())
        },
    }
}

/// Stops on the reply to a single call: its error, not found for an empty array, or success.
pub fn finish_nonempty(reply: Reply) -> (s: Step)
    ensures
        s == Step::Done(nonempty_verdict(reply)),
{
    match reply {
        Err(e) => Step::Done(Err(e)),
        Ok(shape) => {
            if is_empty_array(&shape) {
                Step::Done(Err(OsintError::NotFound))
            } else {
                Step::Done(Ok(()))
            }
        },
    }
}

/// An ASCII letter, as `char::is_ascii_alphabetic` decides.
pub open spec fn is_ascii_alpha(c: char) -> bool {
    ('a' <= c && c <= 'z') || ('A' <= c && c <= 'Z')
}

/// Whether every character of `s` is an ASCII letter.
pub fn all_ascii_alpha(s: &Vec<char>) -> (r: bool)
    ensures
        r == forall|i: int| 0 <= i < s@.len() ==> is_ascii_alpha(#[trigger] s@[i]),
{
    let n = s.len();
    for i in 0..n
        invariant
            n == s@.len(),
            forall|j: int| 0 <= j < i ==> is_ascii_alpha(#[trigger] s@[j]),
    {
        let c = s[i];
        if !(('a' <= c && c <= 'z') || ('A' <= c && c <= 'Z')) {
            assert(!is_ascii_alpha(s@[i as int]));
            return false;
        }
    }
    true
}


/// Any of the registered sources.
#[derive(Clone, Copy, Debug, PartialEq, Eq)]
pub enum AnySource {
    CnpjBrasilApi,
    CnpjMinhaReceita,
    CepViaCep,
    CepBrasilApi,
    DddBrasilApi,
    BankBrasilApi,
    DomainGoogleDns,
    DomainCrtSh,
    DomainRdap,
    DomainHeaders,
    IpApi,
    IpInternetDb,
    IpRdap,
    CurrencyAwesomeApi,
    IbgeMunicipios,
    Holidays,
    Isbn,
    Ncm,
}

impl AnySource {
    /// The source's name.
    pub open spec fn spec_name(self) -> Seq<char> {
        match self {
            AnySource::CnpjBrasilApi => "cnpj-brasilapi"@,
            AnySource::CnpjMinhaReceita => "cnpj-minhareceita"@,
            AnySource::CepViaCep => "cep-viacep"@,
            AnySource::CepBrasilApi => "cep-brasilapi"@,
            AnySource::DddBrasilApi => "ddd-brasilapi"@,
            AnySource::BankBrasilApi => "bank-brasilapi"@,
            AnySource::DomainGoogleDns => "domain-googledns"@,
            AnySource::DomainCrtSh => "domain-crtsh"@,
            AnySource::DomainRdap => "domain-rdap"@,
            AnySource::DomainHeaders => "domain-headers"@,
            AnySource::IpApi => "ip-ipapi"@,
            AnySource::IpInternetDb => "ip-internetdb"@,
            AnySource::IpRdap => "ip-rdap"@,
            AnySource::CurrencyAwesomeApi => "currency-awesomeapi"@,
            AnySource::IbgeMunicipios => "ibge-municipios"@,
            AnySource::Holidays => "holidays-brasilapi"@,
            AnySource::Isbn => "isbn-brasilapi"@,
            AnySource::Ncm => "ncm-brasilapi"@,
        }
    }

    /// The category of records it serves.
    pub open spec fn spec_category(self) -> Seq<char> {
        match self {
            AnySource::CnpjBrasilApi => "corporate"@,
            AnySource::CnpjMinhaReceita => "corporate"@,
            AnySource::CepViaCep => "address"@,
            AnySource::CepBrasilApi => "address"@,
            AnySource::DddBrasilApi => "telecom"@,
            AnySource::BankBrasilApi => "financial"@,
            AnySource::DomainGoogleDns => "infrastructure"@,
            AnySource::DomainCrtSh => "infrastructure"@,
            AnySource::DomainRdap => "infrastructure"@,
            AnySource::DomainHeaders => "infrastructure"@,
            AnySource::IpApi => "geo"@,
            AnySource::IpInternetDb => "infrastructure"@,
            AnySource::IpRdap => "infrastructure"@,
            AnySource::CurrencyAwesomeApi => "financial"@,
            AnySource::IbgeMunicipios => "geo"@,
            AnySource::Holidays => "reference"@,
            AnySource::Isbn => "reference"@,
            AnySource::Ncm => "reference"@,
        }
    }

    /// The kind of query it answers.
    pub open spec fn spec_kind(self) -> Seq<char> {
        match self {
            AnySource::CnpjBrasilApi => "cnpj"@,
            AnySource::CnpjMinhaReceita => "cnpj"@,
            AnySource::CepViaCep => "cep"@,
            AnySource::CepBrasilApi => "cep"@,
            AnySource::DddBrasilApi => "ddd"@,
            AnySource::BankBrasilApi => "bank"@,
            AnySource::DomainGoogleDns => "domain"@,
            AnySource::DomainCrtSh => "domain"@,
            AnySource::DomainRdap => "domain"@,
            AnySource::DomainHeaders => "domain"@,
            AnySource::IpApi => "ip"@,
            AnySource::IpInternetDb => "ip"@,
            AnySource::IpRdap => "ip"@,
            AnySource::CurrencyAwesomeApi => "currency"@,
            AnySource::IbgeMunicipios => "uf"@,
            AnySource::Holidays => "holidays"@,
            AnySource::Isbn => "isbn"@,
            AnySource::Ncm => "ncm"@,
        }
    }

    /// The query it is probed with.
    pub open spec fn spec_probe(self) -> Seq<char> {
        match self {
            AnySource::CnpjBrasilApi => "00000000000191"@,
            AnySource::CnpjMinhaReceita => "00000000000191"@,
            AnySource::CepViaCep => "01310100"@,
            AnySource::CepBrasilApi => "01310100"@,
            AnySource::DddBrasilApi => "21"@,
            AnySource::BankBrasilApi => "001"@,
            AnySource::DomainGoogleDns => "github.com"@,
            AnySource::DomainCrtSh => "github.com"@,
            AnySource::DomainRdap => "github.com"@,
            AnySource::DomainHeaders => "github.com"@,
            AnySource::IpApi => "8.8.8.8"@,
            AnySource::IpInternetDb => "8.8.8.8"@,
            AnySource::IpRdap => "8.8.8.8"@,
            AnySource::CurrencyAwesomeApi => "USD-BRL"@,
            AnySource::IbgeMunicipios => "RJ"@,
            AnySource::Holidays => "2025"@,
            AnySource::Isbn => "9788535902778"@,
            AnySource::Ncm => "33030010"@,
        }
    }

    /// What its plan for `query` is.
    pub open spec fn planned(self, query: Seq<char>, r: Result<Vec<Call>, OsintError>) -> bool {
        match self {
            AnySource::CnpjBrasilApi => cnpj::cnpj_plan(query, "https://brasilapi.com.br/api/cnpj/v1/"@, r),
            AnySource::CnpjMinhaReceita => cnpj::cnpj_plan(query, "https://minhareceita.org/"@, r),
            AnySource::CepViaCep => cep::viacep_plan(query, r),
            AnySource::CepBrasilApi => cep::cep_brasilapi_plan(query, r),
            AnySource::DddBrasilApi => ddd::ddd_plan(query, r),
            AnySource::BankBrasilApi => banks::bank_plan(query, r),
            AnySource::DomainGoogleDns => domain::googledns_plan(query, r),
            AnySource::DomainCrtSh => domain::crtsh_plan(query, r),
            AnySource::DomainRdap => domain::domain_rdap_plan(query, r),
            AnySource::DomainHeaders => domain::headers_plan(query, r),
            AnySource::IpApi => ip::ip_plan(query, "http://ip-api.com/json/"@, r),
            AnySource::IpInternetDb => ip::ip_plan(query, "https://internetdb.shodan.io/"@, r),
            AnySource::IpRdap => ip::ip_plan(query, "https://rdap.org/ip/"@, r),
            AnySource::CurrencyAwesomeApi => currency::currency_plan(query, r),
            AnySource::IbgeMunicipios => ibge::municipios_plan(query, r),
            AnySource::Holidays => refs::holidays_plan(query, r),
            AnySource::Isbn => refs::isbn_plan(query, r),
            AnySource::Ncm => refs::ncm_plan(query, r),
        }
    }

    /// How it goes on after a reply.
    pub open spec fn stepped(self, progress: Progress, reply: Reply) -> Step {
        match self {
            AnySource::CnpjBrasilApi => Step::Done(plain_verdict(reply)),
            AnySource::CnpjMinhaReceita => Step::Done(plain_verdict(reply)),
            AnySource::CepViaCep => Step::Done(cep::viacep_verdict(reply)),
            AnySource::CepBrasilApi => Step::Done(plain_verdict(reply)),
            AnySource::DddBrasilApi => Step::Done(plain_verdict(reply)),
            AnySource::BankBrasilApi => Step::Done(plain_verdict(reply)),
            AnySource::DomainGoogleDns => domain::dns_step(progress, reply),
            AnySource::DomainCrtSh => Step::Done(nonempty_verdict(reply)),
            AnySource::DomainRdap => Step::Done(plain_verdict(reply)),
            AnySource::DomainHeaders => Step::Done(plain_verdict(reply)),
            AnySource::IpApi => Step::Done(ip::ipapi_verdict(reply)),
            AnySource::IpInternetDb => Step::Done(plain_verdict(reply)),
            AnySource::IpRdap => Step::Done(plain_verdict(reply)),
            AnySource::CurrencyAwesomeApi => Step::Done(plain_verdict(reply)),
            AnySource::IbgeMunicipios => Step::Done(nonempty_verdict(reply)),
            AnySource::Holidays => Step::Done(plain_verdict(reply)),
            AnySource::Isbn => Step::Done(plain_verdict(reply)),
            AnySource::Ncm => Step::Done(plain_verdict(reply)),
        }
    }

    /// A unique name for the source.
    pub fn name(&self) -> (r: &'static str)
        ensures
            r@ == self.spec_name(),
    {
        match self {
            AnySource::CnpjBrasilApi => cnpj::BrasilApi.name(),
            AnySource::CnpjMinhaReceita => cnpj::MinhaReceita.name(),
            AnySource::CepViaCep => cep::ViaCep.name(),
            AnySource::CepBrasilApi => cep::BrasilApi.name(),
            AnySource::DddBrasilApi => ddd::BrasilApi.name(),
            AnySource::BankBrasilApi => banks::BrasilApi.name(),
            AnySource::DomainGoogleDns => domain::GoogleDns.name(),
            AnySource::DomainCrtSh => domain::CrtSh.name(),
            AnySource::DomainRdap => domain::Rdap.name(),
            AnySource::DomainHeaders => domain::Headers.name(),
            AnySource::IpApi => ip::IpApi.name(),
            AnySource::IpInternetDb => ip::InternetDb.name(),
            AnySource::IpRdap => ip::Rdap.name(),
            AnySource::CurrencyAwesomeApi => currency::AwesomeApi.name(),
            AnySource::IbgeMunicipios => ibge::Municipios.name(),
            AnySource::Holidays => refs::Holidays.name(),
            AnySource::Isbn => refs::Isbn.name(),
            AnySource::Ncm => refs::Ncm.name(),
        }
    }

    /// The category of records it serves.
    pub fn category(&self) -> (r: &'static str)
        ensures
            r@ == self.spec_category(),
    {
        match self {
            AnySource::CnpjBrasilApi => cnpj::BrasilApi.category(),
            AnySource::CnpjMinhaReceita => cnpj::MinhaReceita.category(),
            AnySource::CepViaCep => cep::ViaCep.category(),
            AnySource::CepBrasilApi => cep::BrasilApi.category(),
            AnySource::DddBrasilApi => ddd::BrasilApi.category(),
            AnySource::BankBrasilApi => banks::BrasilApi.category(),
            AnySource::DomainGoogleDns => domain::GoogleDns.category(),
            AnySource::DomainCrtSh => domain::CrtSh.category(),
            AnySource::DomainRdap => domain::Rdap.category(),
            AnySource::DomainHeaders => domain::Headers.category(),
            AnySource::IpApi => ip::IpApi.category(),
            AnySource::IpInternetDb => ip::InternetDb.category(),
            AnySource::IpRdap => ip::Rdap.category(),
            AnySource::CurrencyAwesomeApi => currency::AwesomeApi.category(),
            AnySource::IbgeMunicipios => ibge::Municipios.category(),
            AnySource::Holidays => refs::Holidays.category(),
            AnySource::Isbn => refs::Isbn.category(),
            AnySource::Ncm => refs::Ncm.category(),
        }
    }

    /// The kind of query it answers.
    pub fn kind(&self) -> (r: &'static str)
        ensures
            r@ == self.spec_kind(),
    {
        match self {
            AnySource::CnpjBrasilApi => cnpj::BrasilApi.kind(),
            AnySource::CnpjMinhaReceita => cnpj::MinhaReceita.kind(),
            AnySource::CepViaCep => cep::ViaCep.kind(),
            AnySource::CepBrasilApi => cep::BrasilApi.kind(),
            AnySource::DddBrasilApi => ddd::BrasilApi.kind(),
            AnySource::BankBrasilApi => banks::BrasilApi.kind(),
            AnySource::DomainGoogleDns => domain::GoogleDns.kind(),
            AnySource::DomainCrtSh => domain::CrtSh.kind(),
            AnySource::DomainRdap => domain::Rdap.kind(),
            AnySource::DomainHeaders => domain::Headers.kind(),
            AnySource::IpApi => ip::IpApi.kind(),
            AnySource::IpInternetDb => ip::InternetDb.kind(),
            AnySource::IpRdap => ip::Rdap.kind(),
            AnySource::CurrencyAwesomeApi => currency::AwesomeApi.kind(),
            AnySource::IbgeMunicipios => ibge::Municipios.kind(),
            AnySource::Holidays => refs::Holidays.kind(),
            AnySource::Isbn => refs::Isbn.kind(),
            AnySource::Ncm => refs::Ncm.kind(),
        }
    }

    /// Whether it needs an access key: none of the registered sources does.
    pub fn requires_key(&self) -> (r: bool)
        ensures
            !r,
    {
        match self {
            AnySource::CnpjBrasilApi => cnpj::BrasilApi.requires_key(),
            AnySource::CnpjMinhaReceita => cnpj::MinhaReceita.requires_key(),
            AnySource::CepViaCep => cep::ViaCep.requires_key(),
            AnySource::CepBrasilApi => cep::BrasilApi.requires_key(),
            AnySource::DddBrasilApi => ddd::BrasilApi.requires_key(),
            AnySource::BankBrasilApi => banks::BrasilApi.requires_key(),
            AnySource::DomainGoogleDns => domain::GoogleDns.requires_key(),
            AnySource::DomainCrtSh => domain::CrtSh.requires_key(),
            AnySource::DomainRdap => domain::Rdap.requires_key(),
            AnySource::DomainHeaders => domain::Headers.requires_key(),
            AnySource::IpApi => ip::IpApi.requires_key(),
            AnySource::IpInternetDb => ip::InternetDb.requires_key(),
            AnySource::IpRdap => ip::Rdap.requires_key(),
            AnySource::CurrencyAwesomeApi => currency::AwesomeApi.requires_key(),
            AnySource::IbgeMunicipios => ibge::Municipios.requires_key(),
            AnySource::Holidays => refs::Holidays.requires_key(),
            AnySource::Isbn => refs::Isbn.requires_key(),
            AnySource::Ncm => refs::Ncm.requires_key(),
        }
    }

    /// The query known to be answered, used to tell whether it is reachable.
    pub fn probe(&self) -> (r: Option<&'static str>)
        ensures
            r matches Some(p) && p@ == self.spec_probe(),
    {
        match self {
            AnySource::CnpjBrasilApi => cnpj::BrasilApi.probe(),
            AnySource::CnpjMinhaReceita => cnpj::MinhaReceita.probe(),
            AnySource::CepViaCep => cep::ViaCep.probe(),
            AnySource::CepBrasilApi => cep::BrasilApi.probe(),
            AnySource::DddBrasilApi => ddd::BrasilApi.probe(),
            AnySource::BankBrasilApi => banks::BrasilApi.probe(),
            AnySource::DomainGoogleDns => domain::GoogleDns.probe(),
            AnySource::DomainCrtSh => domain::CrtSh.probe(),
            AnySource::DomainRdap => domain::Rdap.probe(),
            AnySource::DomainHeaders => domain::Headers.probe(),
            AnySource::IpApi => ip::IpApi.probe(),
            AnySource::IpInternetDb => ip::InternetDb.probe(),
            AnySource::IpRdap => ip::Rdap.probe(),
            AnySource::CurrencyAwesomeApi => currency::AwesomeApi.probe(),
            AnySource::IbgeMunicipios => ibge::Municipios.probe(),
            AnySource::Holidays => refs::Holidays.probe(),
            AnySource::Isbn => refs::Isbn.probe(),
            AnySource::Ncm => refs::Ncm.probe(),
        }
    }

    /// The calls to make for `query`, in order, or why the query is refused.
    pub fn plan(&self, query: &str) -> (r: Result<Vec<Call>, OsintError>)
        ensures
            self.planned(query@, r),
    {
        match self {
            AnySource::CnpjBrasilApi => cnpj::BrasilApi.plan(query),
            AnySource::CnpjMinhaReceita => cnpj::MinhaReceita.plan(query),
            AnySource::CepViaCep => cep::ViaCep.plan(query),
            AnySource::CepBrasilApi => cep::BrasilApi.plan(query),
            AnySource::DddBrasilApi => ddd::BrasilApi.plan(query),
            AnySource::BankBrasilApi => banks::BrasilApi.plan(query),
            AnySource::DomainGoogleDns => domain::GoogleDns.plan(query),
            AnySource::DomainCrtSh => domain::CrtSh.plan(query),
            AnySource::DomainRdap => domain::Rdap.plan(query),
            AnySource::DomainHeaders => domain::Headers.plan(query),
            AnySource::IpApi => ip::IpApi.plan(query),
            AnySource::IpInternetDb => ip::InternetDb.plan(query),
            AnySource::IpRdap => ip::Rdap.plan(query),
            AnySource::CurrencyAwesomeApi => currency::AwesomeApi.plan(query),
            AnySource::IbgeMunicipios => ibge::Municipios.plan(query),
            AnySource::Holidays => refs::Holidays.plan(query),
            AnySource::Isbn => refs::Isbn.plan(query),
            AnySource::Ncm => refs::Ncm.plan(query),
        }
    }

    /// After the reply to the next call of the plan: go on, or stop with a verdict.
    pub fn step(&self, progress: Progress, reply: Reply) -> (s: Step)
        ensures
            s == self.stepped(progress, reply),
    {
        match self {
            AnySource::CnpjBrasilApi => cnpj::BrasilApi.step(progress, reply),
            AnySource::CnpjMinhaReceita => cnpj::MinhaReceita.step(progress, reply),
            AnySource::CepViaCep => cep::ViaCep.step(progress, reply),
            AnySource::CepBrasilApi => cep::BrasilApi.step(progress, reply),
            AnySource::DddBrasilApi => ddd::BrasilApi.step(progress, reply),
            AnySource::BankBrasilApi => banks::BrasilApi.step(progress, reply),
            AnySource::DomainGoogleDns => domain::GoogleDns.step(progress, reply),
            AnySource::DomainCrtSh => domain::CrtSh.step(progress, reply),
            AnySource::DomainRdap => domain::Rdap.step(progress, reply),
            AnySource::DomainHeaders => domain::Headers.step(progress, reply),
            AnySource::IpApi => ip::IpApi.step(progress, reply),
            AnySource::IpInternetDb => ip::InternetDb.step(progress, reply),
            AnySource::IpRdap => ip::Rdap.step(progress, reply),
            AnySource::CurrencyAwesomeApi => currency::AwesomeApi.step(progress, reply),
            AnySource::IbgeMunicipios => ibge::Municipios.step(progress, reply),
            AnySource::Holidays => refs::Holidays.step(progress, reply),
            AnySource::Isbn => refs::Isbn.step(progress, reply),
            AnySource::Ncm => refs::Ncm.step(progress, reply),
        }
    }
}

/// Every registered source, in order.
pub open spec fn registry() -> Seq<AnySource> {
    seq![
        AnySource::CnpjBrasilApi,
        AnySource::CnpjMinhaReceita,
        AnySource::CepViaCep,
        AnySource::CepBrasilApi,
        AnySource::DddBrasilApi,
        AnySource::BankBrasilApi,
        AnySource::DomainGoogleDns,
        AnySource::DomainCrtSh,
        AnySource::DomainRdap,
        AnySource::DomainHeaders,
        AnySource::IpApi,
        AnySource::IpInternetDb,
        AnySource::IpRdap,
        AnySource::CurrencyAwesomeApi,
        AnySource::IbgeMunicipios,
        AnySource::Holidays,
        AnySource::Isbn,
        AnySource::Ncm,
    ]
}

/// Every registered source.
pub fn all() -> (r: Vec<AnySource>)
    ensures
        r@ == registry(),
{
    let r = vec![
        AnySource::CnpjBrasilApi,
        AnySource::CnpjMinhaReceita,
        AnySource::CepViaCep,
        AnySource::CepBrasilApi,
        AnySource::DddBrasilApi,
        AnySource::BankBrasilApi,
        AnySource::DomainGoogleDns,
        AnySource::DomainCrtSh,
        AnySource::DomainRdap,
        AnySource::DomainHeaders,
        AnySource::IpApi,
        AnySource::IpInternetDb,
        AnySource::IpRdap,
        AnySource::CurrencyAwesomeApi,
        AnySource::IbgeMunicipios,
        AnySource::Holidays,
        AnySource::Isbn,
        AnySource::Ncm,
    ];
    assert(r@ =~= registry());
    r
}

/// Different sources have different names.
pub proof fn lemma_names_tell_sources_apart(a: AnySource, b: AnySource)
    ensures
        a != b ==> a.spec_name() != b.spec_name(),
{
    reveal_strlit("cnpj-brasilapi");
    reveal_strlit("cnpj-minhareceita");
    reveal_strlit("cep-viacep");
    reveal_strlit("cep-brasilapi");
    reveal_strlit("ddd-brasilapi");
    reveal_strlit("bank-brasilapi");
    reveal_strlit("domain-googledns");
    reveal_strlit("domain-crtsh");
    reveal_strlit("domain-rdap");
    reveal_strlit("domain-headers");
    reveal_strlit("ip-ipapi");
    reveal_strlit("ip-internetdb");
    reveal_strlit("ip-rdap");
    reveal_strlit("currency-awesomeapi");
    reveal_strlit("ibge-municipios");
    reveal_strlit("holidays-brasilapi");
    reveal_strlit("isbn-brasilapi");
    reveal_strlit("ncm-brasilapi");
    if a != b && a.spec_name() == b.spec_name() {
        assert(a.spec_name().len() == b.spec_name().len());
        assert(a.spec_name()[0] == b.spec_name()[0]);
    }
}

/// No two registered sources share a name.
pub proof fn lemma_source_names_unique()
    ensures
        forall|i: int, j: int|
            0 <= i < registry().len() && 0 <= j < registry().len() && i != j ==> (
            #[trigger] registry()[i]).spec_name() != (#[trigger] registry()[j]).spec_name(),
{
    assert forall|i: int, j: int|
        0 <= i < registry().len() && 0 <= j < registry().len() && i != j implies (
        #[trigger] registry()[i]).spec_name() != (#[trigger] registry()[j]).spec_name() by {
        assert(registry()[i] != registry()[j]);
        lemma_names_tell_sources_apart(registry()[i], registry()[j]);
    }
}

/// Every registered source has a probe query and a kind that is not empty.
pub proof fn lemma_sources_probe_and_kind()
    ensures
        forall|i: int|
            0 <= i < registry().len() ==> (#[trigger] registry()[i]).spec_kind().len() > 0,
{
    reveal_strlit("cnpj");
    reveal_strlit("cep");
    reveal_strlit("ddd");
    reveal_strlit("bank");
    reveal_strlit("domain");
    reveal_strlit("ip");
    reveal_strlit("currency");
    reveal_strlit("uf");
    reveal_strlit("holidays");
    reveal_strlit("isbn");
    reveal_strlit("ncm");
}

/// The domain probe passes the host guard, as itself.
proof fn lemma_probe_host()
    ensures
        domain::host_ok("github.com"@),
{
    reveal_strlit("github.com");
    let q = "github.com"@;
    lemma_trim_plain(q);
    assert(trim_dots(q) == q);
    let x = seq!['g', 'i', 't', 'h', 'u', 'b'];
    let y = seq!['c', 'o', 'm'];
    assert(q =~= x + seq!['.'] + y);
    assert(!y.contains('.'));
    assert(!x.contains('.'));
    domain::lemma_last_label_after(x, y);
    assert(!domain::numeric_label(y));
    lemma_fields_single(x, '.');
    lemma_fields_push_piece(x, '.', y);
    assert(fields(q, '.').len() == 2);
    assert(!q.contains(':'));
    lemma_fields_single(q, ':');
    assert(!is_group(q));
    assert(!has_double_colon(q));
    assert(!ip_literal(q));
    assert(q[6] == '.');
    assert(domain::host_chars(q));
}

/// The IP probe is an IPv4 address.
proof fn lemma_probe_ip()
    ensures
        ip_literal(trim("8.8.8.8"@)),
{
    reveal_strlit("8.8.8.8");
    let q = "8.8.8.8"@;
    lemma_trim_plain(q);
    let e = seq!['8'];
    let d = seq!['.'];
    assert(q =~= e + d + e + d + e + d + e);
    assert(!e.contains('.'));
    lemma_fields_single(e, '.');
    lemma_fields_push_piece(e, '.', e);
    lemma_fields_push_piece(e + d + e, '.', e);
    lemma_fields_push_piece(e + d + e + d + e, '.', e);
    assert(e.drop_last() =~= Seq::<char>::empty());
    assert(e.last() == '8' && e[0] == '8');
    assert(dec_number(Seq::<char>::empty()) == 0);
    assert(dec_number(e) == dec_number(e.drop_last()) * 10 + crate::validate::digit_value('8'));
    assert(dec_number(e) == 8);
    assert(is_octet(e));
    assert(fields(q, '.') =~= seq![e, e, e, e]);
}

/// The currency probe is a pair as it stands.
proof fn lemma_probe_pair()
    ensures
        trim("USD-BRL"@) == "USD-BRL"@,
        is_ascii_text("USD-BRL"@),
        ascii_upper_text("USD-BRL"@) == "USD-BRL"@,
        currency::pair_ok("USD-BRL"@),
{
    reveal_strlit("USD-BRL");
    let q = "USD-BRL"@;
    lemma_trim_plain(q);
    lemma_ascii_upper_keeps(q);
    let x = seq!['U', 'S', 'D'];
    let y = seq!['B', 'R', 'L'];
    assert(q =~= x + seq!['-'] + y);
    assert(!x.contains('-'));
    assert(!y.contains('-'));
    lemma_fields_single(x, '-');
    lemma_fields_push_piece(x, '-', y);
}

/// The state probe is a state code as it stands.
proof fn lemma_probe_state()
    ensures
        trim("RJ"@) == "RJ"@,
        is_ascii_text("RJ"@),
        ascii_upper_text("RJ"@) == "RJ"@,
        ibge::state_code_ok("RJ"@),
{
    reveal_strlit("RJ");
    lemma_trim_plain("RJ"@);
    lemma_ascii_upper_keeps("RJ"@);
}

/// Every source takes its own probe query: its plan for that query makes calls instead of
/// refusing it, so probing a source tests whether it answers, not whether the query passes.
pub proof fn lemma_probe_accepted(s: AnySource, r: Result<Vec<Call>, OsintError>)
    requires
        s.planned(s.spec_probe(), r),
    ensures
        r is Ok,
{
    match s {
        AnySource::CnpjBrasilApi | AnySource::CnpjMinhaReceita => {
            reveal_strlit("00000000000191");
            lemma_digits_of_all_digits("00000000000191"@);
        },
        AnySource::CepViaCep | AnySource::CepBrasilApi => {
            reveal_strlit("01310100");
            lemma_digits_of_all_digits("01310100"@);
        },
        AnySource::DddBrasilApi => {
            reveal_strlit("21");
            lemma_digits_of_all_digits("21"@);
        },
        AnySource::BankBrasilApi => {
            reveal_strlit("001");
            lemma_digits_of_all_digits("001"@);
        },
        AnySource::DomainGoogleDns | AnySource::DomainCrtSh | AnySource::DomainRdap
        | AnySource::DomainHeaders => {
            lemma_probe_host();
        },
        AnySource::IpApi | AnySource::IpInternetDb | AnySource::IpRdap => {
            lemma_probe_ip();
        },
        AnySource::CurrencyAwesomeApi => {
            lemma_probe_pair();
        },
        AnySource::IbgeMunicipios => {
            lemma_probe_state();
        },
        AnySource::Holidays => {
            reveal_strlit("2025");
            lemma_digits_of_all_digits("2025"@);
        },
        AnySource::Isbn => {
            reveal_strlit("9788535902778");
            lemma_filter_keeps_all("9788535902778"@, |c: char| refs::is_ascii_alnum(c));
        },
        AnySource::Ncm => {
            reveal_strlit("33030010");
            lemma_digits_of_all_digits("33030010"@);
        },
    }
}

/// Runs the steps of `s` over `replies`, in order, from `p`: where the lookup stands after them.
pub open spec fn run_steps(s: AnySource, p: Progress, replies: Seq<Reply>) -> Step
    decreases replies.len(),
{
    if replies.len() == 0 {
        Step::Next(p)
    } else {
        match s.stepped(p, replies[0]) {
            Step::Next(q) => run_steps(s, q, replies.drop_first()),
            done => done,
        }
    }
}

proof fn lemma_dns_steps(p: Progress, replies: Seq<Reply>)
    ensures
        run_steps(AnySource::DomainGoogleDns, p, replies) == domain::dns_run(p, replies),
    decreases replies.len(),
{
    if replies.len() > 0 {
        match domain::dns_step(p, replies[0]) {
            Step::Next(q) => lemma_dns_steps(q, replies.drop_first()),
            _ => {},
        }
    }
}

/// A lookup reaches its verdict by the end of its plan: whatever the replies to the calls
/// that a source plans, its steps over them, from the start, end with a verdict, so no
/// lookup runs out of calls undecided.
pub proof fn lemma_lookup_ends(s: AnySource, q: Seq<char>, c: Vec<Call>, replies: Seq<Reply>)
    requires
        s.planned(q, Ok(c)),
        replies.len() == c@.len(),
    ensures
        run_steps(s, Progress { answered: 0, found: false }, replies) is Done,
{
    let start = Progress { answered: 0, found: false };
    match s {
        AnySource::DomainGoogleDns => {
            assert(replies.len() == 5);
            lemma_dns_steps(start, replies);
            domain::lemma_dns_lookup_verdict(replies);
        },
        _ => {
            assert(c@.len() == 1);
            assert(s.stepped(start, replies[0]) is Done);
        },
    }
}

} // verus!

use serde_json::Value;
use spectra::engine::{any_success, detect, select};
use spectra::error::OsintError;
use spectra::http::{decode_json, status_error};
use spectra::ipaddr::{parse_ip_str, IpValue};
use spectra::model::{Outcome, Status};
use spectra::order::sort_by_key;
use spectra::source::{field_text_is, has_field, is_empty_array, Call, Member, Progress, Shape, Step};
use spectra::sources::{all, AnySource};
use spectra::util::digits;
use spectra::validate::check_document;
use spectra::verify::{all_alive, Health};
use spectra::wasm::validate;

fn text_of(s: &str) -> String {
    parse_ip_str(s).expect("an address").text()
}

fn url_of(source: AnySource, query: &str) -> String {
    let calls = source.plan(query).expect("a plan");
    assert_eq!(calls.len(), 1);
    match &calls[0] {
        Call::Json(u) | Call::Head(u) => u.clone(),
        Call::Record(_, u) => u.clone(),
    }
}

fn refusal(source: AnySource, query: &str) -> String {
    match source.plan(query) {
        Err(OsintError::Invalid(m)) => m,
        other => panic!("expected a refusal, got {:?}", other.map(|c| c.len())),
    }
}

#[test]
fn digits_keep_only_digits() {
    assert_eq!(digits("a1-b2 3"), "123");
    assert_eq!(digits("no digits"), "");
}

#[test]
fn ipv4_literals() {
    assert_eq!(parse_ip_str("8.8.8.8"), Some(IpValue::V4([8, 8, 8, 8])));
    assert_eq!(parse_ip_str("255.0.10.1"), Some(IpValue::V4([255, 0, 10, 1])));
    assert_eq!(parse_ip_str("01.2.3.4"), None);
    assert_eq!(parse_ip_str("256.1.1.1"), None);
    assert_eq!(parse_ip_str("1.2.3"), None);
    assert_eq!(parse_ip_str("1.2.3.4.5"), None);
    assert_eq!(parse_ip_str(""), None);
}

#[test]
fn ipv6_literals() {
    assert_eq!(parse_ip_str("::"), Some(IpValue::V6([0; 8])));
    assert_eq!(parse_ip_str("::1"), Some(IpValue::V6([0, 0, 0, 0, 0, 0, 0, 1])));
    assert_eq!(parse_ip_str("1::"), Some(IpValue::V6([1, 0, 0, 0, 0, 0, 0, 0])));
    assert_eq!(
        parse_ip_str("2001:4860:4860::8888"),
        Some(IpValue::V6([0x2001, 0x4860, 0x4860, 0, 0, 0, 0, 0x8888]))
    );
    assert_eq!(
        parse_ip_str("1:2:3:4:5:6:1.2.3.4"),
        Some(IpValue::V6([1, 2, 3, 4, 5, 6, 0x0102, 0x0304]))
    );
    assert_eq!(
        parse_ip_str("1:2:3:4:5::1.2.3.4"),
        Some(IpValue::V6([1, 2, 3, 4, 5, 0, 0x0102, 0x0304]))
    );
    assert_eq!(parse_ip_str("FFFF::abcd"), Some(IpValue::V6([0xffff, 0, 0, 0, 0, 0, 0, 0xabcd])));
    assert_eq!(parse_ip_str("1:2:3:4:5:6:7:8:9"), None);
    assert_eq!(parse_ip_str("1:2:3:4:5:6:7"), None);
    assert_eq!(parse_ip_str("1:2:3:4:5:6::1.2.3.4"), None);
    assert_eq!(parse_ip_str("1:2:3:4:5:6:7:8::"), None);
    assert_eq!(parse_ip_str(":::"), None);
    assert_eq!(parse_ip_str("1::2::3"), None);
    assert_eq!(parse_ip_str("12345::"), None);
    assert_eq!(parse_ip_str("gggg::"), None);
    assert_eq!(parse_ip_str("::1.2.3.4:5"), None);
    assert_eq!(parse_ip_str(":1:2:3:4:5:6:7:8"), None);
}

#[test]
fn addresses_written_as_display_writes_them() {
    assert_eq!(text_of("8.8.8.8"), "8.8.8.8");
    assert_eq!(text_of("2001:4860:4860:0:0:0:0:8888"), "2001:4860:4860::8888");
    assert_eq!(text_of("0:0:0:0:0:0:0:1"), "::1");
    assert_eq!(text_of("::"), "::");
    assert_eq!(text_of("1:0:0:2:0:0:0:3"), "1:0:0:2::3");
    assert_eq!(text_of("1:0:2:0:3:0:4:0"), "1:0:2:0:3:0:4:0");
    assert_eq!(text_of("1:0:0:2:0:0:3:4"), "1::2:0:0:3:4");
    assert_eq!(text_of("ABCD:00EF::"), "abcd:ef::");
    assert_eq!(text_of("::ffff:1.2.3.4"), "::ffff:1.2.3.4");
    assert_eq!(text_of("::FFFF:0102:0304"), "::ffff:1.2.3.4");
}

#[test]
fn detect_more_shapes() {
    assert_eq!(detect("  8.8.8.8 "), Some("ip"));
    assert_eq!(detect("::1"), Some("ip"));
    assert_eq!(detect("12345"), None);
    assert_eq!(detect("a.b"), Some("domain"));
    assert_eq!(detect("12.345.678"), Some("cep"));
    assert_eq!(detect("   "), None);
}

#[test]
fn error_messages() {
    assert_eq!(OsintError::NotFound.describe(), "not found");
    assert_eq!(OsintError::Status(503).describe(), "http status 503");
    assert_eq!(OsintError::Transport("timed out".to_string()).describe(), "transport error: timed out");
    assert_eq!(OsintError::Decode("eof".to_string()).describe(), "decode error: eof");
    assert_eq!(OsintError::Invalid("bad".to_string()).describe(), "invalid input: bad");
}

#[test]
fn numbers_checked_as_documents() {
    assert_eq!(validate(11144477735, 11), 1);
    assert_eq!(validate(191, 14), 2);
    assert_eq!(validate(11222333000181, 14), 2);
    assert_eq!(validate(11144477730, 11), 0);
    assert_eq!(validate(191, 13), 0);
    assert_eq!(validate(11144477735, 10), 0);
    assert_eq!(validate(0, 0), 0);
    assert_eq!(validate(1, 15), 0);
}

#[test]
fn documents_checked_by_digit_count() {
    let c = check_document("111.444.777-35");
    assert_eq!((c.document.as_str(), c.kind, c.valid), ("11144477735", "cpf", true));
    let c = check_document("11.222.333/0001-80");
    assert_eq!((c.document.as_str(), c.kind, c.valid), ("11222333000180", "cnpj", false));
    let c = check_document("12-34");
    assert_eq!((c.document.as_str(), c.kind, c.valid), ("1234", "unknown", false));
}

#[test]
fn check_digits_complete_a_base() {
    // base 111444777 gives check digits 3 and 5; base 112223330001 gives 8 and 1
    assert!(spectra::validate::cpf("11144477735"));
    assert!(!spectra::validate::cpf("11144477736"));
    assert!(spectra::validate::cnpj("11222333000181"));
    assert!(!spectra::validate::cnpj("11222333000182"));
    assert!(!spectra::validate::cpf("00000000000"));
}

#[test]
fn plans_build_the_urls() {
    assert_eq!(url_of(AnySource::CnpjBrasilApi, "00.000.000/0001-91"), "https://brasilapi.com.br/api/cnpj/v1/00000000000191");
    assert_eq!(url_of(AnySource::CnpjMinhaReceita, "00000000000191"), "https://minhareceita.org/00000000000191");
    assert_eq!(url_of(AnySource::CepViaCep, "01310-100"), "https://viacep.com.br/ws/01310100/json/");
    assert_eq!(url_of(AnySource::CepBrasilApi, "01310100"), "https://brasilapi.com.br/api/cep/v2/01310100");
    assert_eq!(url_of(AnySource::DddBrasilApi, "(21)"), "https://brasilapi.com.br/api/ddd/v1/21");
    assert_eq!(url_of(AnySource::BankBrasilApi, "001"), "https://brasilapi.com.br/api/banks/v1/001");
    assert_eq!(url_of(AnySource::DomainCrtSh, " github.com. "), "https://crt.sh/?q=github.com&output=json");
    assert_eq!(url_of(AnySource::DomainRdap, "github.com"), "https://rdap.org/domain/github.com");
    assert_eq!(url_of(AnySource::DomainHeaders, "github.com"), "https://github.com");
    assert_eq!(url_of(AnySource::IpApi, " 8.8.8.8"), "http://ip-api.com/json/8.8.8.8");
    assert_eq!(url_of(AnySource::IpInternetDb, "2001:4860:4860:0::8888"), "https://internetdb.shodan.io/2001:4860:4860::8888");
    assert_eq!(url_of(AnySource::IpRdap, "8.8.4.4"), "https://rdap.org/ip/8.8.4.4");
    assert_eq!(url_of(AnySource::CurrencyAwesomeApi, " usd-brl "), "https://economia.awesomeapi.com.br/json/last/USD-BRL");
    assert_eq!(url_of(AnySource::IbgeMunicipios, "rj"), "https://servicodados.ibge.gov.br/api/v1/localidades/estados/RJ/municipios");
    assert_eq!(url_of(AnySource::Holidays, "2025"), "https://brasilapi.com.br/api/feriados/v1/2025");
    assert_eq!(url_of(AnySource::Isbn, "978-85-359-0277-8"), "https://brasilapi.com.br/api/isbn/v1/9788535902778");
    assert_eq!(url_of(AnySource::Ncm, "3303.00.10"), "https://brasilapi.com.br/api/ncm/v1/33030010");
}

#[test]
fn dns_plan_asks_five_record_types() {
    let calls = AnySource::DomainGoogleDns.plan("example.com").unwrap();
    let asked: Vec<(String, String)> = calls
        .iter()
        .map(|c| match c {
            Call::Record(t, u) => (t.to_string(), u.clone()),
            _ => panic!("a record call"),
        })
        .collect();
    assert_eq!(asked.len(), 5);
    assert_eq!(asked[0], ("A".to_string(), "https://dns.google/resolve?name=example.com&type=A".to_string()));
    assert_eq!(asked[4], ("TXT".to_string(), "https://dns.google/resolve?name=example.com&type=TXT".to_string()));
}

#[test]
fn plans_refuse_bad_queries() {
    assert_eq!(refusal(AnySource::CnpjBrasilApi, "123"), "cnpj must contain 14 digits");
    assert_eq!(refusal(AnySource::CepViaCep, "1234567"), "cep must contain 8 digits");
    assert_eq!(refusal(AnySource::DddBrasilApi, "1"), "ddd must contain 2 digits");
    assert_eq!(refusal(AnySource::BankBrasilApi, "abc"), "bank code expected");
    assert_eq!(refusal(AnySource::DomainRdap, "localhost"), "domain expected");
    assert_eq!(refusal(AnySource::DomainRdap, "8.8.8.8"), "domain expected");
    assert_eq!(refusal(AnySource::DomainCrtSh, "a.b/c"), "invalid characters in domain");
    assert_eq!(refusal(AnySource::IpApi, "example.com"), "not a valid ip address");
    assert_eq!(refusal(AnySource::CurrencyAwesomeApi, "usdbrl"), "expected a pair like USD-BRL");
    assert_eq!(refusal(AnySource::IbgeMunicipios, "rio"), "expected a 2-letter state code");
    assert_eq!(refusal(AnySource::Holidays, "25"), "year must have 4 digits");
    assert_eq!(refusal(AnySource::Isbn, "12345"), "isbn expected");
    assert_eq!(refusal(AnySource::Ncm, "none"), "ncm code expected");
}

fn object(members: Vec<(&str, Option<&str>, Option<usize>)>) -> Shape {
    Shape::Object(
        members
            .into_iter()
            .map(|(n, t, i)| Member { name: n.to_string(), text: t.map(String::from), items: i })
            .collect(),
    )
}

fn verdict(step: Step) -> Result<(), String> {
    match step {
        Step::Done(r) => r.map_err(|e| e.describe()),
        Step::Next(_) => panic!("expected a verdict"),
    }
}

#[test]
fn answers_judged_by_their_shape() {
    let p = Progress::start();
    assert_eq!(verdict(AnySource::CepViaCep.step(p, Ok(object(vec![("erro", None, None)])))), Err("not found".to_string()));
    assert_eq!(verdict(AnySource::CepViaCep.step(p, Ok(object(vec![("cep", Some("01310-100"), None)])))), Ok(()));
    assert_eq!(verdict(AnySource::IpApi.step(p, Ok(object(vec![("status", Some("fail"), None)])))), Err("not found".to_string()));
    assert_eq!(verdict(AnySource::IpApi.step(p, Ok(object(vec![("status", Some("success"), None)])))), Ok(()));
    assert_eq!(verdict(AnySource::DomainCrtSh.step(p, Ok(Shape::Array(0)))), Err("not found".to_string()));
    assert_eq!(verdict(AnySource::IbgeMunicipios.step(p, Ok(Shape::Array(92)))), Ok(()));
    assert_eq!(verdict(AnySource::Holidays.step(p, Err(OsintError::Status(500)))), Err("http status 500".to_string()));
    assert_eq!(verdict(AnySource::Holidays.step(p, Ok(Shape::Other))), Ok(()));
    let shape = object(vec![("status", Some("fail"), None), ("erro", None, Some(0))]);
    assert!(has_field(&shape, "erro"));
    assert!(!has_field(&shape, "error"));
    assert!(field_text_is(&shape, "status", "fail"));
    assert!(!field_text_is(&shape, "erro", "fail"));
    assert!(is_empty_array(&Shape::Array(0)));
    assert!(!is_empty_array(&Shape::Array(1)));
}

fn run_dns(replies: Vec<Result<Shape, OsintError>>) -> (usize, Result<(), String>) {
    let mut p = Progress::start();
    let mut asked = 0;
    for r in replies {
        asked += 1;
        match AnySource::DomainGoogleDns.step(p, r) {
            Step::Next(q) => p = q,
            Step::Done(v) => return (asked, v.map_err(|e| e.describe())),
        }
    }
    panic!("no verdict after {asked} replies")
}

#[test]
fn dns_lookup_verdicts() {
    let none = || Ok(object(vec![("Status", None, None)]));
    let some = || Ok(object(vec![("Answer", None, Some(2))]));
    let empty = || Ok(object(vec![("Answer", None, Some(0))]));
    assert_eq!(run_dns(vec![none(), some(), empty(), none(), none()]), (5, Ok(())));
    assert_eq!(run_dns(vec![none(), empty(), Err(OsintError::NotFound), none(), none()]), (5, Err("not found".to_string())));
    assert_eq!(
        run_dns(vec![some(), Err(OsintError::Status(502)), some(), some(), some()]),
        (2, Err("http status 502".to_string()))
    );
}

fn outcome(name: AnySource, answer: Result<Value, OsintError>) -> Outcome {
    Outcome::new(&name, "q", answer, 7)
}

#[test]
fn outcomes_share_one_shape() {
    let ok = outcome(AnySource::CepViaCep, Ok(Value::Bool(true)));
    assert_eq!(ok.status, Status::Success);
    assert_eq!(ok.data, Some(Value::Bool(true)));
    assert_eq!(ok.error, None);
    assert_eq!((ok.source.as_str(), ok.kind.as_str(), ok.category.as_str(), ok.query.as_str(), ok.elapsed_ms), ("cep-viacep", "cep", "address", "q", 7));
    let missing = outcome(AnySource::CepViaCep, Err(OsintError::NotFound));
    assert_eq!((missing.status, missing.data.is_none(), missing.error.is_none()), (Status::NotFound, true, true));
    let failed = outcome(AnySource::CepViaCep, Err(OsintError::Status(500)));
    assert_eq!(failed.status, Status::Error);
    assert_eq!(failed.error.as_deref(), Some("http status 500"));
    assert!(!any_success(&vec![missing, failed]));
    assert!(any_success(&vec![ok]));
}

#[test]
fn outcomes_sorted_by_source() {
    let list = vec![
        outcome(AnySource::IpRdap, Err(OsintError::NotFound)),
        outcome(AnySource::IpApi, Err(OsintError::NotFound)),
        outcome(AnySource::IpInternetDb, Err(OsintError::NotFound)),
    ];
    let sorted = sort_by_key(list);
    let names: Vec<&str> = sorted.iter().map(|o| o.source.as_str()).collect();
    assert_eq!(names, vec!["ip-internetdb", "ip-ipapi", "ip-rdap"]);
}

#[test]
fn sources_selected_by_kind() {
    let registry = all();
    let cep: Vec<&str> = select("cep", &registry).iter().map(|s| s.name()).collect();
    assert_eq!(cep, vec!["cep-viacep", "cep-brasilapi"]);
    assert_eq!(select("domain", &registry).len(), 4);
    assert_eq!(select("ip", &registry).len(), 3);
    assert!(select("cpf", &registry).is_empty());
    assert_eq!(registry.len(), 18);
}

#[test]
fn health_after_a_probe() {
    let up = Health::assess(&AnySource::Ncm, Some(Ok(())), 5);
    assert!(up.alive && up.detail.is_none() && !up.requires_key);
    let empty = Health::assess(&AnySource::Ncm, Some(Err(OsintError::NotFound)), 5);
    assert!(empty.alive);
    assert_eq!(empty.detail.as_deref(), Some("reachable, sample empty"));
    let down = Health::assess(&AnySource::Ncm, Some(Err(OsintError::Transport("refused".to_string()))), 5);
    assert!(!down.alive);
    assert_eq!(down.detail.as_deref(), Some("transport error: refused"));
    let none = Health::assess(&AnySource::Ncm, None, 0);
    assert!(!none.alive);
    assert_eq!(none.detail.as_deref(), Some("no probe configured"));
    assert_eq!((up.source.as_str(), up.kind.as_str(), up.category.as_str()), ("ncm-brasilapi", "ncm", "reference"));
    assert!(!all_alive(&vec![up, down]));
    let sorted = sort_by_key(vec![Health::assess(&AnySource::Ncm, None, 0), Health::assess(&AnySource::Isbn, None, 0)]);
    assert_eq!(sorted[0].source, "isbn-brasilapi");
}

#[test]
fn http_answers_mapped() {
    assert!(matches!(status_error(404), OsintError::NotFound));
    assert!(matches!(status_error(500), OsintError::Status(500)));
    assert!(matches!(decode_json(b"not json"), Err(OsintError::Decode(_))));
    assert_eq!(decode_json(b"[1, 2]").unwrap(), Value::Array(vec![Value::from(1), Value::from(2)]));
}

use spectra::error::OsintError;
use spectra::source::{Member, Shape};
use spectra::sources::domain::{dns_entry, host, RecordEntry};
use spectra::sources::{all, AnySource};
use spectra::source::{data_from, Call, DataFrom};
use spectra::validate::cpf;

fn refused_with(query: &str) -> String {
    match host(query) {
        Err(OsintError::Invalid(m)) => m,
        other => panic!("expected a refusal, got {:?}", other),
    }
}

#[test]
fn numeric_hosts_refused_as_addresses() {
    for bad in ["127.1", "0x7f.0.0.1", "010.0.0.1", "10.1.2", "example.123", "a.b.0X1f", "a.0x"] {
        assert_eq!(refused_with(bad), "domain expected", "{bad}");
    }
    assert_eq!(refused_with("github.com&type=ANY"), "invalid characters in domain");
    assert_eq!(refused_with("github.com/path"), "invalid characters in domain");
}

#[test]
fn numeric_labels_elsewhere_kept() {
    assert_eq!(host("0x7f.example.com").unwrap(), "0x7f.example.com");
    assert_eq!(host("127.0.0.example").unwrap(), "127.0.0.example");
    assert_eq!(host("mail.123abc").unwrap(), "mail.123abc");
    assert_eq!(host("a.0xg").unwrap(), "a.0xg");
}

#[test]
fn googledns_refuses_bad_characters_by_name() {
    match AnySource::DomainGoogleDns.plan("github.com&type=ANY") {
        Err(OsintError::Invalid(m)) => assert_eq!(m, "invalid characters in domain"),
        other => panic!("expected a refusal, got {:?}", other.map(|c| c.len())),
    }
}

#[test]
fn every_probe_is_planned() {
    for s in all() {
        let probe = s.probe().expect("a probe");
        assert!(s.plan(probe).is_ok(), "{} refuses its probe", s.name());
    }
}

#[test]
fn lower_case_queries_upper_cased() {
    let calls = AnySource::CurrencyAwesomeApi.plan(" usd-brl ").expect("a plan");
    match &calls[0] {
        Call::Json(u) => assert_eq!(u, "https://economia.awesomeapi.com.br/json/last/USD-BRL"),
        _ => panic!("a json call"),
    }
    let calls = AnySource::IbgeMunicipios.plan("rj").expect("a plan");
    match &calls[0] {
        Call::Json(u) => assert_eq!(
            u,
            "https://servicodados.ibge.gov.br/api/v1/localidades/estados/RJ/municipios"
        ),
        _ => panic!("a json call"),
    }
}

#[test]
fn dns_entries_decided() {
    let with_answer = Shape::Object(vec![Member { name: "Answer".to_string(), text: None, items: Some(2) }]);
    let without = Shape::Object(vec![Member { name: "Status".to_string(), text: None, items: None }]);
    assert_eq!(dns_entry(&Ok(with_answer)), Some(RecordEntry::AnswerMember));
    assert_eq!(dns_entry(&Ok(without)), Some(RecordEntry::Empty));
    assert_eq!(dns_entry(&Ok(Shape::Array(0))), Some(RecordEntry::Empty));
    assert_eq!(dns_entry(&Err(OsintError::NotFound)), None);
}

#[test]
fn one_pair_of_check_digits() {
    let base = "111444777";
    let mut valid = Vec::new();
    for d1 in 0..10 {
        for d2 in 0..10 {
            if cpf(&format!("{base}{d1}{d2}")) {
                valid.push((d1, d2));
            }
        }
    }
    assert_eq!(valid, vec![(3, 5)]);
    for d1 in 0..10 {
        for d2 in 0..10 {
            assert!(!cpf(&format!("222222222{d1}{d2}")));
        }
    }
}

#[test]
fn data_taken_from_records_or_last_answer() {
    let dns = AnySource::DomainGoogleDns.plan("github.com").expect("a plan");
    assert_eq!(data_from(&dns), DataFrom::RecordMap);
    let rdap = AnySource::DomainRdap.plan("github.com").expect("a plan");
    assert_eq!(data_from(&rdap), DataFrom::LastAnswer);
    assert_eq!(data_from(&Vec::new()), DataFrom::LastAnswer);
}

use spectra::sources::currency::valid_pair;
use spectra::sources::domain::host;

#[test]
fn pair_shape() {
    assert!(valid_pair("USD-BRL"));
    assert!(!valid_pair("USD-BRL/x"));
    assert!(!valid_pair("US-BRL"));
    assert!(!valid_pair("USDBRL"));
    assert!(!valid_pair("USD-BR2"));
}

#[test]
fn accepts_plain_hostnames() {
    assert_eq!(host("github.com").unwrap(), "github.com");
    assert_eq!(host("sub.example.co.uk.").unwrap(), "sub.example.co.uk");
}

#[test]
fn rejects_url_smuggling_and_ip_literals() {
    for bad in [
        "github.com@169.254.169.254",
        "github.com/path",
        "github.com?x=y",
        "github.com&type=ANY",
        "192.168.1.1",
        "8.8.8.8",
        "localhost",
        "",
    ] {
        assert!(host(bad).is_err(), "{bad} should be rejected");
    }
}

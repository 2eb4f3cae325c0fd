use aliyunddns::config::Options;
use aliyunddns::digits::parse_u32;
use aliyunddns::ip::{parse_ipv4, IpAddress};
use aliyunddns::text::split_str;

fn ip(a: u8, b: u8, c: u8, d: u8) -> IpAddress {
    IpAddress { a, b, c, d }
}

#[test]
fn split_plain() {
    let parts = split_str("a.example.com,b.example.com", ',');
    assert_eq!(parts, vec!["a.example.com".to_string(), "b.example.com".to_string()]);
}

#[test]
fn split_without_separator() {
    assert_eq!(split_str("a.example.com", ','), vec!["a.example.com".to_string()]);
}

#[test]
fn split_keeps_empty_pieces() {
    assert_eq!(
        split_str(",x,", ','),
        vec!["".to_string(), "x".to_string(), "".to_string()]
    );
    assert_eq!(split_str("", ','), vec!["".to_string()]);
}

#[test]
fn sqlit_domain_splits() {
    let domains = Options::sqlit_domain("a.example.com,b.example.com");
    assert_eq!(domains, vec!["a.example.com".to_string(), "b.example.com".to_string()]);
}

#[test]
fn sqlit_domain_single() {
    assert_eq!(Options::sqlit_domain("a.example.com"), vec!["a.example.com".to_string()]);
}

#[test]
fn sqlit_domain_drops_repetitions() {
    let domains = Options::sqlit_domain("a.com,b.com,a.com,a.com");
    assert_eq!(domains, vec!["a.com".to_string(), "b.com".to_string()]);
}

#[test]
fn parse_ipv4_valid() {
    assert_eq!(parse_ipv4("1.2.3.4"), Some(ip(1, 2, 3, 4)));
    assert_eq!(parse_ipv4("0.0.0.0"), Some(ip(0, 0, 0, 0)));
    assert_eq!(parse_ipv4("255.255.255.255"), Some(ip(255, 255, 255, 255)));
    assert_eq!(parse_ipv4("192.168.0.1"), Some(ip(192, 168, 0, 1)));
}

#[test]
fn parse_ipv4_invalid() {
    assert_eq!(parse_ipv4(""), None);
    assert_eq!(parse_ipv4("1.2.3"), None);
    assert_eq!(parse_ipv4("1.2.3.4.5"), None);
    assert_eq!(parse_ipv4("256.1.1.1"), None);
    assert_eq!(parse_ipv4("01.2.3.4"), None);
    assert_eq!(parse_ipv4("1.2.3.a"), None);
    assert_eq!(parse_ipv4("1..2.3"), None);
    assert_eq!(parse_ipv4("1.2.3.4 "), None);
    assert_eq!(parse_ipv4("1234.1.1.1"), None);
}

#[test]
fn parse_u32_values() {
    assert_eq!(parse_u32("600"), Some(600));
    assert_eq!(parse_u32("0"), Some(0));
    assert_eq!(parse_u32("007"), Some(7));
    assert_eq!(parse_u32("4294967295"), Some(u32::MAX));
}

#[test]
fn parse_u32_rejects() {
    assert_eq!(parse_u32(""), None);
    assert_eq!(parse_u32("12a"), None);
    assert_eq!(parse_u32("-1"), None);
    assert_eq!(parse_u32("4294967296"), None);
    assert_eq!(parse_u32("99999999999999999999"), None);
}

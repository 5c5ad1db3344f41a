use relay_core::addr::{parse_address, write_ip, IpAddress};
use relay_core::flow::TextMap;
use relay_core::headers::{get_text, is_valid_name, is_valid_value, list, to_text};
use relay_core::text::{
    decimal_text, find_char, join, parse_unsigned, same_ignoring_case, split, split_words, to_ascii_lower,
    to_ascii_upper, trim,
};

#[test]
fn texts_are_compared_and_cut() {
    assert_eq!(to_ascii_lower("AbÇ"), "abÇ");
    assert_eq!(to_ascii_upper("abç"), "ABç");
    assert!(same_ignoring_case("GZip", "gzIP"));
    assert_eq!(trim("\u{3000} a b \n"), "a b");
    assert_eq!(split("a;;b", ';'), vec!["a", "", "b"]);
    assert_eq!(split("", ';'), vec![""]);
    assert_eq!(split_words("  a \t b "), vec!["a", "b"]);
    assert_eq!(join(&vec!["a".to_string(), "b".to_string()], "; "), "a; b");
    assert_eq!(find_char(&['a', '=', 'b'], '=', 0), 1);
}

#[test]
fn numbers_are_read_as_they_are_written() {
    for n in [0u64, 7, 10, 99, 65535, u64::MAX] {
        assert_eq!(decimal_text(n), n.to_string());
        assert_eq!(parse_unsigned(&decimal_text(n), u64::MAX), Some(n));
    }
    assert_eq!(parse_unsigned("+5", 10), Some(5));
    assert_eq!(parse_unsigned("+", 10), None);
    assert_eq!(parse_unsigned("", 10), None);
    assert_eq!(parse_unsigned("-1", 10), None);
    assert_eq!(parse_unsigned("11", 10), None);
    assert_eq!(parse_unsigned("99999999999999999999999", u64::MAX), None);
}

#[test]
fn addresses_are_read_as_they_are_written() {
    for s in ["127.0.0.1", "255.255.255.255", "::1", "2001:db8::7"] {
        let ip = parse_address(s).expect("address");
        assert_eq!(write_ip(ip), s);
    }
    assert_eq!(parse_address("10.0.0.0/8"), None);
    assert_eq!(parse_address("host"), None);
    assert_eq!(write_ip(IpAddress::V4(0x0a00_0001)), "10.0.0.1");
}

#[test]
fn header_names_and_values_are_checked() {
    assert!(is_valid_name("X-Test"));
    assert!(!is_valid_name("bad name"));
    assert!(!is_valid_name(""));
    assert!(is_valid_value(b"fine\tvalue"));
    assert!(!is_valid_value(b"bad\nvalue"));
    assert_eq!(to_text(b"abc").as_deref(), Some("abc"));
    assert_eq!(to_text(&[0xe9]), None);
    let mut m = hyper::HeaderMap::new();
    m.append("X-A", "1".parse().unwrap());
    m.append("X-A", "2".parse().unwrap());
    assert_eq!(get_text(&m, "x-a").as_deref(), Some("1"));
    assert_eq!(
        list(&m),
        vec![
            ("x-a".to_string(), "1".to_string()),
            ("x-a".to_string(), "2".to_string())
        ]
    );
}

#[test]
fn a_text_map_keeps_the_last_value() {
    let mut m = TextMap::new();
    m.insert("a".to_string(), "1".to_string());
    m.insert("a".to_string(), "2".to_string());
    assert_eq!(m.get("a").map(|s| s.as_str()), Some("2"));
    assert!(m.contains_key("a"));
    assert!(!m.contains_key("b"));
    assert_eq!(m.entries().len(), 1);
}

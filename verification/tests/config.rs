use wireguard_proxyd::config::{
    digit, find, is_whitespace, parse_bind_range, parse_port, split_first, trimmed, ConfigError,
};

fn chars(s: &str) -> Vec<char> {
    s.chars().collect()
}

fn parse(s: &str) -> Result<(String, u16, u16), ConfigError> {
    let text = chars(s);
    parse_bind_range(&text).map(|(host, low, high)| (host.iter().collect(), low, high))
}

fn port(s: &str) -> Option<u16> {
    parse_port(&chars(s))
}

#[test]
fn parses_default_bind_range() {
    assert_eq!(parse("127.0.0.1:30000-40000"), Ok((String::from("127.0.0.1"), 30000, 40000)));
}

#[test]
fn parses_ports_with_whitespace() {
    assert_eq!(parse("localhost: 30000 -\t40000\n"), Ok((String::from("localhost"), 30000, 40000)));
}

#[test]
fn parses_empty_host() {
    assert_eq!(parse(":1-2"), Ok((String::new(), 1, 2)));
}

#[test]
fn host_keeps_its_whitespace() {
    assert_eq!(parse(" h :1-2"), Ok((String::from(" h "), 1, 2)));
}

#[test]
fn parses_low_above_high_as_written() {
    assert_eq!(parse("h:40000-30000"), Ok((String::from("h"), 40000, 30000)));
}

#[test]
fn ignores_what_follows_second_colon() {
    assert_eq!(parse("h:1-2:zzz"), Ok((String::from("h"), 1, 2)));
    assert_eq!(parse("h:1-2:3-4"), Ok((String::from("h"), 1, 2)));
}

#[test]
fn ignores_what_follows_second_dash() {
    assert_eq!(parse("h:1-2-zzz"), Ok((String::from("h"), 1, 2)));
}

#[test]
fn rejects_text_without_colon() {
    assert_eq!(parse("127.0.0.1"), Err(ConfigError::PortsMissing));
    assert_eq!(parse(""), Err(ConfigError::PortsMissing));
    assert_eq!(parse("30000-40000"), Err(ConfigError::PortsMissing));
}

#[test]
fn rejects_invalid_low_port() {
    assert_eq!(parse("h:"), Err(ConfigError::LowPortInvalid));
    assert_eq!(parse("h:-40000"), Err(ConfigError::LowPortInvalid));
    assert_eq!(parse("h:abc-40000"), Err(ConfigError::LowPortInvalid));
    assert_eq!(parse("h:65536-40000"), Err(ConfigError::LowPortInvalid));
    assert_eq!(parse("h:3 0-40000"), Err(ConfigError::LowPortInvalid));
    assert_eq!(parse("h::1-2"), Err(ConfigError::LowPortInvalid));
}

#[test]
fn low_port_is_checked_before_the_dash() {
    assert_eq!(parse("h:abc"), Err(ConfigError::LowPortInvalid));
}

#[test]
fn rejects_missing_high_port() {
    assert_eq!(parse("h:30000"), Err(ConfigError::HighPortMissing));
    assert_eq!(parse("h:30000:40000"), Err(ConfigError::HighPortMissing));
}

#[test]
fn rejects_invalid_high_port() {
    assert_eq!(parse("h:30000-"), Err(ConfigError::HighPortInvalid));
    assert_eq!(parse("h:30000-4x"), Err(ConfigError::HighPortInvalid));
    assert_eq!(parse("h:30000-65536"), Err(ConfigError::HighPortInvalid));
    assert_eq!(parse("h:30000--1"), Err(ConfigError::HighPortInvalid));
}

#[test]
fn parses_ports_at_both_ends_of_port_space() {
    assert_eq!(parse("h:0-65535"), Ok((String::from("h"), 0, 65535)));
}

#[test]
fn parses_plus_sign_and_leading_zeros() {
    assert_eq!(parse("h:+30000-0040000"), Ok((String::from("h"), 30000, 40000)));
}

#[test]
fn parses_non_ascii_host_and_whitespace() {
    assert_eq!(parse("hôte:\u{a0}1\u{2003}-\u{3000}2"), Ok((String::from("hôte"), 1, 2)));
}

#[test]
fn parse_port_reads_decimal() {
    assert_eq!(port("0"), Some(0));
    assert_eq!(port("7"), Some(7));
    assert_eq!(port("51820"), Some(51820));
    assert_eq!(port("65535"), Some(65535));
}

#[test]
fn parse_port_accepts_plus_and_leading_zeros() {
    assert_eq!(port("+80"), Some(80));
    assert_eq!(port("000000000000000000000000080"), Some(80));
    assert_eq!(port("+0"), Some(0));
}

#[test]
fn parse_port_rejects_out_of_range() {
    assert_eq!(port("65536"), None);
    assert_eq!(port("70000"), None);
    assert_eq!(port("99999999999999999999999999"), None);
    assert_eq!(port("655350"), None);
}

#[test]
fn parse_port_rejects_what_is_not_a_number() {
    assert_eq!(port(""), None);
    assert_eq!(port("+"), None);
    assert_eq!(port("-1"), None);
    assert_eq!(port("++1"), None);
    assert_eq!(port("1+"), None);
    assert_eq!(port(" 1"), None);
    assert_eq!(port("1 "), None);
    assert_eq!(port("1_000"), None);
    assert_eq!(port("0x10"), None);
    assert_eq!(port("١٢"), None);
    assert_eq!(port("12a"), None);
}

#[test]
fn parse_port_agrees_with_std() {
    let cases = [
        "", "+", "-", "0", "00", "+1", "-0", "65535", "65536", "065535", "4294967296", "1e3", "１２",
        "12 ", "+-1", "9", "99999", "100000",
    ];
    for case in cases {
        assert_eq!(port(case), case.parse::<u16>().ok(), "{:?}", case);
    }
}

#[test]
fn digit_values() {
    assert_eq!(digit('0'), Some(0));
    assert_eq!(digit('5'), Some(5));
    assert_eq!(digit('9'), Some(9));
    assert_eq!(digit('/'), None);
    assert_eq!(digit(':'), None);
    assert_eq!(digit('a'), None);
    assert_eq!(digit('٣'), None);
}

#[test]
fn whitespace_agrees_with_std() {
    for code in 0..=0x10ffffu32 {
        if let Some(c) = char::from_u32(code) {
            assert_eq!(is_whitespace(c), c.is_whitespace(), "U+{:04X}", code);
        }
    }
}

#[test]
fn find_first_separator() {
    assert_eq!(find(&chars("a:b:c"), ':'), 1);
    assert_eq!(find(&chars(":a"), ':'), 0);
    assert_eq!(find(&chars("abc:"), ':'), 3);
}

#[test]
fn find_without_separator_gives_length() {
    assert_eq!(find(&chars("abc"), ':'), 3);
    assert_eq!(find(&chars(""), ':'), 0);
}

#[test]
fn split_first_at_separator() {
    let text = chars("host:1-2:rest");
    let (before, after) = split_first(&text, ':');
    assert_eq!(before, &chars("host")[..]);
    assert_eq!(after, Some(&chars("1-2:rest")[..]));
}

#[test]
fn split_first_without_separator() {
    let text = chars("host");
    let (before, after) = split_first(&text, ':');
    assert_eq!(before, &chars("host")[..]);
    assert_eq!(after, None);
}

#[test]
fn split_first_with_separator_at_the_end() {
    let text = chars("host:");
    let (before, after) = split_first(&text, ':');
    assert_eq!(before, &chars("host")[..]);
    assert_eq!(after, Some(&chars("")[..]));
}

#[test]
fn trimmed_removes_whitespace_at_both_ends() {
    assert_eq!(trimmed(&chars("  30000\t\n")), &chars("30000")[..]);
    assert_eq!(trimmed(&chars("30000")), &chars("30000")[..]);
    assert_eq!(trimmed(&chars(" a b ")), &chars("a b")[..]);
}

#[test]
fn trimmed_of_whitespace_only_is_empty() {
    assert_eq!(trimmed(&chars(" \t \u{2028}")), &chars("")[..]);
    assert_eq!(trimmed(&chars("")), &chars("")[..]);
}

#[test]
fn trimmed_agrees_with_std() {
    let cases = ["", " ", "a", " a", "a ", "\u{85}a\u{a0}", "\u{feff}a", "\u{200b}a", " \u{1680} x y \u{205f}"];
    for case in cases {
        assert_eq!(trimmed(&chars(case)), &chars(case.trim())[..], "{:?}", case);
    }
}

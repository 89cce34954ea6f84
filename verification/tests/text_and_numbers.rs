use redis_streams_exporter::decimal::{read_decimal, render_decimal};
use redis_streams_exporter::identifiers::parse_identifiers;
use redis_streams_exporter::stream_id::{
    is_never_written, leading_timestamp, producer_idle_at, producer_idle_seconds, ParseError,
};
use redis_streams_exporter::text::{chars_of, join};

fn chars(s: &str) -> Vec<char> {
    s.chars().collect()
}

#[test]
fn decimal_of_small_numbers() {
    assert_eq!(render_decimal(0), "0");
    assert_eq!(render_decimal(7), "7");
    assert_eq!(render_decimal(10), "10");
    assert_eq!(render_decimal(1500), "1500");
    assert_eq!(render_decimal(1_000_000_007), "1000000007");
}

#[test]
fn decimal_of_the_largest_number() {
    assert_eq!(render_decimal(u128::MAX), "340282366920938463463374607431768211455");
    assert_eq!(render_decimal(u64::MAX as u128), "18446744073709551615");
}

#[test]
fn decimal_is_read_back() {
    for n in [0u128, 1, 9, 10, 99, 100, 12345, u64::MAX as u128, u128::MAX] {
        assert_eq!(read_decimal(&chars(&render_decimal(n))), Some(n));
    }
}

#[test]
fn read_decimal_takes_digits_only() {
    assert_eq!(read_decimal(&chars("42")), Some(42));
    assert_eq!(read_decimal(&chars("007")), Some(7));
    assert_eq!(read_decimal(&chars("")), None);
    assert_eq!(read_decimal(&chars("4a")), None);
    assert_eq!(read_decimal(&chars("-4")), None);
    assert_eq!(read_decimal(&chars("+4")), None);
    assert_eq!(read_decimal(&chars(" 4")), None);
    assert_eq!(read_decimal(&chars("٤")), None);
}

#[test]
fn read_decimal_stops_at_128_bits() {
    assert_eq!(
        read_decimal(&chars("340282366920938463463374607431768211455")),
        Some(u128::MAX)
    );
    assert_eq!(read_decimal(&chars("340282366920938463463374607431768211456")), None);
    assert_eq!(read_decimal(&chars("3402823669209384634633746074317682114550")), None);
    assert_eq!(read_decimal(&chars("99999999999999999999999999999999999999999x")), None);
}

#[test]
fn chars_of_keeps_every_character() {
    assert_eq!(chars_of(""), Vec::<char>::new());
    assert_eq!(chars_of("a-b"), vec!['a', '-', 'b']);
    assert_eq!(chars_of("é€"), vec!['é', '€']);
}

#[test]
fn join_puts_line_feeds_between() {
    assert_eq!(join(&vec![]), "");
    assert_eq!(join(&vec![String::from("a")]), "a");
    assert_eq!(join(&vec![String::from("a"), String::from("b")]), "a\nb");
    assert_eq!(join(&vec![String::from("a"), String::new(), String::from("b")]), "a\n\nb");
    assert_eq!(join(&vec![String::new()]), "");
    assert_eq!(join(&vec![String::new(), String::new()]), "\n");
}

#[test]
fn identifiers_of_the_empty_text() {
    assert_eq!(parse_identifiers(""), Vec::<String>::new());
}

#[test]
fn identifiers_in_order() {
    assert_eq!(parse_identifiers("orders"), vec![String::from("orders")]);
    assert_eq!(
        parse_identifiers("orders;payments;orders"),
        vec![String::from("orders"), String::from("payments"), String::from("orders")]
    );
    assert_eq!(parse_identifiers("a:b;c d"), vec![String::from("a:b"), String::from("c d")]);
    assert_eq!(parse_identifiers("é;€"), vec![String::from("é"), String::from("€")]);
}

#[test]
fn identifiers_keep_empty_entries() {
    assert_eq!(parse_identifiers("orders;"), vec![String::from("orders"), String::new()]);
    assert_eq!(parse_identifiers(";orders"), vec![String::new(), String::from("orders")]);
    assert_eq!(parse_identifiers(";"), vec![String::new(), String::new()]);
    assert_eq!(
        parse_identifiers("a;;b"),
        vec![String::from("a"), String::new(), String::from("b")]
    );
}

#[test]
fn identifiers_join_back_to_the_configuration() {
    for config in ["a", "a;b", "a;", ";", ";;x;", "orders;payments"] {
        assert_eq!(parse_identifiers(config).join(";"), config);
    }
}

#[test]
fn timestamp_of_an_identifier() {
    assert_eq!(leading_timestamp("5-0"), Ok(5));
    assert_eq!(leading_timestamp("1526919030474-55"), Ok(1526919030474));
    assert_eq!(leading_timestamp("0-0"), Ok(0));
    assert_eq!(leading_timestamp("12-3-4"), Ok(12));
    assert_eq!(leading_timestamp("42"), Ok(42));
    assert_eq!(leading_timestamp("+5-0"), Ok(5));
    assert_eq!(leading_timestamp("5-"), Ok(5));
    assert_eq!(leading_timestamp("5-+"), Ok(5));
}

#[test]
fn timestamp_that_is_no_number() {
    for id in ["", "-", "-5", "abc-0", "5a-0", "+-0", "+", "++5-0", " 5-0", "5 -0", "5.0-1"] {
        assert_eq!(leading_timestamp(id), Err(ParseError { id: String::from(id) }));
    }
}

#[test]
fn timestamp_above_128_bits() {
    assert_eq!(
        leading_timestamp("340282366920938463463374607431768211455-0"),
        Ok(u128::MAX)
    );
    let id = "340282366920938463463374607431768211456-0";
    assert_eq!(leading_timestamp(id), Err(ParseError { id: String::from(id) }));
}

#[test]
fn never_written_is_zero_zero_only() {
    assert!(is_never_written("0-0"));
    assert!(!is_never_written("0-1"));
    assert!(!is_never_written("00-0"));
    assert!(!is_never_written("0-0 "));
    assert!(!is_never_written(""));
    assert!(!is_never_written("0"));
}

#[test]
fn idle_seconds_are_whole_seconds() {
    assert_eq!(producer_idle_seconds(10_000, 5_000), 5);
    assert_eq!(producer_idle_seconds(10_999, 5_000), 5);
    assert_eq!(producer_idle_seconds(11_000, 5_000), 6);
    assert_eq!(producer_idle_seconds(5_000, 5_000), 0);
    assert_eq!(producer_idle_seconds(5_999, 5_000), 0);
    assert_eq!(producer_idle_seconds(u128::MAX, 0), u128::MAX / 1000);
}

#[test]
fn idle_seconds_of_a_timestamp_ahead_of_now() {
    assert_eq!(producer_idle_seconds(5_000, 5_001), 0);
    assert_eq!(producer_idle_seconds(0, u128::MAX), 0);
}

#[test]
fn producer_idle_from_the_last_generated_identifier() {
    assert_eq!(producer_idle_at("5000-0", 65_000), Ok(Some(60)));
    assert_eq!(producer_idle_at("5000-3", 5_999), Ok(Some(0)));
    assert_eq!(producer_idle_at("0-1", 65_000), Ok(Some(65)));
    assert_eq!(producer_idle_at("70000-0", 65_000), Ok(Some(0)));
}

#[test]
fn producer_idle_of_a_stream_never_written_to() {
    assert_eq!(producer_idle_at("0-0", 65_000), Ok(None));
    assert_eq!(producer_idle_at("0-0", 0), Ok(None));
}

#[test]
fn producer_idle_of_an_unreadable_identifier() {
    assert_eq!(producer_idle_at("x-0", 65_000), Err(ParseError { id: String::from("x-0") }));
    assert_eq!(producer_idle_at("", 65_000), Err(ParseError { id: String::new() }));
}

use spark_dashboard::num::{i64_chars, parse_bool, parse_i32, parse_i64, parse_u16, parse_u32, parse_u64, u64_chars};
use spark_dashboard::text::{ascii_lower, lex_lt, trim, Strip};

fn cs(s: &str) -> Vec<char> {
    s.chars().collect()
}

#[test]
fn number_parsing_follows_str_parse() {
    assert_eq!(parse_u64(&cs("18446744073709551615")), Some(u64::MAX));
    assert_eq!(parse_u64(&cs("18446744073709551616")), None);
    assert_eq!(parse_u64(&cs("+7")), Some(7));
    assert_eq!(parse_u64(&cs("-7")), None);
    assert_eq!(parse_u32(&cs("4294967296")), None);
    assert_eq!(parse_u16(&cs("65535")), Some(65535));
    assert_eq!(parse_u16(&cs("70000")), None);
    assert_eq!(parse_i64(&cs("-9223372036854775808")), Some(i64::MIN));
    assert_eq!(parse_i32(&cs("-1")), Some(-1));
    assert_eq!(parse_i32(&cs("")), None);
    assert_eq!(parse_i32(&cs(" 1")), None);
    assert_eq!(parse_bool(&cs("true")), Some(true));
    assert_eq!(parse_bool(&cs("False")), None);
}

#[test]
fn number_formatting() {
    assert_eq!(i64_chars(-120).into_iter().collect::<String>(), "-120");
    assert_eq!(u64_chars(0).into_iter().collect::<String>(), "0");
}

#[test]
fn text_helpers() {
    assert_eq!(trim(&cs("  a b \n"), Strip::Whitespace).into_iter().collect::<String>(), "a b");
    assert_eq!(ascii_lower(&cs("HiSTory")).into_iter().collect::<String>(), "history");
    assert!(lex_lt(&cs("10"), &cs("9")));
    assert!(!lex_lt(&cs("b"), &cs("a")));
}

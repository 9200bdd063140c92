use edgee::numbers::{parse_u16, parse_u32, parse_i32, u128_to_string, i64_to_string};

fn cs(s: &str) -> Vec<char> { s.chars().collect() }

#[test]
fn parse_numbers_as_from_str_does() {
    assert_eq!(parse_u16(&cs("8080")), Some(8080));
    assert_eq!(parse_u16(&cs("+443")), Some(443));
    assert_eq!(parse_u16(&cs("65536")), None);
    assert_eq!(parse_u16(&cs("")), None);
    assert_eq!(parse_u16(&cs("+")), None);
    assert_eq!(parse_u16(&cs("-1")), None);
    assert_eq!(parse_u32(&cs("4294967295")), Some(4294967295));
    assert_eq!(parse_u32(&cs("4294967296")), None);
    assert_eq!(parse_i32(&cs("-2147483648")), Some(i32::MIN));
    assert_eq!(parse_i32(&cs("2147483647")), Some(i32::MAX));
    assert_eq!(parse_i32(&cs("2147483648")), None);
    assert_eq!(parse_i32(&cs("-")), None);
    assert_eq!(parse_i32(&cs("12a")), None);
    for s in ["0", "7", "-13", "+99", "1920", "-0"] {
        assert_eq!(parse_i32(&cs(s)), s.parse::<i32>().ok());
    }
}

#[test]
fn format_numbers_as_display_does() {
    assert_eq!(u128_to_string(0), "0");
    assert_eq!(u128_to_string(1234567890123), "1234567890123");
    assert_eq!(i64_to_string(-42), "-42");
    assert_eq!(i64_to_string(i64::MIN), i64::MIN.to_string());
    assert_eq!(i64_to_string(1700000000), "1700000000");
}

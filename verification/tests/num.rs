use realworld_core::num::{i64_to_dec, parse_bool, parse_i64, u64_to_dec};

#[test]
fn renders_decimals_exactly() {
    assert_eq!(u64_to_dec(0), "0");
    assert_eq!(u64_to_dec(10), "10");
    assert_eq!(u64_to_dec(18446744073709551615), "18446744073709551615");
    assert_eq!(i64_to_dec(0), "0");
    assert_eq!(i64_to_dec(-1), "-1");
    assert_eq!(i64_to_dec(i64::MAX), "9223372036854775807");
    assert_eq!(i64_to_dec(i64::MIN), "-9223372036854775808");
}

#[test]
fn parses_decimals_as_std_does() {
    for s in [
        "0",
        "42",
        "+7",
        "-0",
        "-42",
        "007",
        "9223372036854775807",
        "-9223372036854775808",
        "",
        "-",
        "+",
        "abc",
        "4 2",
        "9223372036854775808",
        "-9223372036854775809",
        "99999999999999999999999999",
        "0009223372036854775807",
    ] {
        assert_eq!(parse_i64(s), s.parse::<i64>().ok(), "input {s:?}");
    }
}

#[test]
fn parses_bools_as_std_does() {
    for s in ["true", "false", "True", "FALSE", "", "1", "0"] {
        assert_eq!(parse_bool(s), s.parse::<bool>().ok(), "input {s:?}");
    }
}

use omcli::strutil::{
    bearer_header_value, check_bearer, dec_string, format_code, parse_bool, parse_code,
    parse_u16, str_eq,
};
use omcli::timefmt::{days_to_ymd, default_filename, is_leap, split_uptime};

#[test]
fn pairing_codes_parse_and_format() {
    assert_eq!(parse_code("123456"), Some(123456));
    assert_eq!(parse_code("100000"), Some(100000));
    assert_eq!(parse_code("999999"), Some(999999));
    assert_eq!(parse_code("000042"), Some(42));
    assert_eq!(parse_code("12345"), None);
    assert_eq!(parse_code("1234567"), None);
    assert_eq!(parse_code("12a456"), None);
    assert_eq!(parse_code(""), None);
    assert_eq!(format_code(123456), "123456");
    assert_eq!(format_code(42), "000042");
    assert_eq!(parse_code(&format_code(987654)), Some(987654));
}

#[test]
fn decimal_rendering() {
    assert_eq!(dec_string(0), "0");
    assert_eq!(dec_string(7), "7");
    assert_eq!(dec_string(7333), "7333");
    assert_eq!(dec_string(18446744073709551615), "18446744073709551615");
}

#[test]
fn ports_parse_as_the_standard_library_does() {
    assert_eq!(parse_u16("7333"), Some(7333));
    assert_eq!(parse_u16("0"), Some(0));
    assert_eq!(parse_u16("+80"), Some(80));
    assert_eq!(parse_u16("00080"), Some(80));
    assert_eq!(parse_u16("65535"), Some(65535));
    assert_eq!(parse_u16("65536"), None);
    assert_eq!(parse_u16("999999999999999999999"), None);
    assert_eq!(parse_u16(""), None);
    assert_eq!(parse_u16("+"), None);
    assert_eq!(parse_u16("-1"), None);
    assert_eq!(parse_u16("80a"), None);
    assert_eq!(parse_u16("7333"), "7333".parse::<u16>().ok());
    assert_eq!(parse_u16("+80"), "+80".parse::<u16>().ok());
    assert_eq!(parse_u16("65536"), "65536".parse::<u16>().ok());
}

#[test]
fn bools_parse_strictly() {
    assert_eq!(parse_bool("true"), Some(true));
    assert_eq!(parse_bool("false"), Some(false));
    assert_eq!(parse_bool("True"), None);
    assert_eq!(parse_bool("1"), None);
    assert_eq!(parse_bool(""), None);
}

#[test]
fn bearer_headers_round_trip() {
    let key = String::from("my-api-key");
    let header = bearer_header_value(&key);
    assert_eq!(header, "Bearer my-api-key");
    assert!(check_bearer(&header, &key));
    assert!(!check_bearer("Bearer other", &key));
    assert!(!check_bearer("my-api-key", &key));
    assert!(!check_bearer("", &key));
}

#[test]
fn string_equality_helper() {
    assert!(str_eq("abc", "abc"));
    assert!(!str_eq("abc", "abd"));
    assert!(!str_eq("abc", "ab"));
}

#[test]
fn leap_years() {
    assert!(is_leap(2000));
    assert!(is_leap(2024));
    assert!(!is_leap(1900));
    assert!(!is_leap(2023));
}

#[test]
fn epoch_day_zero_is_new_year_1970() {
    assert_eq!(days_to_ymd(0), (1970, 1, 1));
    assert_eq!(days_to_ymd(364), (1970, 12, 31));
    assert_eq!(days_to_ymd(365), (1971, 1, 1));
    // 1972 is the first leap year after the epoch
    assert_eq!(days_to_ymd(365 + 365 + 59), (1972, 2, 29));
    assert_eq!(days_to_ymd(365 + 365 + 60), (1972, 3, 1));
}

#[test]
fn snapshot_filenames_carry_date_and_time() {
    assert_eq!(default_filename(0), "photo_1970-01-01_00-00-00.jpg");
    assert_eq!(default_filename(1700000000), "photo_2023-11-14_22-13-20.jpg");
}

#[test]
fn uptime_splits_into_hours_minutes_seconds() {
    assert_eq!(split_uptime(0), (0, 0, 0));
    assert_eq!(split_uptime(3661), (1, 1, 1));
    assert_eq!(split_uptime(86399), (23, 59, 59));
}

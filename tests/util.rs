use chat_core::simple_client::is_valid_username;
use chat_core::user_service::are_credentials_correct;
use chat_core::util::{current_time_millis_as_string, server_time_to_string, signed_decimal_string};

#[test]
fn decimal_text_of_integers() {
    assert_eq!(signed_decimal_string(0), "0");
    assert_eq!(signed_decimal_string(7), "7");
    assert_eq!(signed_decimal_string(1234567890), "1234567890");
    assert_eq!(signed_decimal_string(-42), "-42");
    assert_eq!(signed_decimal_string(i64::MAX), "9223372036854775807");
    assert_eq!(signed_decimal_string(i64::MIN), "-9223372036854775808");
}

#[test]
fn current_time_is_a_number_of_milliseconds() {
    let t: i64 = current_time_millis_as_string().parse().unwrap();
    assert!(t > 1_600_000_000_000);
}

#[test]
fn server_time_text() {
    assert_eq!(server_time_to_string(0), "1970-01-01 00:00:00 UTC");
    assert_eq!(server_time_to_string(1_500), "1970-01-01 00:00:01.500 UTC");
    assert_eq!(server_time_to_string(i64::MAX), "9223372036854775807");
}

#[test]
fn known_credentials() {
    assert!(are_credentials_correct("ian", "ian"));
    assert!(are_credentials_correct("chris", "chris"));
    assert!(!are_credentials_correct("ian", "dan"));
    assert!(!are_credentials_correct("bob", "bob"));
    assert!(!are_credentials_correct("", ""));
}

#[test]
fn usernames_that_are_valid() {
    assert!(is_valid_username("ian"));
    assert!(is_valid_username("a.b-c_d9"));
    assert!(is_valid_username("Zoë"));
    assert!(!is_valid_username(""));
    assert!(!is_valid_username("a b"));
    assert!(!is_valid_username("ian!"));
}

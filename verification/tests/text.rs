use handshake::outcome::Failure;
use handshake::text::decimal_string;

#[test]
fn decimal_string_writes_integers() {
    assert_eq!(decimal_string(0), "0");
    assert_eq!(decimal_string(9), "9");
    assert_eq!(decimal_string(10), "10");
    assert_eq!(decimal_string(764824073), "764824073");
    assert_eq!(decimal_string(-1), "-1");
    assert_eq!(decimal_string(-10), "-10");
    assert_eq!(decimal_string(1234567890), "1234567890");
}

#[test]
fn decimal_string_writes_the_ends_of_the_range() {
    assert_eq!(decimal_string(i128::MAX), "170141183460469231731687303715884105727");
    assert_eq!(decimal_string(i128::MIN), "-170141183460469231731687303715884105728");
    assert_eq!(decimal_string(i128::MIN + 1), "-170141183460469231731687303715884105727");
}

#[test]
fn decimal_string_agrees_with_the_standard_library() {
    let mut n: i128 = 1;
    for _ in 0..38 {
        assert_eq!(decimal_string(n), n.to_string());
        assert_eq!(decimal_string(-n), (-n).to_string());
        assert_eq!(decimal_string(n - 1), (n - 1).to_string());
        n *= 10;
    }
}

#[test]
fn message_of_a_malformed_payload_holds_the_hex() {
    assert_eq!(
        Failure::MalformedPayload("0a".to_string()).message(),
        "Unable to parse payload error! 0a"
    );
    assert_eq!(
        Failure::MalformedPayload(String::new()).message(),
        "Unable to parse payload error! "
    );
}

#[test]
fn message_of_a_refusal_is_its_reason() {
    assert_eq!(Failure::Rejected("incompatible peer".to_string()).message(), "incompatible peer");
    assert_eq!(Failure::Rejected(String::new()).message(), "");
}

#[test]
fn message_of_a_version_too_low_names_both_versions() {
    assert_eq!(
        Failure::VersionTooLow { expected: 5, actual: 3 }.message(),
        "Expected protocol version 5, but was 3"
    );
    assert_eq!(
        Failure::VersionTooLow { expected: 5, actual: -12 }.message(),
        "Expected protocol version 5, but was -12"
    );
}

#[test]
fn message_of_a_magic_mismatch_names_both_magics() {
    assert_eq!(
        Failure::MagicMismatch { expected: 764824073, actual: 1097911063 }.message(),
        "Expected network magic 764824073, but was 1097911063"
    );
    assert_eq!(
        Failure::MagicMismatch { expected: u32::MAX, actual: 0 }.message(),
        "Expected network magic 4294967295, but was 0"
    );
}

use handshake::codec::decode;
use handshake::confirm::{
    find_error_message, validate_data, MIN_PROTOCOL_VERSION, MSG_ACCEPT_VERSION_MSG_ID,
};
use handshake::datum::Datum;
use handshake::outcome::{Failure, Outcome};

const MAINNET: u32 = 764824073;

fn integer(n: i128) -> Datum {
    Datum::Integer(n)
}

fn text(s: &str) -> Datum {
    Datum::Text(s.to_string())
}

fn sequence(items: Vec<Datum>) -> Datum {
    Datum::Sequence(items)
}

fn judge(bytes: &[u8], magic: u32) -> Outcome {
    let answer = decode(bytes).expect("the answer is well formed");
    validate_data(&answer, hex::encode(bytes), magic)
}

fn malformed(hex_data: &str) -> Outcome {
    Outcome::Rejected(Failure::MalformedPayload(hex_data.to_string()))
}

#[test]
fn the_constants_are_those_of_the_protocol() {
    assert_eq!(MSG_ACCEPT_VERSION_MSG_ID, 1);
    assert_eq!(MIN_PROTOCOL_VERSION, 5);
}

#[test]
fn an_acceptance_for_the_own_network_is_agreed() {
    // [1, 5, [764824073, false]]
    let bytes = hex::decode("830105821a2d964a09f4").unwrap();
    assert_eq!(judge(&bytes, MAINNET), Outcome::Agreed { version: 5, magic: MAINNET });
}

#[test]
fn an_acceptance_is_agreed_whatever_follows_the_magic() {
    let agreed = Outcome::Agreed { version: 5, magic: 42 };
    let more = [
        integer(0),
        Datum::Boolean(true),
        text("x"),
        sequence(vec![]),
        Datum::Mapping(vec![]),
        Datum::Other,
    ];
    for x in more {
        let answer = sequence(vec![integer(1), integer(5), sequence(vec![integer(42), x])]);
        assert_eq!(validate_data(&answer, String::new(), 42), agreed);
    }
    let bare = sequence(vec![integer(1), integer(5), sequence(vec![integer(42)])]);
    assert_eq!(validate_data(&bare, String::new(), 42), agreed);
    let long = sequence(vec![integer(1), integer(5), sequence(vec![integer(42)]), text("more")]);
    assert_eq!(validate_data(&long, String::new(), 42), agreed);
}

#[test]
fn an_acceptance_of_a_later_version_is_agreed() {
    let params = sequence(vec![integer(42), Datum::Boolean(false)]);
    let answer = sequence(vec![integer(1), integer(6), params]);
    assert_eq!(
        validate_data(&answer, String::new(), 42),
        Outcome::Agreed { version: 6, magic: 42 }
    );
    let far = sequence(vec![integer(1), integer(i128::MAX), sequence(vec![integer(0)])]);
    assert_eq!(
        validate_data(&far, String::new(), 0),
        Outcome::Agreed { version: i128::MAX, magic: 0 }
    );
}

#[test]
fn an_acceptance_of_an_old_version_is_too_low() {
    // [1, 3, [764824073, false]]
    let bytes = hex::decode("830103821a2d964a09f4").unwrap();
    assert_eq!(
        judge(&bytes, MAINNET),
        Outcome::Rejected(Failure::VersionTooLow { expected: 5, actual: 3 })
    );
}

#[test]
fn the_version_is_judged_before_the_magic() {
    // too low, and for another network, and with nothing after the version
    let other = sequence(vec![integer(1), integer(4), sequence(vec![integer(1)])]);
    assert_eq!(
        validate_data(&other, String::new(), 2),
        Outcome::Rejected(Failure::VersionTooLow { expected: 5, actual: 4 })
    );
    let short = sequence(vec![integer(1), integer(-7)]);
    assert_eq!(
        validate_data(&short, String::new(), 2),
        Outcome::Rejected(Failure::VersionTooLow { expected: 5, actual: -7 })
    );
}

#[test]
fn an_acceptance_for_another_network_is_a_mismatch() {
    // [1, 5, [1097911063, false]]
    let bytes = hex::decode("830105821a4170cb17f4").unwrap();
    assert_eq!(
        judge(&bytes, MAINNET),
        Outcome::Rejected(Failure::MagicMismatch { expected: MAINNET, actual: 1097911063 })
    );
}

#[test]
fn a_magic_beyond_32_bits_is_a_mismatch() {
    let answer = sequence(vec![integer(1), integer(5), sequence(vec![integer(4294967296 + 42)])]);
    assert_eq!(
        validate_data(&answer, String::new(), 42),
        Outcome::Rejected(Failure::MagicMismatch { expected: 42, actual: 4294967296 + 42 })
    );
    let negative = sequence(vec![integer(1), integer(5), sequence(vec![integer(-42)])]);
    assert_eq!(
        validate_data(&negative, String::new(), 42),
        Outcome::Rejected(Failure::MagicMismatch { expected: 42, actual: -42 })
    );
}

#[test]
fn a_refusal_is_rejected_with_its_reason() {
    // [2, ["incompatible peer"]]
    let bytes = hex::decode("82028171696e636f6d70617469626c652070656572").unwrap();
    assert_eq!(
        judge(&bytes, MAINNET),
        Outcome::Rejected(Failure::Rejected("incompatible peer".to_string()))
    );
}

#[test]
fn a_refusal_that_names_a_version_is_rejected_with_its_reason() {
    // [2, [2, 5, "refused"]]
    let reason = sequence(vec![integer(2), integer(5), text("refused")]);
    let answer = sequence(vec![integer(2), reason]);
    assert_eq!(
        validate_data(&answer, String::new(), 1),
        Outcome::Rejected(Failure::Rejected("refused".to_string()))
    );
}

#[test]
fn an_acceptance_that_holds_another_kind_is_agreed() {
    // [1, 5, [764824073, null, h'00']]
    let bytes = hex::decode("830105831a2d964a09f64100").unwrap();
    assert_eq!(judge(&bytes, MAINNET), Outcome::Agreed { version: 5, magic: MAINNET });
}

#[test]
fn a_refusal_that_holds_another_kind_is_rejected_with_its_reason() {
    // [2, [null, "no"]]
    let bytes = hex::decode("820282f6626e6f").unwrap();
    assert_eq!(judge(&bytes, MAINNET), Outcome::Rejected(Failure::Rejected("no".to_string())));
}

#[test]
fn a_refusal_without_a_reason_is_malformed() {
    // [2, [0, [1, 2, 3]]]
    let bytes = hex::decode("8202820083010203").unwrap();
    assert_eq!(judge(&bytes, MAINNET), malformed("8202820083010203"));
}

#[test]
fn the_tag_of_a_proposal_is_no_acceptance() {
    let answer = sequence(vec![integer(0), text("why")]);
    assert_eq!(
        validate_data(&answer, String::new(), 1),
        Outcome::Rejected(Failure::Rejected("why".to_string()))
    );
}

#[test]
fn a_bare_integer_is_malformed() {
    assert_eq!(judge(&[0x0a], MAINNET), malformed("0a"));
    assert_eq!(judge(&[0x18, 0xff], MAINNET), malformed("18ff"));
}

#[test]
fn what_is_no_sequence_is_malformed() {
    let answers = [
        integer(1),
        Datum::Boolean(true),
        text("incompatible peer"),
        Datum::Mapping(vec![]),
        Datum::Other,
    ];
    for answer in answers {
        assert_eq!(validate_data(&answer, "beef".to_string(), 1), malformed("beef"));
    }
}

#[test]
fn a_sequence_of_the_wrong_shape_is_malformed() {
    let cases = vec![
        sequence(vec![]),
        sequence(vec![text("1"), integer(5), sequence(vec![integer(1)])]),
        sequence(vec![Datum::Boolean(true)]),
        sequence(vec![integer(1)]),
        sequence(vec![integer(1), text("5"), sequence(vec![integer(1)])]),
        sequence(vec![integer(1), integer(5)]),
        sequence(vec![integer(1), integer(5), integer(1)]),
        sequence(vec![integer(1), integer(5), sequence(vec![])]),
        sequence(vec![integer(1), integer(5), sequence(vec![text("1")])]),
        sequence(vec![integer(1), integer(5), Datum::Mapping(vec![(integer(0), integer(1))])]),
        sequence(vec![Datum::Other, integer(5), sequence(vec![integer(1)])]),
        sequence(vec![integer(1), Datum::Other, sequence(vec![integer(1)])]),
        sequence(vec![integer(1), integer(5), Datum::Other]),
        sequence(vec![integer(1), integer(5), sequence(vec![Datum::Other])]),
    ];
    for answer in cases {
        assert_eq!(validate_data(&answer, "00".to_string(), 1), malformed("00"));
    }
}

#[test]
fn an_acceptance_is_not_searched_for_a_reason() {
    // tagged as an acceptance: the text in it is no reason
    let answer = sequence(vec![integer(1), text("no")]);
    assert_eq!(validate_data(&answer, "aa".to_string(), 1), malformed("aa"));
}

#[test]
fn find_error_message_finds_the_first_text() {
    assert_eq!(find_error_message(&text("a")), Some("a".to_string()));
    assert_eq!(find_error_message(&text("")), Some(String::new()));
    assert_eq!(find_error_message(&sequence(vec![text("a"), text("b")])), Some("a".to_string()));
    let deep = sequence(vec![integer(1), sequence(vec![integer(2), text("deep")]), text("late")]);
    assert_eq!(find_error_message(&deep), Some("deep".to_string()));
    let deeper = sequence(vec![sequence(vec![]), sequence(vec![sequence(vec![text("x")])])]);
    assert_eq!(find_error_message(&deeper), Some("x".to_string()));
}

#[test]
fn find_error_message_looks_into_the_values_of_a_mapping() {
    let mapping = Datum::Mapping(vec![(integer(1), integer(2)), (integer(2), text("value"))]);
    assert_eq!(find_error_message(&mapping), Some("value".to_string()));
    let inner = Datum::Mapping(vec![(integer(0), sequence(vec![text("in")]))]);
    let nested = sequence(vec![integer(2), inner]);
    assert_eq!(find_error_message(&nested), Some("in".to_string()));
    // a key is not a value
    let keyed = Datum::Mapping(vec![(text("key"), integer(1))]);
    assert_eq!(find_error_message(&keyed), None);
    let both = Datum::Mapping(vec![(text("key"), text("value"))]);
    assert_eq!(find_error_message(&both), Some("value".to_string()));
}

#[test]
fn find_error_message_finds_nothing_where_no_text_is() {
    assert_eq!(find_error_message(&integer(1)), None);
    assert_eq!(find_error_message(&Datum::Boolean(false)), None);
    assert_eq!(find_error_message(&Datum::Other), None);
    assert_eq!(find_error_message(&sequence(vec![])), None);
    assert_eq!(find_error_message(&Datum::Mapping(vec![])), None);
    let full = sequence(vec![
        integer(1),
        sequence(vec![Datum::Boolean(true)]),
        Datum::Mapping(vec![(integer(1), Datum::Other)]),
    ]);
    assert_eq!(find_error_message(&full), None);
}

use handshake::codec::{decode, encode};
use handshake::datum::Datum;
use handshake::negotiate::{
    find_highest_common, find_offer, negotiate, read_magic, reply, MSG_REFUSE_MSG_ID,
};
use handshake::outcome::{Failure, Outcome};
use handshake::propose::{
    propose_versions, MSG_PROPOSE_VERSIONS_MSG_ID, PROTOCOL_VERSION_1, PROTOCOL_VERSION_2,
    PROTOCOL_VERSION_ALLEGRA, PROTOCOL_VERSION_SHELLEY, PROTOCOL_VERSION_SHELLEY2,
};

fn integer(n: i128) -> Datum {
    Datum::Integer(n)
}

fn pair(magic: i128) -> Datum {
    Datum::Sequence(vec![integer(magic), Datum::Boolean(false)])
}

fn proposal_of(entries: Vec<(Datum, Datum)>) -> Datum {
    Datum::Sequence(vec![integer(0), Datum::Mapping(entries)])
}

fn malformed(hex_data: &str) -> Outcome {
    Outcome::Rejected(Failure::MalformedPayload(hex_data.to_string()))
}

#[test]
fn the_versions_and_tags_are_those_of_the_protocol() {
    assert_eq!(MSG_PROPOSE_VERSIONS_MSG_ID, 0);
    assert_eq!(MSG_REFUSE_MSG_ID, 2);
    assert_eq!(PROTOCOL_VERSION_1, 1);
    assert_eq!(PROTOCOL_VERSION_2, 2);
    assert_eq!(PROTOCOL_VERSION_SHELLEY, 3);
    assert_eq!(PROTOCOL_VERSION_SHELLEY2, 4);
    assert_eq!(PROTOCOL_VERSION_ALLEGRA, 5);
}

#[test]
fn the_own_proposal_is_accepted_with_the_latest_version() {
    for magic in [0u32, 42, 764824073, u32::MAX] {
        assert_eq!(
            negotiate(&propose_versions(magic), String::new(), magic),
            Outcome::Agreed { version: 5, magic }
        );
    }
}

#[test]
fn the_highest_common_version_is_accepted() {
    // versions 7 and 6 are not spoken here, 4 is
    let proposal = proposal_of(vec![
        (integer(2), integer(9)),
        (integer(4), pair(9)),
        (integer(6), pair(9)),
        (integer(7), pair(9)),
    ]);
    assert_eq!(negotiate(&proposal, String::new(), 9), Outcome::Agreed { version: 4, magic: 9 });
    // the order of the entries does not matter
    let unordered =
        proposal_of(vec![(integer(4), pair(9)), (integer(5), pair(9)), (integer(1), integer(9))]);
    assert_eq!(negotiate(&unordered, String::new(), 9), Outcome::Agreed { version: 5, magic: 9 });
}

#[test]
fn an_old_version_is_accepted_with_the_bare_magic() {
    let proposal = proposal_of(vec![(integer(1), integer(9)), (integer(3), integer(9))]);
    assert_eq!(negotiate(&proposal, String::new(), 9), Outcome::Agreed { version: 3, magic: 9 });
}

#[test]
fn a_proposal_without_a_common_version_is_refused() {
    let refused = Outcome::Rejected(Failure::Rejected("no common protocol version".to_string()));
    assert_eq!(negotiate(&proposal_of(vec![]), String::new(), 9), refused);
    let later =
        proposal_of(vec![(integer(6), pair(9)), (integer(0), integer(9)), (integer(-5), integer(9))]);
    assert_eq!(negotiate(&later, String::new(), 9), refused);
    let keyed_by_text = proposal_of(vec![(Datum::Text("5".to_string()), pair(9))]);
    assert_eq!(negotiate(&keyed_by_text, String::new(), 9), refused);
}

#[test]
fn a_proposal_for_another_network_is_refused() {
    assert_eq!(
        negotiate(&propose_versions(1097911063), String::new(), 764824073),
        Outcome::Rejected(Failure::MagicMismatch { expected: 764824073, actual: 1097911063 })
    );
}

#[test]
fn only_the_magic_of_the_highest_common_version_counts() {
    // version 5 names another network, version 4 this one
    let proposal = proposal_of(vec![(integer(4), pair(9)), (integer(5), pair(8))]);
    assert_eq!(
        negotiate(&proposal, String::new(), 9),
        Outcome::Rejected(Failure::MagicMismatch { expected: 9, actual: 8 })
    );
}

#[test]
fn parameters_of_the_wrong_shape_are_malformed() {
    // a pair for an old version, a bare magic for a later one
    let old = proposal_of(vec![(integer(3), pair(9))]);
    assert_eq!(negotiate(&old, "0badf00d".to_string(), 9), malformed("0badf00d"));
    let later = proposal_of(vec![(integer(5), integer(9))]);
    assert_eq!(negotiate(&later, "aa".to_string(), 9), malformed("aa"));
    let empty = proposal_of(vec![(integer(5), Datum::Sequence(vec![]))]);
    assert_eq!(negotiate(&empty, "bb".to_string(), 9), malformed("bb"));
    let text = proposal_of(vec![(integer(5), Datum::Sequence(vec![Datum::Text("9".to_string())]))]);
    assert_eq!(negotiate(&text, "cc".to_string(), 9), malformed("cc"));
}

#[test]
fn what_is_no_proposal_is_malformed() {
    let cases = vec![
        integer(0),
        Datum::Mapping(vec![(integer(5), pair(9))]),
        Datum::Sequence(vec![]),
        Datum::Sequence(vec![integer(0)]),
        Datum::Sequence(vec![integer(1), Datum::Mapping(vec![(integer(5), pair(9))])]),
        Datum::Sequence(vec![Datum::Boolean(false), Datum::Mapping(vec![(integer(5), pair(9))])]),
        Datum::Sequence(vec![integer(0), Datum::Sequence(vec![integer(5), pair(9)])]),
        Datum::Sequence(vec![integer(0), integer(5)]),
    ];
    for proposal in cases {
        assert_eq!(negotiate(&proposal, "dd".to_string(), 9), malformed("dd"));
    }
}

#[test]
fn find_offer_finds_the_first_entry_of_a_version() {
    let entries = vec![
        (integer(1), integer(10)),
        (Datum::Text("2".to_string()), integer(20)),
        (integer(2), integer(21)),
        (integer(2), integer(22)),
    ];
    assert_eq!(find_offer(&entries, 1), Some(&integer(10)));
    assert_eq!(find_offer(&entries, 2), Some(&integer(21)));
    assert_eq!(find_offer(&entries, 3), None);
    assert_eq!(find_offer(&vec![], 1), None);
}

#[test]
fn find_highest_common_goes_by_the_version() {
    let entries =
        vec![(integer(6), integer(60)), (integer(3), integer(30)), (integer(4), integer(40))];
    assert_eq!(find_highest_common(&entries), Some((4, &integer(40))));
    let none = vec![(integer(6), integer(60)), (integer(0), integer(0))];
    assert_eq!(find_highest_common(&none), None);
    assert_eq!(find_highest_common(&vec![]), None);
    assert_eq!(find_highest_common(&vec![(integer(1), integer(1))]), Some((1, &integer(1))));
    assert_eq!(find_highest_common(&vec![(integer(5), integer(1))]), Some((5, &integer(1))));
}

#[test]
fn read_magic_goes_by_the_shape_of_the_version() {
    assert_eq!(read_magic(1, &integer(7)), Some(7));
    assert_eq!(read_magic(3, &integer(-7)), Some(-7));
    assert_eq!(read_magic(3, &pair(7)), None);
    assert_eq!(read_magic(4, &pair(7)), Some(7));
    assert_eq!(read_magic(5, &Datum::Sequence(vec![integer(7)])), Some(7));
    assert_eq!(read_magic(5, &integer(7)), None);
    assert_eq!(read_magic(5, &Datum::Sequence(vec![])), None);
    assert_eq!(read_magic(5, &Datum::Sequence(vec![Datum::Boolean(false), integer(7)])), None);
}

#[test]
fn reply_to_an_agreement_is_the_acceptance() {
    let accept = reply(&Outcome::Agreed { version: 5, magic: 764824073 });
    assert_eq!(accept, Datum::Sequence(vec![integer(1), integer(5), pair(764824073)]));
    assert_eq!(encode(&accept), hex::decode("830105821a2d964a09f4").unwrap());
    let old = reply(&Outcome::Agreed { version: 3, magic: 9 });
    assert_eq!(old, Datum::Sequence(vec![integer(1), integer(3), integer(9)]));
}

#[test]
fn reply_to_a_failure_is_the_refusal_with_its_message() {
    let refuse = reply(&Outcome::Rejected(Failure::MagicMismatch { expected: 2, actual: 1 }));
    assert_eq!(
        refuse,
        Datum::Sequence(vec![
            integer(2),
            Datum::Sequence(vec![Datum::Text("Expected network magic 2, but was 1".to_string())]),
        ])
    );
    let read = decode(&encode(&refuse)).unwrap();
    assert_eq!(read, refuse);
    let plain = reply(&Outcome::Rejected(Failure::Rejected("incompatible peer".to_string())));
    assert_eq!(encode(&plain), hex::decode("82028171696e636f6d70617469626c652070656572").unwrap());
}

//! Reading the peer's answer to a proposal.

use crate::datum::{lemma_view, Datum, Term};
use crate::outcome::{Failure, FailureModel, Outcome, OutcomeModel};
use vstd::prelude::*;

verus! {

/// The tag of the message that accepts a version.
pub const MSG_ACCEPT_VERSION_MSG_ID: i128 = 1;

/// The oldest protocol version that this side takes from a peer.
pub const MIN_PROTOCOL_VERSION: i128 = 5;

/// The first text met when `term` is walked depth first: through the items
/// of a sequence and the values of a mapping, in their order.
pub open spec fn first_text(term: Term) -> Option<Seq<char>>
    decreases term, 0nat,
{
    match term {
        Term::Text(text) => Some(text),
        Term::Sequence(items) => first_text_of_items(items, 0),
        Term::Mapping(entries) => first_text_of_entries(entries, 0),
        _ => None,
    }
}

/// The first text in `items[from..]`.
pub open spec fn first_text_of_items(items: Seq<Term>, from: int) -> Option<Seq<char>>
    decreases items, items.len() - from,
{
    if 0 <= from < items.len() {
        match first_text(items[from]) {
            Some(text) => Some(text),
            None => first_text_of_items(items, from + 1),
        }
    } else {
        None
    }
}

/// The first text in the values of `entries[from..]`.
pub open spec fn first_text_of_entries(entries: Seq<(Term, Term)>, from: int) -> Option<
    Seq<char>,
>
    decreases entries, entries.len() - from,
{
    if 0 <= from < entries.len() {
        match first_text(entries[from].1) {
            Some(text) => Some(text),
            None => first_text_of_entries(entries, from + 1),
        }
    } else {
        None
    }
}

/// Searches `value` for the reason that a refusing peer put somewhere in its
/// answer.
pub fn find_error_message(value: &Datum) -> (r: Option<String>)
    ensures
        match first_text(value@) {
            Some(text) => r matches Some(found) && found@ == text,
            None => r is None,
        },
    decreases value,
{
    match value {
        Datum::Text(text) => Some(text.clone()),
        Datum::Sequence(items) => {
            let ghost terms = value@->Sequence_0;
            let mut i: usize = 0;
            while i < items.len()
                invariant
                    i <= items.len(),
                    value == Datum::Sequence(*items),
                    terms == value@->Sequence_0,
                    first_text(value@) == first_text_of_items(terms, i as int),
                decreases items.len() - i,
            {
                match find_error_message(&items[i]) {
                    Some(found) => {
                        return Some(found);
                    },
                    None => {},
                }
                i += 1;
            }
            None
        },
        Datum::Mapping(entries) => {
            let ghost terms = value@->Mapping_0;
            let mut i: usize = 0;
            while i < entries.len()
                invariant
                    i <= entries.len(),
                    value == Datum::Mapping(*entries),
                    terms == value@->Mapping_0,
                    first_text(value@) == first_text_of_entries(terms, i as int),
                decreases entries.len() - i,
            {
                match find_error_message(&entries[i].1) {
                    Some(found) => {
                        return Some(found);
                    },
                    None => {},
                }
                i += 1;
            }
            None
        },
        _ => None,
    }
}

/// What an answer of the peer means to a side that proposed on the network
/// `magic`, and that renders the answer as `hex` where it cannot read it.
///
/// The steps come in this order, and the first that fails decides: the
/// answer is a sequence; its first item is an integer; where that is not the
/// tag of an acceptance, the answer is a refusal, and the first text in it is
/// the reason; its second item is an integer, the version, and not below
/// [`MIN_PROTOCOL_VERSION`]; its third item is a sequence that starts with an
/// integer, the magic of the peer, which is `magic`.
pub open spec fn confirmation_outcome(answer: Term, hex: Seq<char>, magic: int) -> OutcomeModel {
    let malformed = OutcomeModel::Rejected(FailureModel::MalformedPayload(hex));
    match answer {
        Term::Sequence(items) => {
            if items.len() >= 1 && items[0] is Integer {
                if items[0]->Integer_0 != MSG_ACCEPT_VERSION_MSG_ID {
                    match first_text(answer) {
                        Some(reason) => OutcomeModel::Rejected(FailureModel::Rejected(reason)),
                        None => malformed,
                    }
                } else if items.len() >= 2 && items[1] is Integer {
                    let version = items[1]->Integer_0;
                    if version < MIN_PROTOCOL_VERSION {
                        OutcomeModel::Rejected(
                            FailureModel::VersionTooLow {
                                expected: MIN_PROTOCOL_VERSION as int,
                                actual: version,
                            },
                        )
                    } else if items.len() >= 3 && items[2] is Sequence && items[2]->Sequence_0.len()
                        >= 1 && items[2]->Sequence_0[0] is Integer {
                        let accepted = items[2]->Sequence_0[0]->Integer_0;
                        if accepted == magic {
                            OutcomeModel::Agreed { version, magic }
                        } else {
                            OutcomeModel::Rejected(
                                FailureModel::MagicMismatch { expected: magic, actual: accepted },
                            )
                        }
                    } else {
                        malformed
                    }
                } else {
                    malformed
                }
            } else {
                malformed
            }
        },
        _ => malformed,
    }
}

/// Judges the answer of the peer to a proposal made on the network
/// `network_magic`. `hex_data` is the answer as it came, in hex, for the case
/// that it cannot be read.
pub fn validate_data(confirm: &Datum, hex_data: String, network_magic: u32) -> (r: Outcome)
    ensures
        r@ == confirmation_outcome(confirm@, hex_data@, network_magic as int),
{
    let confirm_vec = match confirm {
        Datum::Sequence(confirm_vec) => confirm_vec,
        _ => {
            return Outcome::Rejected(Failure::MalformedPayload(hex_data));
        },
    };
    proof {
        lemma_view(*confirm);
    }
    if confirm_vec.len() < 1 {
        return Outcome::Rejected(Failure::MalformedPayload(hex_data));
    }
    proof {
        lemma_view(confirm_vec[0]);
    }
    let msg_type: i128 = match &confirm_vec[0] {
        Datum::Integer(msg_type) => *msg_type,
        _ => {
            return Outcome::Rejected(Failure::MalformedPayload(hex_data));
        },
    };
    if msg_type != MSG_ACCEPT_VERSION_MSG_ID {
        return match find_error_message(confirm) {
            Some(error_message) => Outcome::Rejected(Failure::Rejected(error_message)),
            None => Outcome::Rejected(Failure::MalformedPayload(hex_data)),
        };
    }
    if confirm_vec.len() < 2 {
        return Outcome::Rejected(Failure::MalformedPayload(hex_data));
    }
    proof {
        lemma_view(confirm_vec[1]);
    }
    let accepted_protocol: i128 = match &confirm_vec[1] {
        Datum::Integer(accepted_protocol) => *accepted_protocol,
        _ => {
            return Outcome::Rejected(Failure::MalformedPayload(hex_data));
        },
    };
    if accepted_protocol < MIN_PROTOCOL_VERSION {
        return Outcome::Rejected(
            Failure::VersionTooLow { expected: MIN_PROTOCOL_VERSION, actual: accepted_protocol },
        );
    }
    if confirm_vec.len() < 3 {
        return Outcome::Rejected(Failure::MalformedPayload(hex_data));
    }
    proof {
        lemma_view(confirm_vec[2]);
    }
    let accepted_vec = match &confirm_vec[2] {
        Datum::Sequence(accepted_vec) => accepted_vec,
        _ => {
            return Outcome::Rejected(Failure::MalformedPayload(hex_data));
        },
    };
    if accepted_vec.len() < 1 {
        return Outcome::Rejected(Failure::MalformedPayload(hex_data));
    }
    proof {
        lemma_view(accepted_vec[0]);
    }
    let accepted_magic: i128 = match &accepted_vec[0] {
        Datum::Integer(accepted_magic) => *accepted_magic,
        _ => {
            return Outcome::Rejected(Failure::MalformedPayload(hex_data));
        },
    };
    if accepted_magic == network_magic as i128 {
        Outcome::Agreed { version: accepted_protocol, magic: network_magic }
    } else {
        Outcome::Rejected(
            Failure::MagicMismatch { expected: network_magic, actual: accepted_magic },
        )
    }
}

/// An acceptance of a version that this side takes, made for the network of
/// this side, is agreed to, whatever else the parameters hold.
pub proof fn law_acceptance_agreed(version: int, magic: int, more: Seq<Term>, hex: Seq<char>)
    requires
        version >= MIN_PROTOCOL_VERSION,
    ensures
        confirmation_outcome(
            Term::Sequence(
                seq![
                    Term::Integer(MSG_ACCEPT_VERSION_MSG_ID as int),
                    Term::Integer(version),
                    Term::Sequence(seq![Term::Integer(magic)] + more),
                ],
            ),
            hex,
            magic,
        ) == (OutcomeModel::Agreed { version, magic }),
{
}

/// An acceptance of a version below the minimum fails as too low, whatever
/// follows the version.
pub proof fn law_version_too_low(version: int, magic: int, more: Seq<Term>, hex: Seq<char>)
    requires
        version < MIN_PROTOCOL_VERSION,
    ensures
        confirmation_outcome(
            Term::Sequence(
                seq![Term::Integer(MSG_ACCEPT_VERSION_MSG_ID as int), Term::Integer(version)]
                    + more,
            ),
            hex,
            magic,
        ) == OutcomeModel::Rejected(
            FailureModel::VersionTooLow { expected: MIN_PROTOCOL_VERSION as int, actual: version },
        ),
{
}

/// An acceptance made for another network fails as a mismatch of the two
/// magics.
pub proof fn law_magic_mismatch(
    version: int,
    magic: int,
    other: int,
    more: Seq<Term>,
    hex: Seq<char>,
)
    requires
        version >= MIN_PROTOCOL_VERSION,
        other != magic,
    ensures
        confirmation_outcome(
            Term::Sequence(
                seq![
                    Term::Integer(MSG_ACCEPT_VERSION_MSG_ID as int),
                    Term::Integer(version),
                    Term::Sequence(seq![Term::Integer(other)] + more),
                ],
            ),
            hex,
            magic,
        ) == OutcomeModel::Rejected(FailureModel::MagicMismatch { expected: magic, actual: other }),
{
}

/// A message under another tag than that of an acceptance, which holds a
/// sequence that starts with a text, is a refusal for the reason that the
/// text gives.
pub proof fn law_refusal_rejected(
    tag: int,
    reason: Seq<char>,
    more: Seq<Term>,
    magic: int,
    hex: Seq<char>,
)
    requires
        tag != MSG_ACCEPT_VERSION_MSG_ID,
    ensures
        confirmation_outcome(
            Term::Sequence(
                seq![Term::Integer(tag), Term::Sequence(seq![Term::Text(reason)] + more)],
            ),
            hex,
            magic,
        ) == OutcomeModel::Rejected(FailureModel::Rejected(reason)),
{
    let inner = seq![Term::Text(reason)] + more;
    let items = seq![Term::Integer(tag), Term::Sequence(inner)];
    assert(first_text(inner[0]) == Some(reason));
    assert(first_text_of_items(inner, 0) == Some(reason));
    assert(first_text(items[1]) == Some(reason));
    assert(first_text(items[0]) is None);
    assert(first_text_of_items(items, 1) == Some(reason));
    assert(first_text_of_items(items, 0) == Some(reason));
}

/// A message that is no sequence is malformed, and the failure holds the
/// message in hex.
pub proof fn law_not_a_sequence_malformed(answer: Term, magic: int, hex: Seq<char>)
    requires
        answer !is Sequence,
    ensures
        confirmation_outcome(answer, hex, magic) == OutcomeModel::Rejected(
            FailureModel::MalformedPayload(hex),
        ),
{
}

} // verus!

//! Answering a proposal: the version to accept, or the reason to refuse.

use crate::confirm::MSG_ACCEPT_VERSION_MSG_ID;
use crate::datum::{entry_terms, lemma_view, Datum, Term};
use crate::outcome::{message_text, Failure, FailureModel, Outcome, OutcomeModel};
use crate::propose::{
    lemma_version_params_canonical, supported, version_data, version_params,
    MSG_PROPOSE_VERSIONS_MSG_ID, PROTOCOL_VERSION_1, PROTOCOL_VERSION_ALLEGRA,
    PROTOCOL_VERSION_SHELLEY,
};
use vstd::prelude::*;

verus! {

/// The tag of the message that refuses a proposal.
pub const MSG_REFUSE_MSG_ID: i128 = 2;

/// The parameters with which `entries[from..]` offer `version`: those of the
/// first entry that is keyed by it.
pub open spec fn offer_from(entries: Seq<(Term, Term)>, version: int, from: int) -> Option<Term>
    decreases entries.len() - from,
{
    if 0 <= from < entries.len() {
        if entries[from].0 == Term::Integer(version) {
            Some(entries[from].1)
        } else {
            offer_from(entries, version, from + 1)
        }
    } else {
        None
    }
}

/// The parameters with which `entries` offer `version`.
pub open spec fn offer(entries: Seq<(Term, Term)>, version: int) -> Option<Term> {
    offer_from(entries, version, 0)
}

/// The highest version, from `top` down, that this side speaks and that
/// `entries` offer.
pub open spec fn highest_common(entries: Seq<(Term, Term)>, top: int) -> Option<int>
    decreases top,
{
    if top < PROTOCOL_VERSION_1 {
        None
    } else if offer(entries, top) is Some {
        Some(top)
    } else {
        highest_common(entries, top - 1)
    }
}

/// The magic that the parameters of `version` name, where they have the
/// shape of that version: see [`version_params`].
pub open spec fn magic_in(version: int, params: Term) -> Option<int> {
    if version <= PROTOCOL_VERSION_SHELLEY {
        match params {
            Term::Integer(magic) => Some(magic),
            _ => None,
        }
    } else {
        match params {
            Term::Sequence(items) => if items.len() >= 1 && items[0] is Integer {
                Some(items[0]->Integer_0)
            } else {
                None
            },
            _ => None,
        }
    }
}

/// The text with which a proposal is refused that offers no version that this
/// side speaks.
pub open spec fn no_common_version() -> Seq<char> {
    "no common protocol version"@
}

/// How a side on the network `magic` answers a proposal, which it renders as
/// `hex` where it cannot read it.
///
/// A proposal is a sequence of the tag [`MSG_PROPOSE_VERSIONS_MSG_ID`] and a
/// mapping from versions to their parameters. The answer goes by the highest
/// version that both sides speak: it is accepted where the proposal names
/// `magic` for it, and refused where it names another network.
pub open spec fn negotiation(proposal: Term, hex: Seq<char>, magic: int) -> OutcomeModel {
    let malformed = OutcomeModel::Rejected(FailureModel::MalformedPayload(hex));
    match proposal {
        Term::Sequence(items) => {
            if items.len() >= 2 && items[0] == Term::Integer(MSG_PROPOSE_VERSIONS_MSG_ID as int)
                && items[1] is Mapping {
                let entries = items[1]->Mapping_0;
                match highest_common(entries, PROTOCOL_VERSION_ALLEGRA as int) {
                    Some(version) => match magic_in(version, offer(entries, version)->Some_0) {
                        Some(offered) => if offered == magic {
                            OutcomeModel::Agreed { version, magic }
                        } else {
                            OutcomeModel::Rejected(
                                FailureModel::MagicMismatch { expected: magic, actual: offered },
                            )
                        },
                        None => malformed,
                    },
                    None => OutcomeModel::Rejected(FailureModel::Rejected(no_common_version())),
                }
            } else {
                malformed
            }
        },
        _ => malformed,
    }
}

/// The message that tells the peer how its proposal was answered: the version
/// accepted, with its parameters, or the reason of the refusal as a text.
pub open spec fn reply_term(outcome: OutcomeModel) -> Term {
    match outcome {
        OutcomeModel::Agreed { version, magic } => Term::Sequence(
            seq![
                Term::Integer(MSG_ACCEPT_VERSION_MSG_ID as int),
                Term::Integer(version),
                version_params(version, magic),
            ],
        ),
        OutcomeModel::Rejected(failure) => Term::Sequence(
            seq![
                Term::Integer(MSG_REFUSE_MSG_ID as int),
                Term::Sequence(seq![Term::Text(message_text(failure))]),
            ],
        ),
    }
}

/// Looks up the parameters with which `entries` offer `version`.
pub fn find_offer(entries: &Vec<(Datum, Datum)>, version: i128) -> (r: Option<&Datum>)
    ensures
        match offer(entry_terms(entries@), version as int) {
            Some(params) => r matches Some(found) && found@ == params,
            None => r is None,
        },
{
    let ghost terms = entry_terms(entries@);
    let mut i: usize = 0;
    while i < entries.len()
        invariant
            i <= entries.len(),
            terms == entry_terms(entries@),
            offer(terms, version as int) == offer_from(terms, version as int, i as int),
        decreases entries.len() - i,
    {
        proof {
            lemma_view(entries[i as int].0);
        }
        match &entries[i].0 {
            Datum::Integer(key) => {
                if *key == version {
                    return Some(&entries[i].1);
                }
            },
            _ => {},
        }
        i += 1;
    }
    None
}

/// Picks the highest version that this side speaks and that `entries` offer.
pub fn find_highest_common(entries: &Vec<(Datum, Datum)>) -> (r: Option<(i128, &Datum)>)
    ensures
        match highest_common(entry_terms(entries@), PROTOCOL_VERSION_ALLEGRA as int) {
            Some(version) => r matches Some((v, params)) && v == version && Some(params@) == offer(
                entry_terms(entries@),
                version,
            ),
            None => r is None,
        },
{
    let ghost terms = entry_terms(entries@);
    let mut version: i128 = PROTOCOL_VERSION_ALLEGRA;
    while version >= PROTOCOL_VERSION_1
        invariant
            PROTOCOL_VERSION_1 - 1 <= version <= PROTOCOL_VERSION_ALLEGRA,
            terms == entry_terms(entries@),
            highest_common(terms, PROTOCOL_VERSION_ALLEGRA as int) == highest_common(
                terms,
                version as int,
            ),
        decreases version,
    {
        match find_offer(entries, version) {
            Some(params) => {
                return Some((version, params));
            },
            None => {},
        }
        version -= 1;
    }
    None
}

/// Reads the magic that the parameters of `version` name.
pub fn read_magic(version: i128, params: &Datum) -> (r: Option<i128>)
    ensures
        r matches Some(magic) ==> magic_in(version as int, params@) == Some(magic as int),
        r is None ==> magic_in(version as int, params@) is None,
{
    proof {
        lemma_view(*params);
    }
    if version <= PROTOCOL_VERSION_SHELLEY {
        match params {
            Datum::Integer(magic) => Some(*magic),
            _ => None,
        }
    } else {
        match params {
            Datum::Sequence(items) => {
                if items.len() < 1 {
                    return None;
                }
                proof {
                    lemma_view(items[0]);
                }
                match &items[0] {
                    Datum::Integer(magic) => Some(*magic),
                    _ => None,
                }
            },
            _ => None,
        }
    }
}

/// Answers the proposal of a peer on behalf of a side that runs on the
/// network `network_magic`. `hex_data` is the proposal as it came, in hex,
/// for the case that it cannot be read.
pub fn negotiate(proposal: &Datum, hex_data: String, network_magic: u32) -> (r: Outcome)
    ensures
        r@ == negotiation(proposal@, hex_data@, network_magic as int),
{
    let items = match proposal {
        Datum::Sequence(items) => items,
        _ => {
            return Outcome::Rejected(Failure::MalformedPayload(hex_data));
        },
    };
    proof {
        lemma_view(*proposal);
    }
    if items.len() < 2 {
        return Outcome::Rejected(Failure::MalformedPayload(hex_data));
    }
    proof {
        lemma_view(items[0]);
        lemma_view(items[1]);
    }
    let tagged = match &items[0] {
        Datum::Integer(tag) => *tag == MSG_PROPOSE_VERSIONS_MSG_ID,
        _ => false,
    };
    if !tagged {
        return Outcome::Rejected(Failure::MalformedPayload(hex_data));
    }
    let entries = match &items[1] {
        Datum::Mapping(entries) => entries,
        _ => {
            return Outcome::Rejected(Failure::MalformedPayload(hex_data));
        },
    };
    match find_highest_common(entries) {
        Some((version, params)) => match read_magic(version, params) {
            Some(offered) => {
                if offered == network_magic as i128 {
                    Outcome::Agreed { version, magic: network_magic }
                } else {
                    Outcome::Rejected(
                        Failure::MagicMismatch { expected: network_magic, actual: offered },
                    )
                }
            },
            None => Outcome::Rejected(Failure::MalformedPayload(hex_data)),
        },
        None => Outcome::Rejected(Failure::Rejected("no common protocol version".to_string())),
    }
}

/// What is offered for a version is what the first entry holds that is keyed
/// by it, and nothing is offered only where no entry is keyed by it.
pub proof fn law_offer_is_the_first_entry(entries: Seq<(Term, Term)>, version: int, from: int)
    requires
        0 <= from,
    ensures
        match offer_from(entries, version, from) {
            Some(params) => exists|i: int|
                {
                    &&& from <= i < entries.len()
                    &&& #[trigger] entries[i] == (Term::Integer(version), params)
                    &&& forall|j: int|
                        from <= j < i ==> (#[trigger] entries[j]).0 != Term::Integer(version)
                },
            None => forall|i: int|
                from <= i < entries.len() ==> (#[trigger] entries[i]).0 != Term::Integer(version),
        },
    decreases entries.len() - from,
{
    if from < entries.len() {
        if entries[from].0 == Term::Integer(version) {
            assert(entries[from] == (Term::Integer(version), entries[from].1));
        } else {
            law_offer_is_the_first_entry(entries, version, from + 1);
            if offer_from(entries, version, from + 1) is Some {
                let params = offer_from(entries, version, from + 1)->Some_0;
                let i = choose|i: int|
                    {
                        &&& from + 1 <= i < entries.len()
                        &&& #[trigger] entries[i] == (Term::Integer(version), params)
                        &&& forall|j: int|
                            from + 1 <= j < i ==> (#[trigger] entries[j]).0 != Term::Integer(
                                version,
                            )
                    };
                assert(forall|j: int|
                    from <= j < i ==> (#[trigger] entries[j]).0 != Term::Integer(version));
            }
        }
    }
}

/// A search for an offer may skip the entries that are keyed otherwise.
pub proof fn lemma_offer_skips(entries: Seq<(Term, Term)>, version: int, from: int, to: int)
    requires
        0 <= from <= to <= entries.len(),
        forall|i: int| from <= i < to ==> (#[trigger] entries[i]).0 != Term::Integer(version),
    ensures
        offer_from(entries, version, from) == offer_from(entries, version, to),
    decreases to - from,
{
    if from < to {
        lemma_offer_skips(entries, version, from + 1, to);
    }
}

/// What [`highest_common`] picks is offered, lies between
/// [`PROTOCOL_VERSION_1`] and `top`, and no version above it up to `top` is
/// offered; it picks none only where none of these versions is offered.
pub proof fn lemma_highest_common(entries: Seq<(Term, Term)>, top: int)
    ensures
        match highest_common(entries, top) {
            Some(version) => {
                &&& PROTOCOL_VERSION_1 <= version <= top
                &&& offer(entries, version) is Some
                &&& forall|other: int| version < other <= top ==> offer(entries, other) is None
            },
            None => forall|other: int|
                PROTOCOL_VERSION_1 <= other <= top ==> offer(entries, other) is None,
        },
    decreases top,
{
    if top >= PROTOCOL_VERSION_1 && offer(entries, top) is None {
        lemma_highest_common(entries, top - 1);
    }
}

/// A side agrees only on its own network, and only to the highest version
/// that it speaks and the proposal offers, where the proposal names that
/// network for it.
pub proof fn law_agreement(proposal: Term, hex: Seq<char>, magic: int)
    ensures
        negotiation(proposal, hex, magic) matches OutcomeModel::Agreed { version, magic: agreed }
            ==> {
            &&& agreed == magic
            &&& supported(version)
            &&& proposal matches Term::Sequence(items)
            &&& items.len() >= 2
            &&& items[1] matches Term::Mapping(entries)
            &&& offer(entries, version) matches Some(params)
            &&& magic_in(version, params) == Some(magic)
            &&& forall|other: int|
                version < other && supported(other) ==> offer(entries, other) is None
        },
{
    if negotiation(proposal, hex, magic) is Agreed {
        let entries = proposal->Sequence_0[1]->Mapping_0;
        lemma_highest_common(entries, PROTOCOL_VERSION_ALLEGRA as int);
    }
}

/// The answer to a proposal is canonical where the version accepted and the
/// magic fit the wire format.
pub proof fn lemma_reply_canonical(outcome: OutcomeModel)
    requires
        outcome matches OutcomeModel::Agreed { version, magic } ==> {
            &&& -0x1_0000_0000_0000_0000 <= version < 0x1_0000_0000_0000_0000
            &&& 0 <= magic <= u32::MAX
        },
    ensures
        reply_term(outcome).canonical(),
{
    reveal_with_fuel(Term::canonical, 3);
    match outcome {
        OutcomeModel::Agreed { version, magic } => {
            lemma_version_params_canonical(version, magic as u32);
            let items = seq![
                Term::Integer(MSG_ACCEPT_VERSION_MSG_ID as int),
                Term::Integer(version),
                version_params(version, magic),
            ];
            assert(items[0].canonical() && items[1].canonical() && items[2].canonical());
        },
        OutcomeModel::Rejected(failure) => {
            let reason = seq![Term::Text(message_text(failure))];
            assert(reason[0].canonical());
            let items = seq![Term::Integer(MSG_REFUSE_MSG_ID as int), Term::Sequence(reason)];
            assert(items[0].canonical() && items[1].canonical());
        },
    }
}

/// In the answer to a proposal nothing is nested deeper than the parameters
/// of the version, or the reason, in the message.
pub proof fn lemma_reply_nesting(outcome: OutcomeModel)
    ensures
        reply_term(outcome).nested_within(2),
{
    reveal_with_fuel(Term::nested_within, 3);
    match outcome {
        OutcomeModel::Agreed { version, magic } => {
            let pair = seq![Term::Integer(magic), Term::Boolean(false)];
            assert(pair[0].nested_within(0) && pair[1].nested_within(0));
            let items = seq![
                Term::Integer(MSG_ACCEPT_VERSION_MSG_ID as int),
                Term::Integer(version),
                version_params(version, magic),
            ];
            assert(items[0].nested_within(1) && items[1].nested_within(1) && items[2].nested_within(
                1,
            ));
        },
        OutcomeModel::Rejected(failure) => {
            let reason = seq![Term::Text(message_text(failure))];
            assert(reason[0].nested_within(0));
            let items = seq![Term::Integer(MSG_REFUSE_MSG_ID as int), Term::Sequence(reason)];
            assert(items[0].nested_within(1) && items[1].nested_within(1));
        },
    }
}

/// Builds the message that tells the peer how its proposal was answered.
pub fn reply(outcome: &Outcome) -> (r: Datum)
    ensures
        r@ == reply_term(outcome@),
{
    match outcome {
        Outcome::Agreed { version, magic } => {
            let items = vec![
                Datum::Integer(MSG_ACCEPT_VERSION_MSG_ID),
                Datum::Integer(*version),
                version_data(*version, *magic),
            ];
            let r = Datum::Sequence(items);
            proof {
                lemma_view(r);
                lemma_view(items[0]);
                lemma_view(items[1]);
                assert(r@->Sequence_0 =~= reply_term(outcome@)->Sequence_0);
            }
            r
        },
        Outcome::Rejected(failure) => {
            let reason = vec![Datum::Text(failure.message())];
            let reasons = Datum::Sequence(reason);
            let items = vec![Datum::Integer(MSG_REFUSE_MSG_ID), reasons];
            let r = Datum::Sequence(items);
            proof {
                lemma_view(r);
                lemma_view(items[0]);
                lemma_view(items[1]);
                lemma_view(reason[0]);
                assert(items[1]@->Sequence_0 =~= seq![Term::Text(message_text(failure@))]);
                assert(r@->Sequence_0 =~= reply_term(outcome@)->Sequence_0);
            }
            r
        },
    }
}

} // verus!

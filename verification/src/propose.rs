//! The message that opens a handshake: the versions that this side speaks,
//! each with its parameters.

use crate::codec::{cbor_decoding, cbor_packed_encoding, encode};
use crate::datum::{lemma_nesting_grows, lemma_view, Datum, Term, MAX_NESTING};
use vstd::prelude::*;

verus! {

/// The oldest version that this side speaks.
pub const PROTOCOL_VERSION_1: i128 = 1;

pub const PROTOCOL_VERSION_2: i128 = 2;

/// The last version whose parameters are the magic alone.
pub const PROTOCOL_VERSION_SHELLEY: i128 = 3;

pub const PROTOCOL_VERSION_SHELLEY2: i128 = 4;

/// The latest version that this side speaks.
pub const PROTOCOL_VERSION_ALLEGRA: i128 = 5;

/// The tag of the message that proposes versions.
pub const MSG_PROPOSE_VERSIONS_MSG_ID: i128 = 0;

/// Whether this side speaks `version`.
pub open spec fn supported(version: int) -> bool {
    PROTOCOL_VERSION_1 <= version <= PROTOCOL_VERSION_ALLEGRA
}

/// The parameters of a version on the network `magic`: the magic alone up to
/// [`PROTOCOL_VERSION_SHELLEY`], and from then on the magic with the flag that
/// asks for diffusion from the initiator only, which is never set.
pub open spec fn version_params(version: int, magic: int) -> Term {
    if version <= PROTOCOL_VERSION_SHELLEY {
        Term::Integer(magic)
    } else {
        Term::Sequence(seq![Term::Integer(magic), Term::Boolean(false)])
    }
}

/// The versions proposed on the network `magic`: each supported version, in
/// ascending order, with its parameters.
pub open spec fn proposed_versions(magic: int) -> Seq<(Term, Term)> {
    Seq::new(5, |i: int| (Term::Integer(i + 1), version_params(i + 1, magic)))
}

/// The proposal made on the network `magic`.
pub open spec fn propose_term(magic: int) -> Term {
    Term::Sequence(
        seq![
            Term::Integer(MSG_PROPOSE_VERSIONS_MSG_ID as int),
            Term::Mapping(proposed_versions(magic)),
        ],
    )
}

/// The proposal is the tag of a proposal and a mapping. The mapping holds
/// the versions from 1 to 5, in this order, and nothing else: each of the
/// first three with the magic alone, each of the last two with the magic and
/// the flag, which is not set.
pub proof fn law_proposal_holds_five_versions(magic: int)
    ensures
        propose_term(magic) matches Term::Sequence(items) && {
            &&& items.len() == 2
            &&& items[0] == Term::Integer(0)
            &&& items[1] matches Term::Mapping(entries)
            &&& entries.len() == 5
            &&& forall|i: int|
                0 <= i < 5 ==> {
                    &&& (#[trigger] entries[i]).0 == Term::Integer(i + 1)
                    &&& entries[i].1 == if i < 3 {
                        Term::Integer(magic)
                    } else {
                        Term::Sequence(seq![Term::Integer(magic), Term::Boolean(false)])
                    }
                }
        },
{
}

/// The parameters of a version are canonical on every network whose magic
/// fits 32 bits.
pub proof fn lemma_version_params_canonical(version: int, magic: u32)
    ensures
        version_params(version, magic as int).canonical(),
{
    reveal_with_fuel(Term::canonical, 2);
    let pair = seq![Term::Integer(magic as int), Term::Boolean(false)];
    assert(pair[0].canonical() && pair[1].canonical());
}

/// The proposal is canonical on every network whose magic fits 32 bits.
pub proof fn lemma_propose_canonical(magic: u32)
    ensures
        propose_term(magic as int).canonical(),
{
    let entries = proposed_versions(magic as int);
    assert forall|i: int| 0 <= i < entries.len() implies {
        &&& (#[trigger] entries[i]).0 matches Term::Integer(k)
        &&& 0 <= k < 0x1_0000_0000_0000_0000
        &&& entries[i].1.canonical()
    } by {
        lemma_version_params_canonical(i + 1, magic);
    }
    assert(Term::Mapping(entries).canonical());
    let items = seq![Term::Integer(MSG_PROPOSE_VERSIONS_MSG_ID as int), Term::Mapping(entries)];
    assert(items[0].canonical() && items[1].canonical());
    assert(Term::Sequence(items).canonical());
}

/// In the proposal nothing is nested deeper than the parameters of a version
/// in the mapping in the message.
pub proof fn lemma_propose_nesting(magic: int)
    ensures
        propose_term(magic).nested_within(3),
{
    reveal_with_fuel(Term::nested_within, 4);
    let entries = proposed_versions(magic);
    assert forall|i: int| 0 <= i < entries.len() implies {
        &&& (#[trigger] entries[i]).0.nested_within(1)
        &&& entries[i].1.nested_within(1)
    } by {
        let pair = seq![Term::Integer(magic), Term::Boolean(false)];
        assert(pair[0].nested_within(0) && pair[1].nested_within(0));
    }
    let items = seq![Term::Integer(MSG_PROPOSE_VERSIONS_MSG_ID as int), Term::Mapping(entries)];
    assert(items[0].nested_within(2) && items[1].nested_within(2));
}

/// The parameters of a supported version on the network `network_magic`.
pub fn version_data(version: i128, network_magic: u32) -> (r: Datum)
    ensures
        r@ == version_params(version as int, network_magic as int),
        r@.canonical(),
{
    proof {
        lemma_version_params_canonical(version as int, network_magic);
    }
    if version <= PROTOCOL_VERSION_SHELLEY {
        let r = Datum::Integer(network_magic as i128);
        proof {
            lemma_view(r);
        }
        r
    } else {
        let items = vec![Datum::Integer(network_magic as i128), Datum::Boolean(false)];
        let r = Datum::Sequence(items);
        proof {
            lemma_view(r);
            lemma_view(items[0]);
            lemma_view(items[1]);
            assert(r@->Sequence_0 =~= seq![
                Term::Integer(network_magic as int),
                Term::Boolean(false),
            ]);
        }
        r
    }
}

/// Builds the proposal of the network `network_magic`.
pub fn propose_versions(network_magic: u32) -> (r: Datum)
    ensures
        r@ == propose_term(network_magic as int),
        r@.canonical(),
{
    let mut payload_map: Vec<(Datum, Datum)> = Vec::new();
    let mut version: i128 = PROTOCOL_VERSION_1;
    while version <= PROTOCOL_VERSION_ALLEGRA
        invariant
            PROTOCOL_VERSION_1 <= version <= PROTOCOL_VERSION_ALLEGRA + 1,
            payload_map.len() == version - 1,
            forall|i: int|
                0 <= i < payload_map.len() ==> (#[trigger] payload_map[i]).0@ == Term::Integer(
                    i + 1,
                ) && payload_map[i].1@ == version_params(i + 1, network_magic as int),
        decreases PROTOCOL_VERSION_ALLEGRA + 1 - version,
    {
        let key = Datum::Integer(version);
        proof {
            lemma_view(key);
        }
        payload_map.push((key, version_data(version, network_magic)));
        version += 1;
    }
    let payload = Datum::Mapping(payload_map);
    let tag = Datum::Integer(MSG_PROPOSE_VERSIONS_MSG_ID);
    let items = vec![tag, payload];
    let r = Datum::Sequence(items);
    proof {
        lemma_propose_canonical(network_magic);
        lemma_view(r);
        lemma_view(items[0]);
        lemma_view(items[1]);
        assert(items[1]@->Mapping_0 =~= proposed_versions(network_magic as int));
        assert(r@->Sequence_0 =~= seq![
            Term::Integer(MSG_PROPOSE_VERSIONS_MSG_ID as int),
            Term::Mapping(proposed_versions(network_magic as int)),
        ]);
    }
    r
}

/// The bytes of the message that proposes versions on the network
/// `network_magic`: the packed form of the proposal, which is read back as
/// the proposal.
pub fn msg_propose_versions(network_magic: u32) -> (bytes: Vec<u8>)
    ensures
        bytes@ == cbor_packed_encoding(propose_term(network_magic as int)),
        cbor_decoding(bytes@) == Some(propose_term(network_magic as int)),
{
    let message = propose_versions(network_magic);
    proof {
        lemma_propose_nesting(network_magic as int);
        lemma_nesting_grows(message@, 3, MAX_NESTING as nat);
    }
    encode(&message)
}

} // verus!

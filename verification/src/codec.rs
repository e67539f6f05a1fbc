//! The binary form of a value, which `serde_cbor` reads and writes.
//!
//! `serde_cbor` has a value type of its own. The functions at the head of this
//! file each make one call into it, or build or take apart one
//! `serde_cbor::Value`; their contracts are not proved: each says what the
//! code in its body does. Everything below them is proved from these
//! contracts.

use crate::datum::{
    entry_terms, item_terms, lemma_canonical_sequence, lemma_view, Datum, Term, MAX_NESTING,
};
use vstd::pervasive::unreached;
use vstd::prelude::*;

verus! {

/// The term that a `serde_cbor::Value` holds: its integer, boolean or text,
/// the terms of its items or entries in their order, or [`Term::Other`] for
/// any other kind.
pub uninterp spec fn cbor_content(raw: serde_cbor::Value) -> Term;

/// How deep sequences and mappings are nested in a `serde_cbor::Value`, which
/// is finite: what a value holds is nested less deep than the value.
pub uninterp spec fn cbor_height(raw: serde_cbor::Value) -> nat;

/// What `serde_cbor::de::from_slice` reads from `bytes`: the content of the
/// value it returns, or `None` where it fails.
pub uninterp spec fn cbor_decoding(bytes: Seq<u8>) -> Option<Term>;

/// The bytes that `serde_cbor::ser::to_vec_packed` writes for a value that
/// holds the canonical term `term`.
pub uninterp spec fn cbor_packed_encoding(term: Term) -> Seq<u8>;

/// One level of a `serde_cbor::Value`: what a leaf holds, or the parts of a
/// sequence or a mapping, each still unopened.
enum Shell<'a> {
    Integer(i128),
    Boolean(bool),
    Text(String),
    Sequence(Vec<&'a serde_cbor::Value>),
    Mapping(Vec<(&'a serde_cbor::Value, &'a serde_cbor::Value)>),
    Other,
}

/// The contents of the items of a sequence, in their order.
spec fn item_contents(items: Seq<serde_cbor::Value>) -> Seq<Term> {
    Seq::new(items.len(), |i: int| cbor_content(items[i]))
}

/// The contents of the entries of a mapping, in their order.
spec fn entry_contents(entries: Seq<(serde_cbor::Value, serde_cbor::Value)>) -> Seq<
    (Term, Term),
> {
    Seq::new(entries.len(), |i: int| (cbor_content(entries[i].0), cbor_content(entries[i].1)))
}

impl<'a> Shell<'a> {
    /// The term that the value holds of which this is one level.
    spec fn content(self) -> Term {
        match self {
            Shell::Integer(n) => Term::Integer(n as int),
            Shell::Boolean(b) => Term::Boolean(b),
            Shell::Text(s) => Term::Text(s@),
            Shell::Sequence(items) => Term::Sequence(
                Seq::new(items.len() as nat, |i: int| cbor_content(*items[i])),
            ),
            Shell::Mapping(entries) => Term::Mapping(
                Seq::new(
                    entries.len() as nat,
                    |i: int| (cbor_content(*entries[i].0), cbor_content(*entries[i].1)),
                ),
            ),
            Shell::Other => Term::Other,
        }
    }

    /// Whether every part is nested less than `height` deep.
    spec fn below(self, height: nat) -> bool {
        match self {
            Shell::Sequence(items) => forall|i: int|
                0 <= i < items.len() ==> cbor_height(*#[trigger] items[i]) < height,
            Shell::Mapping(entries) => forall|i: int|
                0 <= i < entries.len() ==> {
                    &&& cbor_height(*(#[trigger] entries[i]).0) < height
                    &&& cbor_height(*entries[i].1) < height
                },
            _ => true,
        }
    }
}

/// Calls `serde_cbor::de::from_slice` for a `serde_cbor::Value`. The contract
/// gives the outcome its name and claims nothing else.
#[verifier::external_body]
fn parse(bytes: &[u8]) -> (r: Result<serde_cbor::Value, serde_cbor::Error>)
    ensures
        r matches Ok(raw) ==> cbor_decoding(bytes@) == Some(cbor_content(raw)),
        r is Err ==> cbor_decoding(bytes@) is None,
{
    serde_cbor::de::from_slice::<serde_cbor::Value>(bytes)
}

/// Takes a `serde_cbor::Value` apart, one level deep and variant by variant.
/// The entries of a map come in the order in which its `BTreeMap` hands them
/// out. Null, floats, byte strings and tags are of another kind.
#[verifier::external_body]
fn peel<'a>(raw: &'a serde_cbor::Value) -> (shell: Shell<'a>)
    ensures
        shell.content() == cbor_content(*raw),
        shell.below(cbor_height(*raw)),
{
    match raw {
        serde_cbor::Value::Integer(n) => Shell::Integer(*n),
        serde_cbor::Value::Bool(b) => Shell::Boolean(*b),
        serde_cbor::Value::Text(s) => Shell::Text(s.clone()),
        serde_cbor::Value::Array(items) => Shell::Sequence(items.iter().collect()),
        serde_cbor::Value::Map(entries) => Shell::Mapping(entries.iter().collect()),
        _ => Shell::Other,
    }
}

/// Builds `serde_cbor::Value::Integer`.
#[verifier::external_body]
fn integer_value(n: i128) -> (raw: serde_cbor::Value)
    ensures
        cbor_content(raw) == Term::Integer(n as int),
{
    serde_cbor::Value::Integer(n)
}

/// Builds `serde_cbor::Value::Bool`.
#[verifier::external_body]
fn boolean_value(b: bool) -> (raw: serde_cbor::Value)
    ensures
        cbor_content(raw) == Term::Boolean(b),
{
    serde_cbor::Value::Bool(b)
}

/// Builds `serde_cbor::Value::Text`.
#[verifier::external_body]
fn text_value(text: String) -> (raw: serde_cbor::Value)
    ensures
        cbor_content(raw) == Term::Text(text@),
{
    serde_cbor::Value::Text(text)
}

/// Builds `serde_cbor::Value::Array`, which holds the items in their order.
#[verifier::external_body]
fn array_value(items: Vec<serde_cbor::Value>) -> (raw: serde_cbor::Value)
    ensures
        cbor_content(raw) == Term::Sequence(item_contents(items@)),
{
    serde_cbor::Value::Array(items)
}

/// Builds `serde_cbor::Value::Map`, whose `BTreeMap` sorts the entries by
/// their keys. Keys that are non-negative integers it sorts by their size, so
/// the entries of a canonical mapping, which come in the ascending order of
/// such keys, stay in their order.
#[verifier::external_body]
fn map_value(entries: Vec<(serde_cbor::Value, serde_cbor::Value)>) -> (raw: serde_cbor::Value)
    requires
        Term::Mapping(entry_contents(entries@)).canonical(),
    ensures
        cbor_content(raw) == Term::Mapping(entry_contents(entries@)),
{
    serde_cbor::Value::Map(entries.into_iter().collect())
}

/// Calls `serde_cbor::ser::to_vec_packed`. The contract claims three things of
/// a value that holds a canonical term. The call succeeds: it writes into a
/// `Vec`, which does not fail, and otherwise fails only on an integer outside
/// `-2^64 ..= 2^64 - 1`. The bytes written have their name. And what was
/// written is read back unchanged, which is the round trip that `serde_cbor`
/// documents; its reader gives up on sequences and mappings that are nested
/// 128 deep, so this is claimed of terms nested less deep.
#[verifier::external_body]
fn pack(raw: &serde_cbor::Value) -> (r: Result<Vec<u8>, serde_cbor::Error>)
    ensures
        r is Err ==> !cbor_content(*raw).canonical(),
        r matches Ok(bytes) ==> cbor_content(*raw).canonical() ==> {
            &&& bytes@ == cbor_packed_encoding(cbor_content(*raw))
            &&& cbor_content(*raw).nested_within(MAX_NESTING as nat) ==> cbor_decoding(bytes@)
                == Some(cbor_content(*raw))
        },
{
    serde_cbor::ser::to_vec_packed(raw)
}

/// Carries a `serde_cbor::Value` over to the value model.
fn lift(raw: &serde_cbor::Value) -> (datum: Datum)
    ensures
        datum@ == cbor_content(*raw),
    decreases cbor_height(*raw),
{
    let shell = peel(raw);
    let ghost whole = shell;
    let datum = match shell {
        Shell::Integer(n) => Datum::Integer(n),
        Shell::Boolean(b) => Datum::Boolean(b),
        Shell::Text(text) => Datum::Text(text),
        Shell::Sequence(parts) => {
            assert(whole->Sequence_0 == parts);
            let mut items: Vec<Datum> = Vec::new();
            let mut i: usize = 0;
            while i < parts.len()
                invariant
                    i <= parts.len(),
                    items.len() == i,
                    forall|j: int|
                        0 <= j < parts.len() ==> cbor_height(*#[trigger] parts[j]) < cbor_height(
                            *raw,
                        ),
                    forall|j: int| 0 <= j < i ==> (#[trigger] items[j])@ == cbor_content(*parts[j]),
                decreases parts.len() - i,
            {
                let item = lift(parts[i]);
                items.push(item);
                i += 1;
            }
            assert(item_terms(items@) =~= whole.content()->Sequence_0);
            Datum::Sequence(items)
        },
        Shell::Mapping(parts) => {
            assert(whole->Mapping_0 == parts);
            let mut entries: Vec<(Datum, Datum)> = Vec::new();
            let mut i: usize = 0;
            while i < parts.len()
                invariant
                    i <= parts.len(),
                    entries.len() == i,
                    forall|j: int|
                        0 <= j < parts.len() ==> {
                            &&& cbor_height(*(#[trigger] parts[j]).0) < cbor_height(*raw)
                            &&& cbor_height(*parts[j].1) < cbor_height(*raw)
                        },
                    forall|j: int|
                        0 <= j < i ==> (#[trigger] entries[j]).0@ == cbor_content(*parts[j].0)
                            && entries[j].1@ == cbor_content(*parts[j].1),
                decreases parts.len() - i,
            {
                let key = lift(parts[i].0);
                let value = lift(parts[i].1);
                entries.push((key, value));
                i += 1;
            }
            assert(entry_terms(entries@) =~= whole.content()->Mapping_0);
            Datum::Mapping(entries)
        },
        Shell::Other => Datum::Other,
    };
    proof {
        lemma_view(datum);
    }
    datum
}

/// Builds the `serde_cbor::Value` that holds a canonical value.
fn lower(datum: &Datum) -> (raw: serde_cbor::Value)
    requires
        datum@.canonical(),
    ensures
        cbor_content(raw) == datum@,
    decreases datum,
{
    proof {
        lemma_view(*datum);
    }
    match datum {
        Datum::Integer(n) => integer_value(*n),
        Datum::Boolean(b) => boolean_value(*b),
        Datum::Text(text) => text_value(text.clone()),
        Datum::Sequence(items) => {
            let ghost terms = item_terms(items@);
            proof {
                lemma_canonical_sequence(terms);
            }
            let mut parts: Vec<serde_cbor::Value> = Vec::new();
            let mut i: usize = 0;
            while i < items.len()
                invariant
                    i <= items.len(),
                    parts.len() == i,
                    datum is Sequence && datum->Sequence_0 == *items,
                    terms == item_terms(items@),
                    forall|j: int| 0 <= j < items.len() ==> (#[trigger] terms[j]).canonical(),
                    forall|j: int| 0 <= j < i ==> cbor_content(#[trigger] parts[j]) == terms[j],
                decreases items.len() - i,
            {
                assert(terms[i as int].canonical());
                let part = lower(&items[i]);
                parts.push(part);
                i += 1;
            }
            assert(item_contents(parts@) =~= terms);
            array_value(parts)
        },
        Datum::Mapping(entries) => {
            let ghost terms = entry_terms(entries@);
            let mut parts: Vec<(serde_cbor::Value, serde_cbor::Value)> = Vec::new();
            let mut i: usize = 0;
            while i < entries.len()
                invariant
                    i <= entries.len(),
                    parts.len() == i,
                    datum is Mapping && datum->Mapping_0 == *entries,
                    terms == entry_terms(entries@),
                    Term::Mapping(terms).canonical(),
                    forall|j: int|
                        0 <= j < i ==> cbor_content((#[trigger] parts[j]).0) == terms[j].0
                            && cbor_content(parts[j].1) == terms[j].1,
                decreases entries.len() - i,
            {
                assert(terms[i as int].0 is Integer && terms[i as int].1.canonical());
                assert(terms[i as int].0.canonical());
                let key = lower(&entries[i].0);
                let value = lower(&entries[i].1);
                parts.push((key, value));
                i += 1;
            }
            assert(entry_contents(parts@) =~= terms);
            map_value(parts)
        },
        Datum::Other => unreached(),
    }
}

/// Reads a value from its binary form, where `bytes` are one.
pub fn decode(bytes: &[u8]) -> (r: Option<Datum>)
    ensures
        match cbor_decoding(bytes@) {
            Some(term) => r matches Some(datum) && datum@ == term,
            None => r is None,
        },
{
    match parse(bytes) {
        Ok(raw) => Some(lift(&raw)),
        Err(_) => None,
    }
}

/// Writes a canonical value in its packed binary form. What is written is
/// read back as the same value, unless sequences and mappings are nested too
/// deep in it.
pub fn encode(datum: &Datum) -> (bytes: Vec<u8>)
    requires
        datum@.canonical(),
    ensures
        bytes@ == cbor_packed_encoding(datum@),
        datum@.nested_within(MAX_NESTING as nat) ==> cbor_decoding(bytes@) == Some(datum@),
{
    let raw = lower(datum);
    match pack(&raw) {
        Ok(bytes) => bytes,
        Err(_) => unreached(),
    }
}

} // verus!

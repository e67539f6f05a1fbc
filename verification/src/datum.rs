//! The self-describing value model in which every handshake message is built
//! and read.

use vstd::prelude::*;

verus! {

/// A value as it is held in memory.
#[derive(Debug, PartialEq, Eq)]
pub enum Datum {
    Integer(i128),
    Boolean(bool),
    Text(String),
    /// The items, in their order.
    Sequence(Vec<Datum>),
    /// The entries, each a key with its value, in their order.
    Mapping(Vec<(Datum, Datum)>),
    /// A value of a kind that no handshake message is made of, such as null
    /// or a byte string. A peer may send one; what it holds is not kept.
    Other,
}

/// The deepest nesting of sequences and mappings that is read back from the
/// binary form.
pub const MAX_NESTING: u8 = 127;

/// The mathematical model of a [`Datum`].
pub enum Term {
    Integer(int),
    Boolean(bool),
    Text(Seq<char>),
    Sequence(Seq<Term>),
    Mapping(Seq<(Term, Term)>),
    Other,
}

/// The term that `datum` stands for.
pub open spec fn term_of(datum: Datum) -> Term
    decreases datum,
{
    match datum {
        Datum::Integer(n) => Term::Integer(n as int),
        Datum::Boolean(b) => Term::Boolean(b),
        Datum::Text(s) => Term::Text(s@),
        Datum::Sequence(items) => Term::Sequence(
            Seq::new(
                items.len() as nat,
                |i: int|
                    if 0 <= i < items.len() {
                        term_of(items[i])
                    } else {
                        arbitrary()
                    },
            ),
        ),
        Datum::Mapping(entries) => Term::Mapping(
            Seq::new(
                entries.len() as nat,
                |i: int|
                    if 0 <= i < entries.len() {
                        (term_of(entries[i].0), term_of(entries[i].1))
                    } else {
                        arbitrary()
                    },
            ),
        ),
        Datum::Other => Term::Other,
    }
}

impl View for Datum {
    type V = Term;

    open spec fn view(&self) -> Term {
        term_of(*self)
    }
}

impl Term {
    /// Whether this term has a packed form: every integer fits the wire
    /// format (`-2^64 ..= 2^64 - 1`), every mapping is keyed by non-negative
    /// integers in strictly ascending order, which is the order in which its
    /// entries are written, and no part of the term is of another kind.
    pub open spec fn canonical(self) -> bool
        decreases self,
    {
        match self {
            Term::Integer(n) => -0x1_0000_0000_0000_0000 <= n < 0x1_0000_0000_0000_0000,
            Term::Boolean(_) => true,
            Term::Text(_) => true,
            Term::Sequence(items) => forall|i: int|
                0 <= i < items.len() ==> (#[trigger] items[i]).canonical(),
            Term::Mapping(entries) => {
                &&& forall|i: int|
                    0 <= i < entries.len() ==> {
                        &&& (#[trigger] entries[i]).0 matches Term::Integer(k)
                        &&& 0 <= k < 0x1_0000_0000_0000_0000
                        &&& entries[i].1.canonical()
                    }
                &&& forall|i: int, j: int|
                    0 <= i < j < entries.len() ==> (#[trigger] entries[i]).0->Integer_0 < (
                    #[trigger] entries[j]).0->Integer_0
            },
            Term::Other => false,
        }
    }

    /// Whether sequences and mappings are nested at most `depth` deep in this
    /// term.
    pub open spec fn nested_within(self, depth: nat) -> bool
        decreases self,
    {
        match self {
            Term::Sequence(items) => depth > 0 && forall|i: int|
                0 <= i < items.len() ==> (#[trigger] items[i]).nested_within((depth - 1) as nat),
            Term::Mapping(entries) => depth > 0 && forall|i: int|
                0 <= i < entries.len() ==> {
                    &&& (#[trigger] entries[i]).0.nested_within((depth - 1) as nat)
                    &&& entries[i].1.nested_within((depth - 1) as nat)
                },
            _ => true,
        }
    }
}

/// The terms of the items of a sequence, in their order.
pub open spec fn item_terms(items: Seq<Datum>) -> Seq<Term> {
    Seq::new(items.len(), |i: int| items[i]@)
}

/// The terms of the entries of a mapping, in their order.
pub open spec fn entry_terms(entries: Seq<(Datum, Datum)>) -> Seq<(Term, Term)> {
    Seq::new(entries.len(), |i: int| (entries[i].0@, entries[i].1@))
}

/// The view of a datum, one level deep: a leaf stands for itself, and a
/// collection stands for the views of what it holds, in the same order.
pub proof fn lemma_view(datum: Datum)
    ensures
        match datum {
            Datum::Integer(n) => datum@ == Term::Integer(n as int),
            Datum::Boolean(b) => datum@ == Term::Boolean(b),
            Datum::Text(s) => datum@ == Term::Text(s@),
            Datum::Sequence(items) => datum@ == Term::Sequence(item_terms(items@)),
            Datum::Mapping(entries) => datum@ == Term::Mapping(entry_terms(entries@)),
            Datum::Other => datum@ == Term::Other,
        },
{
    match datum {
        Datum::Sequence(items) => {
            assert(datum@->Sequence_0 =~= item_terms(items@));
        },
        Datum::Mapping(entries) => {
            assert(datum@->Mapping_0 =~= entry_terms(entries@));
        },
        _ => {},
    }
}

/// What is nested within one depth is nested within every greater one.
pub proof fn lemma_nesting_grows(term: Term, depth: nat, more: nat)
    requires
        term.nested_within(depth),
        depth <= more,
    ensures
        term.nested_within(more),
    decreases term,
{
    match term {
        Term::Sequence(items) => {
            assert forall|i: int| 0 <= i < items.len() implies (#[trigger] items[i]).nested_within(
                (more - 1) as nat,
            ) by {
                lemma_nesting_grows(items[i], (depth - 1) as nat, (more - 1) as nat);
            }
        },
        Term::Mapping(entries) => {
            assert forall|i: int| 0 <= i < entries.len() implies {
                &&& (#[trigger] entries[i]).0.nested_within((more - 1) as nat)
                &&& entries[i].1.nested_within((more - 1) as nat)
            } by {
                lemma_nesting_grows(entries[i].0, (depth - 1) as nat, (more - 1) as nat);
                lemma_nesting_grows(entries[i].1, (depth - 1) as nat, (more - 1) as nat);
            }
        },
        _ => {},
    }
}

/// A sequence is canonical where each of its items is.
pub proof fn lemma_canonical_sequence(items: Seq<Term>)
    ensures
        Term::Sequence(items).canonical() <==> forall|i: int|
            0 <= i < items.len() ==> (#[trigger] items[i]).canonical(),
{
    assert(Term::Sequence(items)->Sequence_0 == items);
}

impl Datum {
    /// Whether this value is canonical, and so has a packed form.
    pub fn is_canonical(&self) -> (r: bool)
        ensures
            r == self@.canonical(),
        decreases self,
    {
        proof {
            lemma_view(*self);
        }
        match self {
            Datum::Integer(n) => -0x1_0000_0000_0000_0000 <= *n && *n < 0x1_0000_0000_0000_0000,
            Datum::Boolean(_) => true,
            Datum::Text(_) => true,
            Datum::Sequence(items) => {
                let ghost terms = item_terms(items@);
                let mut i: usize = 0;
                while i < items.len()
                    invariant
                        i <= items.len(),
                        *self == Datum::Sequence(*items),
                        self@ == Term::Sequence(terms),
                        terms == item_terms(items@),
                        forall|j: int| 0 <= j < i ==> (#[trigger] terms[j]).canonical(),
                    decreases items.len() - i,
                {
                    if !items[i].is_canonical() {
                        proof {
                            lemma_canonical_sequence(terms);
                            assert(!terms[i as int].canonical());
                        }
                        return false;
                    }
                    i += 1;
                }
                true
            },
            Datum::Mapping(entries) => {
                let ghost terms = entry_terms(entries@);
                let mut i: usize = 0;
                let mut bound: i128 = 0;
                while i < entries.len()
                    invariant
                        i <= entries.len(),
                        *self == Datum::Mapping(*entries),
                        self@ == Term::Mapping(terms),
                        terms == entry_terms(entries@),
                        0 <= bound <= 0x1_0000_0000_0000_0000,
                        i == 0 ==> bound == 0,
                        i > 0 ==> bound == terms[i - 1].0->Integer_0 + 1,
                        forall|j: int|
                            0 <= j < i ==> {
                                &&& (#[trigger] terms[j]).0 matches Term::Integer(k)
                                &&& 0 <= k < bound
                                &&& terms[j].1.canonical()
                            },
                        forall|j: int, k: int|
                            0 <= j < k < i ==> (#[trigger] terms[j]).0->Integer_0 < (
                            #[trigger] terms[k]).0->Integer_0,
                    decreases entries.len() - i,
                {
                    proof {
                        lemma_view(entries[i as int].0);
                    }
                    let key: i128 = match &entries[i].0 {
                        Datum::Integer(key) => *key,
                        _ => {
                            assert(!(terms[i as int].0 is Integer));
                            return false;
                        },
                    };
                    if key < bound || key >= 0x1_0000_0000_0000_0000 {
                        proof {
                            assert(terms[i as int].0 == Term::Integer(key as int));
                            if 0 <= key < 0x1_0000_0000_0000_0000 {
                                assert(terms[i as int].0->Integer_0 <= terms[i - 1].0->Integer_0);
                            }
                        }
                        return false;
                    }
                    if !entries[i].1.is_canonical() {
                        assert(!terms[i as int].1.canonical());
                        return false;
                    }
                    bound = key + 1;
                    i += 1;
                }
                true
            },
            Datum::Other => false,
        }
    }
}

} // verus!

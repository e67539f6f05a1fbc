//! The handshake as a state machine that a transport driver steps through.

use crate::codec::{cbor_decoding, cbor_packed_encoding, decode, encode};
use crate::confirm::{confirmation_outcome, law_refusal_rejected, validate_data};
use crate::datum::{lemma_nesting_grows, Term, MAX_NESTING};
use crate::negotiate::{
    law_agreement, lemma_offer_skips, lemma_reply_canonical, lemma_reply_nesting, negotiate,
    negotiation, offer_from, reply, reply_term, MSG_REFUSE_MSG_ID,
};
use crate::outcome::{message_text, Failure, FailureModel, Outcome, OutcomeModel};
use crate::propose::{
    msg_propose_versions, propose_term, proposed_versions, PROTOCOL_VERSION_ALLEGRA,
};
use crate::text::{hex_encode, hex_lower};
use vstd::prelude::*;

verus! {

/// One of the two peers, or neither of them.
#[derive(Debug, Clone, Copy, PartialEq, Eq, Structural)]
pub enum Agency {
    /// The peer that opens the handshake.
    Client,
    /// The peer that answers.
    Server,
    /// Neither peer: the handshake is over.
    Neither,
}

/// Where a handshake stands. A handshake starts in `Propose` and only ever
/// moves from `Propose` to `Confirm` and from `Confirm` to `Done`.
#[derive(Debug, Clone, Copy, PartialEq, Eq, Structural)]
pub enum State {
    Propose,
    Confirm,
    Done,
}

/// Why an operation on a [`HandshakeProtocol`] was not carried out.
#[derive(Debug, Clone, Copy, PartialEq, Eq, Structural)]
pub enum HandshakeError {
    /// The operation was called out of turn, or after the handshake was over.
    InvalidOperation,
    /// A handshake needs a role: client or server.
    InvalidRoleConfiguration,
    /// The bytes received are not the binary form of any value.
    DecodeError,
    /// The handshake is not over yet.
    NoResult,
}

/// The peer whose turn it is to send in `state`.
pub open spec fn turn(state: State) -> Agency {
    match state {
        State::Propose => Agency::Client,
        State::Confirm => Agency::Server,
        State::Done => Agency::Neither,
    }
}

/// The state that follows `state`; `Done` is final.
pub open spec fn successor(state: State) -> State {
    match state {
        State::Propose => State::Confirm,
        State::Confirm => State::Done,
        State::Done => State::Done,
    }
}

/// The mathematical model of a [`HandshakeProtocol`].
pub struct Machine {
    pub role: Agency,
    pub network_magic: u32,
    pub state: State,
    /// The final result, once `state` is `Done`.
    pub result: Option<OutcomeModel>,
    /// The bytes in which the peer made its proposal, once a server has them.
    pub proposal: Seq<u8>,
}

/// How far a handshake has come. The result is held by the one state that
/// has one.
#[derive(Debug)]
enum Progress {
    Propose,
    Confirm,
    Done(Outcome),
}

/// One side of a handshake.
#[derive(Debug)]
pub struct HandshakeProtocol {
    role: Agency,
    network_magic: u32,
    progress: Progress,
    proposal: Vec<u8>,
}

impl View for HandshakeProtocol {
    type V = Machine;

    closed spec fn view(&self) -> Machine {
        Machine {
            role: self.role,
            network_magic: self.network_magic,
            state: match self.progress {
                Progress::Propose => State::Propose,
                Progress::Confirm => State::Confirm,
                Progress::Done(_) => State::Done,
            },
            result: match self.progress {
                Progress::Done(outcome) => Some(outcome@),
                _ => None,
            },
            proposal: self.proposal@,
        }
    }
}

impl Machine {
    /// A machine that has not moved yet.
    pub open spec fn initial(role: Agency, network_magic: u32) -> Machine {
        Machine {
            role,
            network_magic,
            state: State::Propose,
            result: None,
            proposal: Seq::empty(),
        }
    }

    /// What holds of every machine that the operations can reach: it has a
    /// role, and it has a result where it is done and nowhere else.
    pub open spec fn wf(self) -> bool {
        &&& self.role !is Neither
        &&& self.state is Done <==> self.result is Some
    }

    /// Whether it is this side's turn to send.
    pub open spec fn may_send(self) -> bool {
        self.state !is Done && turn(self.state) == self.role
    }

    /// Whether it is the peer's turn to send, and so this side's to receive.
    pub open spec fn may_receive(self) -> bool {
        self.state !is Done && self.role !is Neither && turn(self.state) != self.role
    }

    /// How a server answers the proposal that it holds. A proposal that is
    /// not the binary form of a value is malformed.
    pub open spec fn answer(self) -> OutcomeModel {
        let hex = hex_lower(self.proposal);
        match cbor_decoding(self.proposal) {
            Some(proposal) => negotiation(proposal, hex, self.network_magic as int),
            None => OutcomeModel::Rejected(FailureModel::MalformedPayload(hex)),
        }
    }

    /// The message that a side sends when its turn has come: the client its
    /// proposal, the server its answer.
    pub open spec fn outbound(self) -> Term {
        if self.state is Propose {
            propose_term(self.network_magic as int)
        } else {
            reply_term(self.answer())
        }
    }

    /// The machine after it has sent. A server is done then, with its answer
    /// as the result.
    pub open spec fn after_send(self) -> Machine {
        Machine {
            state: successor(self.state),
            result: if self.state is Confirm {
                Some(self.answer())
            } else {
                None
            },
            ..self
        }
    }

    /// Whether a side takes `data` in its state: a server takes any proposal
    /// and reads it when it answers; a client takes an answer that is the
    /// binary form of a value.
    pub open spec fn takes(self, data: Seq<u8>) -> bool {
        self.state is Confirm ==> cbor_decoding(data) is Some
    }

    /// The machine after it has received `data`. A server keeps the proposal.
    /// A client is done then, with its reading of the answer as the result.
    pub open spec fn after_receive(self, data: Seq<u8>) -> Machine {
        if self.state is Propose {
            Machine { state: State::Confirm, proposal: data, ..self }
        } else {
            Machine {
                state: State::Done,
                result: Some(
                    confirmation_outcome(
                        cbor_decoding(data)->Some_0,
                        hex_lower(data),
                        self.network_magic as int,
                    ),
                ),
                ..self
            }
        }
    }
}

impl HandshakeProtocol {
    #[verifier::type_invariant]
    spec fn has_role(self) -> bool {
        self.role !is Neither
    }

    /// The side of a handshake that proposes.
    pub fn new(network_magic: u32) -> (r: Self)
        ensures
            r@ == Machine::initial(Agency::Client, network_magic),
    {
        HandshakeProtocol {
            role: Agency::Client,
            network_magic,
            progress: Progress::Propose,
            proposal: Vec::new(),
        }
    }

    /// The side of a handshake that waits for a proposal.
    pub fn expect(network_magic: u32) -> (r: Self)
        ensures
            r@ == Machine::initial(Agency::Server, network_magic),
    {
        HandshakeProtocol {
            role: Agency::Server,
            network_magic,
            progress: Progress::Propose,
            proposal: Vec::new(),
        }
    }

    /// A handshake in the role given. `Agency::Neither` is no role.
    pub fn with_role(role: Agency, network_magic: u32) -> (r: Result<Self, HandshakeError>)
        ensures
            match r {
                Ok(protocol) => {
                    &&& role !is Neither
                    &&& protocol@ == Machine::initial(role, network_magic)
                },
                Err(e) => role is Neither && e == HandshakeError::InvalidRoleConfiguration,
            },
    {
        match role {
            Agency::Neither => Err(HandshakeError::InvalidRoleConfiguration),
            _ => Ok(
                HandshakeProtocol {
                    role,
                    network_magic,
                    progress: Progress::Propose,
                    proposal: Vec::new(),
                },
            ),
        }
    }

    /// The id of the channel on which this side sends: 0 for the client, and
    /// for the server the same with the high bit set.
    pub fn protocol_id(&self) -> (id: u16)
        ensures
            id == (if self@.role is Client { 0x0000u16 } else { 0x8000u16 }),
    {
        proof {
            use_type_invariant(self);
        }
        let idx: u16 = 0;
        match self.role {
            Agency::Client => idx,
            _ => {
                assert(0u16 ^ 0x8000u16 == 0x8000u16) by (bit_vector);
                idx ^ 0x8000
            },
        }
    }

    /// The final result, once the handshake is over.
    pub fn result(&self) -> (r: Result<&Outcome, HandshakeError>)
        ensures
            self@.wf(),
            match r {
                Ok(outcome) => self@.state is Done && self@.result == Some(outcome@),
                Err(e) => self@.state !is Done && e == HandshakeError::NoResult,
            },
    {
        proof {
            use_type_invariant(self);
        }
        match &self.progress {
            Progress::Done(outcome) => Ok(outcome),
            _ => Err(HandshakeError::NoResult),
        }
    }

    /// The role of this side.
    pub fn role(&self) -> (r: Agency)
        ensures
            r == self@.role,
            r !is Neither,
    {
        proof {
            use_type_invariant(self);
        }
        self.role
    }

    /// The peer whose turn it is.
    pub fn agency(&self) -> (r: Agency)
        ensures
            r == turn(self@.state),
    {
        match self.progress {
            Progress::Propose => Agency::Client,
            Progress::Confirm => Agency::Server,
            Progress::Done(_) => Agency::Neither,
        }
    }

    /// The state of this side.
    pub fn state(&self) -> (r: State)
        ensures
            r == self@.state,
    {
        match self.progress {
            Progress::Propose => State::Propose,
            Progress::Confirm => State::Confirm,
            Progress::Done(_) => State::Done,
        }
    }

    /// Sends what this side has to say in its state, and moves on: a client
    /// in `Propose` sends its proposal; a server in `Confirm` sends its answer
    /// to the proposal that it received, and is done. The bytes sent are the
    /// packed form of the message, which is read back as the message. Out of
    /// turn nothing is sent and nothing changes.
    pub fn send_data(&mut self) -> (r: Result<Vec<u8>, HandshakeError>)
        ensures
            match r {
                Ok(bytes) => {
                    &&& old(self)@.may_send()
                    &&& bytes@ == cbor_packed_encoding(old(self)@.outbound())
                    &&& cbor_decoding(bytes@) == Some(old(self)@.outbound())
                    &&& final(self)@ == old(self)@.after_send()
                },
                Err(e) => {
                    &&& !old(self)@.may_send()
                    &&& e == HandshakeError::InvalidOperation
                    &&& final(self)@ == old(self)@
                },
            },
    {
        proof {
            use_type_invariant(&*self);
        }
        match (&self.progress, self.role) {
            (Progress::Propose, Agency::Client) => {
                let payload = msg_propose_versions(self.network_magic);
                self.progress = Progress::Confirm;
                Ok(payload)
            },
            (Progress::Confirm, Agency::Server) => {
                let hex_data = hex_encode(self.proposal.as_slice());
                let outcome = match decode(self.proposal.as_slice()) {
                    Some(proposal) => {
                        proof {
                            law_agreement(proposal@, hex_data@, self.network_magic as int);
                        }
                        negotiate(&proposal, hex_data, self.network_magic)
                    },
                    None => Outcome::Rejected(Failure::MalformedPayload(hex_data)),
                };
                proof {
                    lemma_reply_canonical(outcome@);
                    lemma_reply_nesting(outcome@);
                    lemma_nesting_grows(reply_term(outcome@), 2, MAX_NESTING as nat);
                }
                let payload = encode(&reply(&outcome));
                self.progress = Progress::Done(outcome);
                Ok(payload)
            },
            _ => Err(HandshakeError::InvalidOperation),
        }
    }

    /// Takes what the peer sent, and moves on: a server in `Propose` keeps the
    /// proposal; a client in `Confirm` reads the answer, and is done. Out of
    /// turn, and on an answer that is not the binary form of a value, nothing
    /// changes.
    pub fn receive_data(&mut self, data: Vec<u8>) -> (r: Result<(), HandshakeError>)
        ensures
            match r {
                Ok(_) => {
                    &&& old(self)@.may_receive()
                    &&& old(self)@.takes(data@)
                    &&& final(self)@ == old(self)@.after_receive(data@)
                },
                Err(e) => {
                    &&& final(self)@ == old(self)@
                    &&& e == if old(self)@.may_receive() {
                        HandshakeError::DecodeError
                    } else {
                        HandshakeError::InvalidOperation
                    }
                    &&& old(self)@.may_receive() ==> !old(self)@.takes(data@)
                },
            },
    {
        proof {
            use_type_invariant(&*self);
        }
        match (&self.progress, self.role) {
            (Progress::Propose, Agency::Server) => {
                self.proposal = data;
                self.progress = Progress::Confirm;
                Ok(())
            },
            (Progress::Confirm, Agency::Client) => {
                match decode(data.as_slice()) {
                    Some(confirm) => {
                        let hex_data = hex_encode(data.as_slice());
                        let outcome = validate_data(&confirm, hex_data, self.network_magic);
                        self.progress = Progress::Done(outcome);
                        Ok(())
                    },
                    None => Err(HandshakeError::DecodeError),
                }
            },
            _ => Err(HandshakeError::InvalidOperation),
        }
    }
}

/// A handshake only moves forward, one state at a time: what a side may do
/// takes it to the next state and keeps it well formed. In every state but
/// `Done` a side may either send or receive, never both; in `Done` it may do
/// neither.
pub proof fn law_one_step_forward(machine: Machine, data: Seq<u8>)
    requires
        machine.wf(),
    ensures
        machine.may_send() ==> machine.after_send().state == successor(machine.state)
            && machine.after_send().wf(),
        machine.may_receive() ==> machine.after_receive(data).state == successor(machine.state)
            && machine.after_receive(data).wf(),
        machine.may_send() || machine.may_receive() ==> successor(machine.state) != machine.state
            && successor(machine.state) !is Propose,
        machine.state is Done <==> !machine.may_send() && !machine.may_receive(),
        !(machine.may_send() && machine.may_receive()),
{
}

/// Where a server reads the proposal that a client on the same network
/// wrote, and the client reads the answer that the server wrote, both sides
/// end with the agreement on the latest version and on their network.
pub proof fn law_same_network_agrees(magic: u32, proposal: Seq<u8>, answer: Seq<u8>)
    requires
        cbor_decoding(proposal) == Some(
            Machine::initial(Agency::Client, magic).outbound(),
        ),
        cbor_decoding(answer) == Some(
            Machine::initial(Agency::Server, magic).after_receive(proposal).outbound(),
        ),
    ensures
        ({
            let agreed = Some(
                OutcomeModel::Agreed {
                    version: PROTOCOL_VERSION_ALLEGRA as int,
                    magic: magic as int,
                },
            );
            let client = Machine::initial(Agency::Client, magic);
            let server = Machine::initial(Agency::Server, magic);
            &&& server.after_receive(proposal).after_send().result == agreed
            &&& client.after_send().after_receive(answer).result == agreed
        }),
{
    let entries = proposed_versions(magic as int);
    assert(offer_from(entries, PROTOCOL_VERSION_ALLEGRA as int, 4) == Some(entries[4].1));
    lemma_offer_skips(entries, PROTOCOL_VERSION_ALLEGRA as int, 0, 4);
    let agreed = OutcomeModel::Agreed {
        version: PROTOCOL_VERSION_ALLEGRA as int,
        magic: magic as int,
    };
    assert(negotiation(propose_term(magic as int), hex_lower(proposal), magic as int) == agreed);
}

/// Where a server reads the proposal that a client on another network wrote,
/// and the client reads the answer that the server wrote, the server ends
/// with the mismatch of the two magics, and the client with the refusal that
/// tells of it.
pub proof fn law_other_network_refused(
    magic: u32,
    other: u32,
    proposal: Seq<u8>,
    answer: Seq<u8>,
)
    requires
        magic != other,
        cbor_decoding(proposal) == Some(
            Machine::initial(Agency::Client, magic).outbound(),
        ),
        cbor_decoding(answer) == Some(
            Machine::initial(Agency::Server, other).after_receive(proposal).outbound(),
        ),
    ensures
        ({
            let mismatch = FailureModel::MagicMismatch {
                expected: other as int,
                actual: magic as int,
            };
            let client = Machine::initial(Agency::Client, magic);
            let server = Machine::initial(Agency::Server, other);
            &&& server.after_receive(proposal).after_send().result == Some(
                OutcomeModel::Rejected(mismatch),
            )
            &&& client.after_send().after_receive(answer).result == Some(
                OutcomeModel::Rejected(FailureModel::Rejected(message_text(mismatch))),
            )
        }),
{
    let entries = proposed_versions(magic as int);
    assert(offer_from(entries, PROTOCOL_VERSION_ALLEGRA as int, 4) == Some(entries[4].1));
    lemma_offer_skips(entries, PROTOCOL_VERSION_ALLEGRA as int, 0, 4);
    let mismatch = FailureModel::MagicMismatch { expected: other as int, actual: magic as int };
    assert(negotiation(propose_term(magic as int), hex_lower(proposal), other as int)
        == OutcomeModel::Rejected(mismatch));
    law_refusal_rejected(
        MSG_REFUSE_MSG_ID as int,
        message_text(mismatch),
        Seq::empty(),
        magic as int,
        hex_lower(answer),
    );
    assert(seq![Term::Text(message_text(mismatch))] + Seq::<Term>::empty() =~= seq![
        Term::Text(message_text(mismatch)),
    ]);
}

} // verus!

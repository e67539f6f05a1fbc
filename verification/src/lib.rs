//! Version handshake between two peers of a multiplexed node-to-node protocol.
//!
//! One side proposes the protocol versions it speaks, each with the magic of
//! the network it was configured for; the other side accepts the highest
//! version both sides speak, or refuses with a reason.
//!
//! - [`protocol`] holds the state machine that a transport driver steps
//!   through: [`protocol::HandshakeProtocol`].
//! - [`propose`] builds the proposal, [`negotiate`] answers one, and
//!   [`confirm`] reads the answer.
//! - [`datum`] is the value model of the messages, and [`codec`] their binary
//!   form.
//! - [`outcome`] says how a handshake ended, and [`text`] renders numbers and
//!   bytes for its messages.
//!
//! Every function is verified against its contract, but for the calls into
//! `serde_cbor` and `hex`, in [`codec`] and [`text`], whose contracts are
//! taken on trust.

pub mod codec;
pub mod confirm;
pub mod datum;
pub mod negotiate;
pub mod outcome;
pub mod outside;
pub mod propose;
pub mod protocol;
pub mod text;

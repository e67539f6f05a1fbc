//! How a handshake ends: the agreement reached, or the reason why none was.

use crate::text::{decimal, decimal_string};
use vstd::prelude::*;
use vstd::string::StringExecFns;

verus! {

/// Why a handshake did not end in agreement.
#[derive(Debug, Clone, PartialEq, Eq)]
pub enum Failure {
    /// The message does not have the shape of any handshake message. Holds
    /// the message as lower-case hex.
    MalformedPayload(String),
    /// The peer refused, and gave this reason.
    Rejected(String),
    /// The version that the peer accepted is older than the oldest one that
    /// this side takes.
    VersionTooLow { expected: i128, actual: i128 },
    /// The peer runs on another network.
    MagicMismatch { expected: u32, actual: i128 },
}

/// The final result of a handshake.
#[derive(Debug, Clone, PartialEq, Eq)]
pub enum Outcome {
    /// Both sides speak `version` on the network `magic`.
    Agreed { version: i128, magic: u32 },
    Rejected(Failure),
}

/// The mathematical model of a [`Failure`].
pub enum FailureModel {
    MalformedPayload(Seq<char>),
    Rejected(Seq<char>),
    VersionTooLow { expected: int, actual: int },
    MagicMismatch { expected: int, actual: int },
}

/// The mathematical model of an [`Outcome`].
pub enum OutcomeModel {
    Agreed { version: int, magic: int },
    Rejected(FailureModel),
}

impl View for Failure {
    type V = FailureModel;

    open spec fn view(&self) -> FailureModel {
        match self {
            Failure::MalformedPayload(hex) => FailureModel::MalformedPayload(hex@),
            Failure::Rejected(reason) => FailureModel::Rejected(reason@),
            Failure::VersionTooLow { expected, actual } => FailureModel::VersionTooLow {
                expected: *expected as int,
                actual: *actual as int,
            },
            Failure::MagicMismatch { expected, actual } => FailureModel::MagicMismatch {
                expected: *expected as int,
                actual: *actual as int,
            },
        }
    }
}

impl View for Outcome {
    type V = OutcomeModel;

    open spec fn view(&self) -> OutcomeModel {
        match self {
            Outcome::Agreed { version, magic } => OutcomeModel::Agreed {
                version: *version as int,
                magic: *magic as int,
            },
            Outcome::Rejected(failure) => OutcomeModel::Rejected(failure@),
        }
    }
}

/// The sentence that tells a reader why a handshake failed.
pub open spec fn message_text(failure: FailureModel) -> Seq<char> {
    match failure {
        FailureModel::MalformedPayload(hex) => "Unable to parse payload error! "@ + hex,
        FailureModel::Rejected(reason) => reason,
        FailureModel::VersionTooLow { expected, actual } => "Expected protocol version "@
            + decimal(expected) + ", but was "@ + decimal(actual),
        FailureModel::MagicMismatch { expected, actual } => "Expected network magic "@ + decimal(
            expected,
        ) + ", but was "@ + decimal(actual),
    }
}

impl Failure {
    /// The failure as a sentence.
    pub fn message(&self) -> (text: String)
        ensures
            text@ == message_text(self@),
    {
        match self {
            Failure::MalformedPayload(hex) => {
                let mut text = String::from_str("Unable to parse payload error! ");
                text.append(hex.as_str());
                text
            },
            Failure::Rejected(reason) => reason.clone(),
            Failure::VersionTooLow { expected, actual } => {
                let mut text = String::from_str("Expected protocol version ");
                text.append(decimal_string(*expected).as_str());
                text.append(", but was ");
                text.append(decimal_string(*actual).as_str());
                text
            },
            Failure::MagicMismatch { expected, actual } => {
                let mut text = String::from_str("Expected network magic ");
                text.append(decimal_string(*expected as i128).as_str());
                text.append(", but was ");
                text.append(decimal_string(*actual).as_str());
                text
            },
        }
    }
}

} // verus!

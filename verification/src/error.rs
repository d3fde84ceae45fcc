//! The one error type of the library.

use vstd::prelude::*;
use vstd::string::*;

verus! {

/// What can go wrong in a transfer.
///
/// `Io` and `Serialization` carry the text of the underlying failure.
#[derive(Debug, PartialEq, Eq)]
pub enum TransferError {
    Cancelled,
    Invalid(String),
    PeerNotFound(String),
    TransferNotFound(String),
    InvalidState(String),
    Io(String),
    Serialization(String),
    Network(String),
    Integrity(String),
}

/// The mathematical value of a [`TransferError`].
pub enum ErrorModel {
    Cancelled,
    Invalid(Seq<char>),
    PeerNotFound(Seq<char>),
    TransferNotFound(Seq<char>),
    InvalidState(Seq<char>),
    Io(Seq<char>),
    Serialization(Seq<char>),
    Network(Seq<char>),
    Integrity(Seq<char>),
}

impl View for TransferError {
    type V = ErrorModel;

    open spec fn view(&self) -> ErrorModel {
        match self {
            TransferError::Cancelled => ErrorModel::Cancelled,
            TransferError::Invalid(text) => ErrorModel::Invalid(text@),
            TransferError::PeerNotFound(text) => ErrorModel::PeerNotFound(text@),
            TransferError::TransferNotFound(text) => ErrorModel::TransferNotFound(text@),
            TransferError::InvalidState(text) => ErrorModel::InvalidState(text@),
            TransferError::Io(text) => ErrorModel::Io(text@),
            TransferError::Serialization(text) => ErrorModel::Serialization(text@),
            TransferError::Network(text) => ErrorModel::Network(text@),
            TransferError::Integrity(text) => ErrorModel::Integrity(text@),
        }
    }
}

impl ErrorModel {
    /// The stable category of the error.
    pub open spec fn code(self) -> Seq<char> {
        match self {
            ErrorModel::Cancelled => "transfer.cancelled"@,
            ErrorModel::Invalid(_) => "transfer.invalid_argument"@,
            ErrorModel::PeerNotFound(_) => "transfer.peer_not_found"@,
            ErrorModel::TransferNotFound(_) => "transfer.not_found"@,
            ErrorModel::InvalidState(_) => "transfer.failed_precondition"@,
            ErrorModel::Io(_) => "transfer.unavailable"@,
            ErrorModel::Network(_) => "transfer.unavailable"@,
            ErrorModel::Serialization(_) => "transfer.internal"@,
            ErrorModel::Integrity(_) => "transfer.integrity"@,
        }
    }

    /// The sentence shown to a person.
    pub open spec fn message(self) -> Seq<char> {
        match self {
            ErrorModel::Cancelled => "transfer cancelled"@,
            ErrorModel::Invalid(text) => "invalid transfer: "@ + text,
            ErrorModel::PeerNotFound(text) => "peer not found: "@ + text,
            ErrorModel::TransferNotFound(text) => "transfer not found: "@ + text,
            ErrorModel::InvalidState(text) =>
                "transfer state does not allow this operation: "@ + text,
            ErrorModel::Io(text) => "I/O failed: "@ + text,
            ErrorModel::Serialization(text) => "serialization failed: "@ + text,
            ErrorModel::Network(text) => "network failed: "@ + text,
            ErrorModel::Integrity(text) => "integrity validation failed: "@ + text,
        }
    }
}

impl TransferError {
    /// Stable machine-readable category for transport and UI adapters.
    pub fn code(&self) -> (code: &'static str)
        ensures
            code@ == self@.code(),
    {
        match self {
            TransferError::Cancelled => "transfer.cancelled",
            TransferError::Invalid(_) => "transfer.invalid_argument",
            TransferError::PeerNotFound(_) => "transfer.peer_not_found",
            TransferError::TransferNotFound(_) => "transfer.not_found",
            TransferError::InvalidState(_) => "transfer.failed_precondition",
            TransferError::Io(_) | TransferError::Network(_) => "transfer.unavailable",
            TransferError::Serialization(_) => "transfer.internal",
            TransferError::Integrity(_) => "transfer.integrity",
        }
    }

    /// The error as a sentence: the kind of failure, then its detail.
    pub fn message(&self) -> (message: String)
        ensures
            message@ == self@.message(),
    {
        match self {
            TransferError::Cancelled => "transfer cancelled".to_owned(),
            TransferError::Invalid(text) => "invalid transfer: ".to_owned().concat(text.as_str()),
            TransferError::PeerNotFound(text) =>
                "peer not found: ".to_owned().concat(text.as_str()),
            TransferError::TransferNotFound(text) =>
                "transfer not found: ".to_owned().concat(text.as_str()),
            TransferError::InvalidState(text) =>
                "transfer state does not allow this operation: ".to_owned().concat(text.as_str()),
            TransferError::Io(text) => "I/O failed: ".to_owned().concat(text.as_str()),
            TransferError::Serialization(text) =>
                "serialization failed: ".to_owned().concat(text.as_str()),
            TransferError::Network(text) => "network failed: ".to_owned().concat(text.as_str()),
            TransferError::Integrity(text) =>
                "integrity validation failed: ".to_owned().concat(text.as_str()),
        }
    }

    /// An `Invalid` error with the given detail.
    pub(crate) fn invalid(text: &str) -> (error: TransferError)
        ensures
            error@ == ErrorModel::Invalid(text@),
    {
        TransferError::Invalid(text.to_owned())
    }

    /// An `InvalidState` error with the given detail.
    pub(crate) fn invalid_state(text: &str) -> (error: TransferError)
        ensures
            error@ == ErrorModel::InvalidState(text@),
    {
        TransferError::InvalidState(text.to_owned())
    }

    /// A `Network` error with the given detail.
    pub(crate) fn network(text: &str) -> (error: TransferError)
        ensures
            error@ == ErrorModel::Network(text@),
    {
        TransferError::Network(text.to_owned())
    }

    /// An `Integrity` error with the given detail.
    pub(crate) fn integrity(text: &str) -> (error: TransferError)
        ensures
            error@ == ErrorModel::Integrity(text@),
    {
        TransferError::Integrity(text.to_owned())
    }
}

/// The error that a result carries, in its mathematical form.
pub open spec fn outcome<T>(result: Result<T, TransferError>) -> Result<(), ErrorModel> {
    match result {
        Ok(_) => Ok(()),
        Err(error) => Err(error@),
    }
}

/// A result with its error in its mathematical form.
pub open spec fn modeled<T>(result: Result<T, TransferError>) -> Result<T, ErrorModel> {
    match result {
        Ok(value) => Ok(value),
        Err(error) => Err(error@),
    }
}

/// The sentence about an error ends with its detail, and what stands before it
/// depends on the kind of the error alone.
pub proof fn a_message_ends_with_the_detail(text: Seq<char>, other: Seq<char>)
    ensures
        text.is_suffix_of(ErrorModel::Invalid(text).message()),
        text.is_suffix_of(ErrorModel::PeerNotFound(text).message()),
        text.is_suffix_of(ErrorModel::TransferNotFound(text).message()),
        text.is_suffix_of(ErrorModel::InvalidState(text).message()),
        text.is_suffix_of(ErrorModel::Io(text).message()),
        text.is_suffix_of(ErrorModel::Serialization(text).message()),
        text.is_suffix_of(ErrorModel::Network(text).message()),
        text.is_suffix_of(ErrorModel::Integrity(text).message()),
        "invalid transfer: "@.is_prefix_of(ErrorModel::Invalid(text).message()),
        "peer not found: "@.is_prefix_of(ErrorModel::PeerNotFound(text).message()),
        "transfer not found: "@.is_prefix_of(ErrorModel::TransferNotFound(text).message()),
        "transfer state does not allow this operation: "@.is_prefix_of(
            ErrorModel::InvalidState(text).message(),
        ),
        "I/O failed: "@.is_prefix_of(ErrorModel::Io(text).message()),
        "serialization failed: "@.is_prefix_of(ErrorModel::Serialization(text).message()),
        "network failed: "@.is_prefix_of(ErrorModel::Network(text).message()),
        "integrity validation failed: "@.is_prefix_of(ErrorModel::Integrity(text).message()),
        ErrorModel::Invalid(text).message() == ErrorModel::Invalid(other).message() ==> text
            == other,
        ErrorModel::Network(text).message() == ErrorModel::Network(other).message() ==> text
            == other,
{
    let invalid = "invalid transfer: "@;
    let peer = "peer not found: "@;
    let missing = "transfer not found: "@;
    let state = "transfer state does not allow this operation: "@;
    let io = "I/O failed: "@;
    let serialization = "serialization failed: "@;
    let network = "network failed: "@;
    let integrity = "integrity validation failed: "@;
    joined_text_ends(invalid, text);
    joined_text_ends(peer, text);
    joined_text_ends(missing, text);
    joined_text_ends(state, text);
    joined_text_ends(io, text);
    joined_text_ends(serialization, text);
    joined_text_ends(network, text);
    joined_text_ends(integrity, text);
    joined_text_ends(invalid, other);
    joined_text_ends(network, other);
    assert((invalid + text).skip(invalid.len() as int) =~= text);
    assert((invalid + other).skip(invalid.len() as int) =~= other);
    assert((network + text).skip(network.len() as int) =~= text);
    assert((network + other).skip(network.len() as int) =~= other);
}

proof fn joined_text_ends(front: Seq<char>, text: Seq<char>)
    ensures
        front.is_prefix_of(front + text),
        text.is_suffix_of(front + text),
{
    assert((front + text).subrange(0, front.len() as int) =~= front);
    assert((front + text).subrange(front.len() as int, (front + text).len() as int) =~= text);
}

/// The category of an error tells its kind, whatever its detail; only failures
/// of the disk and of the network share one.
pub proof fn a_code_tells_the_kind(text: Seq<char>)
    ensures
        ErrorModel::Cancelled.code() == "transfer.cancelled"@,
        ErrorModel::Invalid(text).code() == "transfer.invalid_argument"@,
        ErrorModel::PeerNotFound(text).code() == "transfer.peer_not_found"@,
        ErrorModel::TransferNotFound(text).code() == "transfer.not_found"@,
        ErrorModel::InvalidState(text).code() == "transfer.failed_precondition"@,
        ErrorModel::Io(text).code() == ErrorModel::Network(text).code(),
        ErrorModel::Network(text).code() == "transfer.unavailable"@,
        ErrorModel::Serialization(text).code() == "transfer.internal"@,
        ErrorModel::Integrity(text).code() == "transfer.integrity"@,
{
}

} // verus!

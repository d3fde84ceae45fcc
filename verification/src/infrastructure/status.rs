//! The status that every answer on the wire carries.

use crate::error::{ErrorModel, TransferError};
use vstd::prelude::*;
use vstd::string::*;

verus! {

/// Why a request was answered as it was. `Other` holds a code that the
/// library gives no meaning.
#[derive(Debug, Clone, Copy, PartialEq, Eq, Structural)]
pub enum ErrorCode {
    Success,
    InvalidArgument,
    FailedPrecondition,
    PermissionDenied,
    Conflict,
    Busy,
    ResourceExhausted,
    DeadlineExceeded,
    Unavailable,
    Cancelled,
    Other(i32),
}

/// What the other side may do about a failure.
#[derive(Debug, Clone, Copy, PartialEq, Eq, Structural)]
pub enum RecoveryAction {
    Nothing,
    Retry,
    RetryWithBackoff,
    Refresh,
    ChangeRequest,
}

/// The outcome of a request.
#[derive(Debug, PartialEq, Eq)]
pub struct Status {
    pub code: ErrorCode,
    pub message: String,
    pub retryable: bool,
    pub retry_after_ms: u64,
    pub recovery_action: RecoveryAction,
    pub error_id: String,
}

/// The mathematical value of a [`Status`].
pub struct StatusModel {
    pub code: ErrorCode,
    pub message: Seq<char>,
    pub retryable: bool,
    pub retry_after_ms: u64,
    pub recovery_action: RecoveryAction,
    pub error_id: Seq<char>,
}

impl View for Status {
    type V = StatusModel;

    open spec fn view(&self) -> StatusModel {
        StatusModel {
            code: self.code,
            message: self.message@,
            retryable: self.retryable,
            retry_after_ms: self.retry_after_ms,
            recovery_action: self.recovery_action,
            error_id: self.error_id@,
        }
    }
}

/// The status of a request that succeeded.
pub open spec fn success() -> StatusModel {
    StatusModel {
        code: ErrorCode::Success,
        message: Seq::empty(),
        retryable: false,
        retry_after_ms: 0,
        recovery_action: RecoveryAction::Nothing,
        error_id: Seq::empty(),
    }
}

/// What can be done about a failure of that kind.
pub open spec fn recovery(code: ErrorCode) -> RecoveryAction {
    match code {
        ErrorCode::Busy
        | ErrorCode::ResourceExhausted
        | ErrorCode::DeadlineExceeded
        | ErrorCode::Unavailable => RecoveryAction::RetryWithBackoff,
        ErrorCode::Conflict => RecoveryAction::Refresh,
        ErrorCode::InvalidArgument | ErrorCode::FailedPrecondition => RecoveryAction::ChangeRequest,
        _ => RecoveryAction::Nothing,
    }
}

/// The status of a request that failed.
pub open spec fn failure(code: ErrorCode, message: Seq<char>) -> StatusModel {
    StatusModel {
        code,
        message,
        retryable: recovery(code) == RecoveryAction::Retry || recovery(code)
            == RecoveryAction::RetryWithBackoff,
        retry_after_ms: 0,
        recovery_action: recovery(code),
        error_id: Seq::empty(),
    }
}

/// What an answer's status means for the one who asked.
pub open spec fn verdict(status: Option<StatusModel>) -> Result<(), ErrorModel> {
    match status {
        Some(status) => if status.code == ErrorCode::Success {
            Ok(())
        } else {
            Err(ErrorModel::Network(status.message))
        },
        None => Err(ErrorModel::Network("response is missing a status"@)),
    }
}

/// The value of an optional status.
pub open spec fn optional_status(status: Option<Status>) -> Option<StatusModel> {
    match status {
        Some(status) => Some(status@),
        None => None,
    }
}

/// A successful request is answered with a status that is taken as success, and
/// a failed one with a status that is taken as a failure with its message.
pub proof fn statuses_are_understood(code: ErrorCode, message: Seq<char>)
    ensures
        verdict(Some(success())) == Ok::<(), ErrorModel>(()),
        code != ErrorCode::Success ==> verdict(Some(failure(code, message))) == Err::<(), _>(
            ErrorModel::Network(message),
        ),
{
}

/// The status of a request that succeeded.
pub fn ok_status() -> (status: Status)
    ensures
        status@ == success(),
{
    Status {
        code: ErrorCode::Success,
        message: String::new(),
        retryable: false,
        retry_after_ms: 0,
        recovery_action: RecoveryAction::Nothing,
        error_id: String::new(),
    }
}

/// The status of a request that failed, with what can be done about it.
pub fn error_status(code: ErrorCode, message: &str) -> (status: Status)
    ensures
        status@ == failure(code, message@),
{
    let recovery_action = match code {
        ErrorCode::Busy
        | ErrorCode::ResourceExhausted
        | ErrorCode::DeadlineExceeded
        | ErrorCode::Unavailable => RecoveryAction::RetryWithBackoff,
        ErrorCode::Conflict => RecoveryAction::Refresh,
        ErrorCode::InvalidArgument | ErrorCode::FailedPrecondition => RecoveryAction::ChangeRequest,
        _ => RecoveryAction::Nothing,
    };
    Status {
        code,
        message: message.to_owned(),
        retryable: matches!(
            recovery_action,
            RecoveryAction::Retry | RecoveryAction::RetryWithBackoff
        ),
        retry_after_ms: 0,
        recovery_action,
        error_id: String::new(),
    }
}

/// Success only where the answer says so.
pub fn require_ok(status: &Option<Status>) -> (result: Result<(), TransferError>)
    ensures
        crate::error::outcome(result) == verdict(optional_status(*status)),
{
    match status {
        Some(status) => if status.code == ErrorCode::Success {
            Ok(())
        } else {
            Err(TransferError::Network(status.message.clone()))
        },
        None => Err(TransferError::network("response is missing a status")),
    }
}

/// A failure carries its code and its message. It may be tried again exactly
/// where the other side was busy, had no room, no time or was not there; after a
/// conflict one looks anew, and a request that was wrong has to be changed.
pub proof fn a_failure_says_what_can_be_done(code: ErrorCode, message: Seq<char>)
    ensures
        failure(code, message).code == code,
        failure(code, message).message == message,
        failure(code, message).retryable <==> code == ErrorCode::Busy || code
            == ErrorCode::ResourceExhausted || code == ErrorCode::DeadlineExceeded || code
            == ErrorCode::Unavailable,
        failure(code, message).retryable <==> failure(code, message).recovery_action
            == RecoveryAction::RetryWithBackoff,
        failure(code, message).recovery_action == RecoveryAction::Refresh <==> code
            == ErrorCode::Conflict,
        failure(code, message).recovery_action == RecoveryAction::ChangeRequest <==> code
            == ErrorCode::InvalidArgument || code == ErrorCode::FailedPrecondition,
        failure(code, message).recovery_action != RecoveryAction::Retry,
        failure(code, message).retry_after_ms == 0,
        failure(code, message).error_id.len() == 0,
        success().code == ErrorCode::Success,
        success().message.len() == 0,
        !success().retryable,
        success().recovery_action == RecoveryAction::Nothing,
{
}

/// An answer is taken as success exactly where its status says so; without a
/// status it is a failure.
pub proof fn only_success_is_success(status: Option<StatusModel>)
    ensures
        verdict(status) is Ok <==> (status matches Some(known) && known.code
            == ErrorCode::Success),
        verdict(status) matches Err(error) ==> error is Network,
{
}

} // verus!

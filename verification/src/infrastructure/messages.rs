//! What the two sides of a transfer say to each other once an offer is made.

use super::grants::{AcceptModel, TransferAccept};
use super::status::{
    error_status, failure, ok_status, optional_status, success, verdict, ErrorCode, Status,
    StatusModel,
};
use super::status::require_ok;
use crate::error::{ErrorModel, TransferError};
use vstd::prelude::*;
use vstd::string::*;

verus! {

/// The receiver does not take an offer.
#[derive(Debug, PartialEq, Eq)]
pub struct TransferCancel {
    pub request_id: u64,
    pub transfer_id: u64,
    pub status: Option<Status>,
}

/// The mathematical value of a [`TransferCancel`].
pub struct CancelModel {
    pub request_id: u64,
    pub transfer_id: u64,
    pub status: Option<StatusModel>,
}

impl View for TransferCancel {
    type V = CancelModel;

    open spec fn view(&self) -> CancelModel {
        CancelModel {
            request_id: self.request_id,
            transfer_id: self.transfer_id,
            status: optional_status(self.status),
        }
    }
}

/// How far the receiver has come with a transfer.
#[derive(Debug, PartialEq, Eq)]
pub struct ReceivedProgress {
    pub transfer_id: u64,
    pub file_id: u64,
    pub completed_bytes: u64,
    pub total_bytes: u64,
    pub status: Option<Status>,
}

/// The mathematical value of a [`ReceivedProgress`].
pub struct ReceivedModel {
    pub transfer_id: u64,
    pub file_id: u64,
    pub completed_bytes: u64,
    pub total_bytes: u64,
    pub status: Option<StatusModel>,
}

impl View for ReceivedProgress {
    type V = ReceivedModel;

    open spec fn view(&self) -> ReceivedModel {
        ReceivedModel {
            transfer_id: self.transfer_id,
            file_id: self.file_id,
            completed_bytes: self.completed_bytes,
            total_bytes: self.total_bytes,
            status: optional_status(self.status),
        }
    }
}

/// What the receiver says.
#[derive(Debug, PartialEq, Eq)]
pub enum Reply {
    Accept(TransferAccept),
    Cancel(TransferCancel),
    Progress(ReceivedProgress),
    /// Anything else, or nothing.
    Other,
}

/// The mathematical value of a [`Reply`].
pub enum ReplyModel {
    Accept(AcceptModel),
    Cancel(CancelModel),
    Progress(ReceivedModel),
    Other,
}

impl View for Reply {
    type V = ReplyModel;

    open spec fn view(&self) -> ReplyModel {
        match self {
            Reply::Accept(accept) => ReplyModel::Accept(accept@),
            Reply::Cancel(cancel) => ReplyModel::Cancel(cancel@),
            Reply::Progress(progress) => ReplyModel::Progress(progress@),
            Reply::Other => ReplyModel::Other,
        }
    }
}

/// The refusal of an offer for a reason.
pub open spec fn refusal(
    request_id: u64,
    transfer_id: u64,
    code: ErrorCode,
    message: Seq<char>,
) -> CancelModel {
    CancelModel { request_id, transfer_id, status: Some(failure(code, message)) }
}

/// The refusal of an offer for a reason.
pub fn refuse_offer(request_id: u64, transfer_id: u64, code: ErrorCode, message: &str) -> (cancel:
    TransferCancel)
    ensures
        cancel@ == refusal(request_id, transfer_id, code, message@),
{
    TransferCancel { request_id, transfer_id, status: Some(error_status(code, message)) }
}

/// The word that all files of a transfer have been received.
pub open spec fn completion(transfer_id: u64, total_bytes: u64) -> ReceivedModel {
    ReceivedModel {
        transfer_id,
        file_id: 0,
        completed_bytes: total_bytes,
        total_bytes,
        status: Some(success()),
    }
}

/// The word that all files of a transfer have been received.
pub fn report_completion(transfer_id: u64, total_bytes: u64) -> (progress: ReceivedProgress)
    ensures
        progress@ == completion(transfer_id, total_bytes),
{
    ReceivedProgress {
        transfer_id,
        file_id: 0,
        completed_bytes: total_bytes,
        total_bytes,
        status: Some(ok_status()),
    }
}

/// What a sender makes of the receiver's last word.
pub open spec fn concluded(reply: ReplyModel, transfer_id: u64, total_bytes: u64) -> Result<
    (),
    ErrorModel,
> {
    match reply {
        ReplyModel::Progress(progress) => if progress.transfer_id == transfer_id
            && progress.completed_bytes == total_bytes && progress.total_bytes == total_bytes {
            verdict(progress.status)
        } else {
            Err(ErrorModel::Network("invalid transfer completion"@))
        },
        _ => Err(ErrorModel::Network("invalid transfer completion"@)),
    }
}

/// What a sender makes of the receiver's last word.
pub fn conclude(reply: &Reply, transfer_id: u64, total_bytes: u64) -> (result: Result<
    (),
    TransferError,
>)
    ensures
        crate::error::outcome(result) == concluded(reply@, transfer_id, total_bytes),
{
    match reply {
        Reply::Progress(progress) => {
            if progress.transfer_id == transfer_id && progress.completed_bytes == total_bytes
                && progress.total_bytes == total_bytes {
                return require_ok(&progress.status);
            }
            Err(TransferError::network("invalid transfer completion"))
        },
        _ => Err(TransferError::network("invalid transfer completion")),
    }
}

/// The word that a receiver gives at the end is taken as such by the sender of
/// that transfer.
pub proof fn completion_is_understood(transfer_id: u64, total_bytes: u64)
    ensures
        concluded(
            ReplyModel::Progress(completion(transfer_id, total_bytes)),
            transfer_id,
            total_bytes,
        ) is Ok,
{
}

/// Whether a refusal says that the receiver has cancelled the transfer.
pub open spec fn says_cancelled(cancel: CancelModel) -> bool {
    cancel.status matches Some(status) && status.code == ErrorCode::Cancelled
}

/// What a sender is told about a refusal.
pub open spec fn refusal_message(cancel: CancelModel) -> Seq<char> {
    match cancel.status {
        Some(status) => if status.message.len() > 0 {
            status.message
        } else {
            "receiver rejected the transfer"@
        },
        None => "receiver rejected the transfer"@,
    }
}

impl TransferCancel {
    /// Whether the refusal says that the receiver has cancelled the transfer.
    pub fn says_cancelled(&self) -> (cancelled: bool)
        ensures
            cancelled == says_cancelled(self@),
    {
        match &self.status {
            Some(status) => status.code == ErrorCode::Cancelled,
            None => false,
        }
    }

    /// What to tell about the refusal.
    pub fn message(&self) -> (message: String)
        ensures
            message@ == refusal_message(self@),
    {
        match &self.status {
            Some(status) => {
                if status.message.as_str().is_empty() {
                    "receiver rejected the transfer".to_owned()
                } else {
                    status.message.clone()
                }
            },
            None => "receiver rejected the transfer".to_owned(),
        }
    }
}

/// A refusal names the request and the transfer that it refuses, tells a
/// cancelled transfer from every other reason, and gives its message to the
/// sender; one without words is told as a rejection.
pub proof fn a_refusal_says_what_it_refuses_and_why(
    request_id: u64,
    transfer_id: u64,
    code: ErrorCode,
    message: Seq<char>,
)
    ensures
        ({
            let cancel = refusal(request_id, transfer_id, code, message);
            &&& cancel.request_id == request_id
            &&& cancel.transfer_id == transfer_id
            &&& says_cancelled(cancel) <==> code == ErrorCode::Cancelled
            &&& message.len() > 0 ==> refusal_message(cancel) == message
            &&& message.len() == 0 ==> refusal_message(cancel) == "receiver rejected the transfer"@
        }),
        !says_cancelled(CancelModel { request_id, transfer_id, status: None }),
{
}

/// The receiver's last word counts only where it is the word that all bytes of
/// that very transfer have come, and that it went well.
pub proof fn only_full_receipt_concludes(reply: ReplyModel, transfer_id: u64, total_bytes: u64)
    ensures
        concluded(reply, transfer_id, total_bytes) is Ok <==> {
            &&& reply matches ReplyModel::Progress(progress) && {
                &&& progress.transfer_id == transfer_id
                &&& progress.completed_bytes == total_bytes
                &&& progress.total_bytes == total_bytes
                &&& progress.status matches Some(status) && status.code == ErrorCode::Success
            }
        },
        completion(transfer_id, total_bytes).transfer_id == transfer_id,
        completion(transfer_id, total_bytes).completed_bytes == total_bytes,
        completion(transfer_id, total_bytes).total_bytes == total_bytes,
{
}

} // verus!

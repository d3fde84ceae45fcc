//! A transfer to another device, from the prepared files to the last word.

use super::manager::sending::illustrated;
use super::manager::{rewound, ManagerModel, TransferManager};
use crate::domain::transfer::TransferModel;
use crate::domain::TransferStatus;
use crate::error::{ErrorModel, TransferError};
use crate::infrastructure::grants::{
    authorized, chunk_size, clamped_chunk, expected_ids, verify_accept,
};
use crate::infrastructure::messages::{
    conclude, concluded, refusal_message, says_cancelled, Reply, ReplyModel,
};
use crate::infrastructure::offer::{manifest_total, TransferOffer};
use crate::infrastructure::preparation::{
    build_offer, manifests, numbered_before, offer_outcome, offered_under, prepared_models,
    sort_prepared, PreparedFile, PreparedModel,
};
use crate::infrastructure::router::{close_code, stream_close_code};
use crate::infrastructure::schedule::{ScheduleStep, SendSchedule};
use vstd::prelude::*;
use vstd::string::*;

verus! {

/// What an outgoing transfer waits for.
#[derive(Debug, Clone, Copy, PartialEq, Eq, Structural)]
pub enum OutgoingStage {
    /// The files to be made ready.
    Preparing,
    /// The connection.
    Connecting,
    /// The offer to be written.
    Offering,
    /// The receiver's answer.
    Asking,
    /// The files to be sent and the receiver's last word, whichever is missing.
    Sending { sent: bool, concluded: bool },
    /// Nothing any more.
    Ended,
}

/// A transfer on its way to another device.
pub struct OutgoingTransfer {
    id: String,
    stage: OutgoingStage,
    wire_id: u64,
    prepared: Vec<PreparedFile>,
    request_id: u64,
    total_bytes: u64,
}

/// The mathematical value of an [`OutgoingTransfer`].
pub struct OutgoingModel {
    pub id: Seq<char>,
    pub stage: OutgoingStage,
    /// The number on the wire.
    pub wire_id: u64,
    /// The files that were made ready.
    pub prepared: Seq<PreparedModel>,
    /// The number of the request, once the offer is made.
    pub request_id: u64,
    /// The bytes that were offered.
    pub total_bytes: u64,
}

impl View for OutgoingTransfer {
    type V = OutgoingModel;

    closed spec fn view(&self) -> OutgoingModel {
        OutgoingModel {
            id: self.id@,
            stage: self.stage,
            wire_id: self.wire_id,
            prepared: prepared_models(self.prepared@),
            request_id: self.request_id,
            total_bytes: self.total_bytes,
        }
    }
}

/// The numbers of prepared files.
pub open spec fn file_ids(prepared: Seq<PreparedModel>) -> Seq<u64> {
    prepared.map_values(|file: PreparedModel| file.manifest.file_id)
}

/// Prepared files in the order of their numbers.
pub open spec fn in_sequence(prepared: Seq<PreparedModel>) -> Seq<PreparedModel> {
    crate::order::stably_sorted(
        prepared,
        |one: PreparedModel, other: PreparedModel| numbered_before(one, other),
    )
}

/// Everything that a step changes, and what comes of it.
pub struct OutgoingProgress {
    pub transfer: OutgoingModel,
    pub manager: ManagerModel,
    pub outcome: Result<(), ErrorModel>,
}

impl OutgoingModel {
    /// A transfer whose files are being made ready.
    pub open spec fn fresh(id: Seq<char>) -> OutgoingModel {
        OutgoingModel {
            id,
            stage: OutgoingStage::Preparing,
            wire_id: 0,
            prepared: Seq::empty(),
            request_id: 0,
            total_bytes: 0,
        }
    }

    /// The step when the files are ready: the transfer connects, and shows the
    /// previews.
    pub open spec fn on_prepared(
        self,
        manager: ManagerModel,
        prepared: Seq<PreparedModel>,
        now_ms: i64,
    ) -> OutgoingProgress {
        let files = in_sequence(prepared);
        match manager.changed(self.id, |transfer: TransferModel| Ok(rewound(transfer))) {
            Err(error) => OutgoingProgress { transfer: self, manager, outcome: Err(error) },
            Ok(reset) => {
                let (moved, change) = reset.transitioned(
                    self.id,
                    TransferStatus::Connecting,
                    now_ms,
                );
                match change {
                    Err(error) => OutgoingProgress {
                        transfer: self,
                        manager: moved,
                        outcome: Err(error),
                    },
                    Ok(_) => self.on_moved(moved, files),
                }
            },
        }
    }

    /// The step when the files are ready and the transfer has moved on.
    pub open spec fn on_moved(
        self,
        manager: ManagerModel,
        files: Seq<PreparedModel>,
    ) -> OutgoingProgress {
        match super::manager::first_transfer(manager.state.transfers, self.id) {
            None => OutgoingProgress {
                transfer: self,
                manager,
                outcome: Err(ErrorModel::TransferNotFound(self.id)),
            },
            Some(place) => match manager.changed(
                self.id,
                |transfer: TransferModel| Ok(illustrated(transfer, files)),
            ) {
                Err(error) => OutgoingProgress { transfer: self, manager, outcome: Err(error) },
                Ok(shown) => if shown.identity is None {
                    OutgoingProgress {
                        transfer: self,
                        manager: shown,
                        outcome: Err(
                            ErrorModel::InvalidState("transfer service has not started"@),
                        ),
                    }
                } else {
                    OutgoingProgress {
                        transfer: OutgoingModel {
                            stage: OutgoingStage::Connecting,
                            wire_id: manager.state.transfers[place].wire_id,
                            prepared: files,
                            ..self
                        },
                        manager: shown,
                        outcome: Ok(()),
                    }
                },
            },
        }
    }

    /// The step when the offer was written: the receiver is asked.
    pub open spec fn on_written(self, manager: ManagerModel, now_ms: i64) -> OutgoingProgress {
        let (moved, change) = manager.transitioned(
            self.id,
            TransferStatus::AwaitingApproval,
            now_ms,
        );
        match change {
            Err(error) => OutgoingProgress { transfer: self, manager: moved, outcome: Err(error) },
            Ok(_) => OutgoingProgress {
                transfer: OutgoingModel { stage: OutgoingStage::Asking, ..self },
                manager: moved,
                outcome: Ok(()),
            },
        }
    }

    /// The step when the receiver has answered. Only its consent, found good,
    /// lets the files be sent; a refusal ends the transfer as cancelled or as
    /// rejected.
    pub open spec fn on_reply(
        self,
        manager: ManagerModel,
        reply: ReplyModel,
        now_ms: i64,
    ) -> OutgoingProgress {
        match reply {
            ReplyModel::Accept(accept) => match authorized(
                accept,
                self.wire_id,
                self.request_id,
                file_ids(self.prepared),
            ) {
                Err(error) => OutgoingProgress { transfer: self, manager, outcome: Err(error) },
                Ok(_) => self.on_consent(manager, now_ms),
            },
            ReplyModel::Cancel(cancel) => {
                let (moved, change) = manager.transitioned(
                    self.id,
                    if says_cancelled(cancel) {
                        TransferStatus::Cancelled
                    } else {
                        TransferStatus::Rejected
                    },
                    now_ms,
                );
                OutgoingProgress {
                    transfer: self,
                    manager: moved,
                    outcome: match change {
                        Err(error) => Err(error),
                        Ok(_) => Err(ErrorModel::InvalidState(refusal_message(cancel))),
                    },
                }
            },
            _ => OutgoingProgress {
                transfer: self,
                manager,
                outcome: Err(ErrorModel::Network("receiver returned an invalid response"@)),
            },
        }
    }

    /// The step when the receiver has given its consent.
    pub open spec fn on_consent(self, manager: ManagerModel, now_ms: i64) -> OutgoingProgress {
        let (connected, change) = manager.transitioned(
            self.id,
            TransferStatus::Connecting,
            now_ms,
        );
        match change {
            Err(error) => OutgoingProgress {
                transfer: self,
                manager: connected,
                outcome: Err(error),
            },
            Ok(_) => {
                let (moved, start) = connected.transitioned(
                    self.id,
                    TransferStatus::Transferring,
                    now_ms,
                );
                match start {
                    Err(error) => OutgoingProgress {
                        transfer: self,
                        manager: moved,
                        outcome: Err(error),
                    },
                    Ok(_) => OutgoingProgress {
                        transfer: OutgoingModel {
                            stage: OutgoingStage::Sending { sent: false, concluded: false },
                            ..self
                        },
                        manager: moved,
                        outcome: Ok(()),
                    },
                }
            },
        }
    }

    /// The transfer after all files were sent.
    pub open spec fn after_sending(self) -> OutgoingModel {
        match self.stage {
            OutgoingStage::Sending { concluded, .. } => OutgoingModel {
                stage: OutgoingStage::Sending { sent: true, concluded },
                ..self
            },
            _ => self,
        }
    }

    /// The transfer after the receiver has given its last word.
    pub open spec fn after_conclusion(self) -> OutgoingModel {
        match self.stage {
            OutgoingStage::Sending { sent, .. } => OutgoingModel {
                stage: OutgoingStage::Sending { sent, concluded: true },
                ..self
            },
            _ => self,
        }
    }

    /// Whether all files were sent and the receiver has given its last word.
    pub open spec fn complete(self) -> bool {
        self.stage == (OutgoingStage::Sending { sent: true, concluded: true })
    }

    /// The step when all is done: the transfer is complete.
    pub open spec fn on_complete(self, manager: ManagerModel, now_ms: i64) -> OutgoingProgress {
        let (moved, change) = manager.transitioned(self.id, TransferStatus::Completed, now_ms);
        match change {
            Err(error) => OutgoingProgress { transfer: self, manager: moved, outcome: Err(error) },
            Ok(_) => OutgoingProgress {
                transfer: OutgoingModel { stage: OutgoingStage::Ended, ..self },
                manager: moved,
                outcome: Ok(()),
            },
        }
    }
}

impl OutgoingTransfer {
    /// What the transfer waits for.
    pub fn stage(&self) -> (stage: OutgoingStage)
        ensures
            stage == self@.stage,
    {
        self.stage
    }

    /// The number of the transfer on the wire.
    pub fn wire_id(&self) -> (wire_id: u64)
        ensures
            wire_id == self@.wire_id,
    {
        self.wire_id
    }

    /// The files that were made ready.
    pub fn prepared(&self) -> (prepared: &Vec<PreparedFile>)
        ensures
            prepared_models(prepared@) == self@.prepared,
    {
        &self.prepared
    }

    /// A transfer whose files are being made ready.
    pub fn begin(id: &str) -> (transfer: OutgoingTransfer)
        ensures
            transfer@ == OutgoingModel::fresh(id@),
    {
        let prepared: Vec<PreparedFile> = Vec::new();
        assert(prepared_models(prepared@) =~= Seq::empty());
        OutgoingTransfer {
            id: id.to_owned(),
            stage: OutgoingStage::Preparing,
            wire_id: 0,
            prepared,
            request_id: 0,
            total_bytes: 0,
        }
    }

    /// Takes the files that were made ready. The peer is connected to next.
    pub fn prepare(
        &mut self,
        manager: &mut TransferManager,
        prepared: Vec<PreparedFile>,
        now_ms: i64,
    ) -> (result: Result<(), TransferError>)
        requires
            old(manager).wf(),
            old(self)@.stage == OutgoingStage::Preparing,
        ensures
            final(manager).wf(),
            ({
                let progress = old(self)@.on_prepared(
                    old(manager)@,
                    prepared_models(prepared@),
                    now_ms,
                );
                &&& final(self)@ == progress.transfer
                &&& final(manager)@ == progress.manager
                &&& crate::error::outcome(result) == progress.outcome
            }),
    {
        let mut files = prepared;
        sort_prepared(&mut files);
        match manager.rewind(self.id.as_str()) {
            Ok(()) => {},
            Err(error) => {
                return Err(error);
            },
        }
        match manager.transition(self.id.as_str(), TransferStatus::Connecting, now_ms) {
            Ok(()) => {},
            Err(error) => {
                return Err(error);
            },
        }
        let wire_id = match manager.wire_id(self.id.as_str()) {
            Ok(wire_id) => wire_id,
            Err(error) => {
                return Err(error);
            },
        };
        match manager.attach_previews(self.id.as_str(), &files) {
            Ok(()) => {},
            Err(error) => {
                return Err(error);
            },
        }
        if !manager.has_identity() {
            return Err(TransferError::invalid_state("transfer service has not started"));
        }
        self.stage = OutgoingStage::Connecting;
        self.wire_id = wire_id;
        self.prepared = files;
        Ok(())
    }

    /// Makes the offer, once the peer is connected. `measure` gives the length
    /// of the frame that carries an offer, `limit` the most that a frame may
    /// have.
    pub fn make_offer<F: Fn(&TransferOffer) -> usize>(
        &mut self,
        now_ms: i64,
        measure: F,
        limit: usize,
    ) -> (result: Result<TransferOffer, TransferError>)
        requires
            old(self)@.stage == OutgoingStage::Connecting,
            manifest_total(manifests(old(self)@.prepared)) <= u64::MAX,
            forall|offer: TransferOffer| #[trigger] measure.requires((&offer,)),
        ensures
            exists|request_id: u64|
                request_id != 0 && #[trigger] offered_under(
                    offer_outcome(result),
                    request_id,
                    old(self)@.wire_id,
                    now_ms,
                    old(self)@.prepared,
                    measure,
                    limit,
                ),
            match result {
                Ok(offer) => {
                    &&& final(self)@ == (OutgoingModel {
                        stage: OutgoingStage::Offering,
                        request_id: offer.request_id,
                        total_bytes: offer.total_bytes,
                        ..old(self)@
                    })
                    &&& exists|size: usize| #[trigger]
                        measure.ensures((&offer,), size) && size <= limit
                },
                Err(_) => final(self)@ == old(self)@,
            },
    {
        match build_offer(self.wire_id, now_ms, &self.prepared, measure, limit) {
            Ok(offer) => {
                self.stage = OutgoingStage::Offering;
                self.request_id = offer.request_id;
                self.total_bytes = offer.total_bytes;
                Ok(offer)
            },
            Err(error) => Err(error),
        }
    }

    /// Notes that the offer was written. The receiver's answer is read next.
    pub fn offer_written(&mut self, manager: &mut TransferManager, now_ms: i64) -> (result: Result<
        (),
        TransferError,
    >)
        requires
            old(manager).wf(),
            old(self)@.stage == OutgoingStage::Offering,
        ensures
            final(manager).wf(),
            ({
                let progress = old(self)@.on_written(old(manager)@, now_ms);
                &&& final(self)@ == progress.transfer
                &&& final(manager)@ == progress.manager
                &&& crate::error::outcome(result) == progress.outcome
            }),
    {
        match manager.transition(self.id.as_str(), TransferStatus::AwaitingApproval, now_ms) {
            Ok(()) => {},
            Err(error) => {
                return Err(error);
            },
        }
        self.stage = OutgoingStage::Asking;
        Ok(())
    }

    /// What it means that the receiver did not answer in time.
    pub fn unanswered(&self) -> (error: TransferError)
        ensures
            error@ == ErrorModel::Network("timed out waiting for receiver confirmation"@),
    {
        TransferError::network("timed out waiting for receiver confirmation")
    }

    /// Takes the receiver's answer. Where it is consent, the files are sent
    /// next, in chunks of the size that comes back.
    pub fn take_reply(&mut self, manager: &mut TransferManager, reply: &Reply, now_ms: i64) -> (
        result: Result<usize, TransferError>)
        requires
            old(manager).wf(),
            old(self)@.stage == OutgoingStage::Asking,
        ensures
            final(manager).wf(),
            ({
                let progress = old(self)@.on_reply(old(manager)@, reply@, now_ms);
                &&& final(self)@ == progress.transfer
                &&& final(manager)@ == progress.manager
                &&& crate::error::outcome(result) == progress.outcome
                &&& result matches Ok(size) ==> (reply@ matches ReplyModel::Accept(accept) && size
                    == clamped_chunk(accept.chunk_size))
            }),
    {
        match reply {
            Reply::Accept(accept) => {
                proof {
                    assert(expected_ids(self.prepared@) =~= file_ids(self@.prepared));
                }
                match verify_accept(accept, self.wire_id, self.request_id, &self.prepared) {
                    Ok(()) => {},
                    Err(error) => {
                        return Err(error);
                    },
                }
                match manager.transition(self.id.as_str(), TransferStatus::Connecting, now_ms) {
                    Ok(()) => {},
                    Err(error) => {
                        return Err(error);
                    },
                }
                match manager.transition(self.id.as_str(), TransferStatus::Transferring, now_ms) {
                    Ok(()) => {},
                    Err(error) => {
                        return Err(error);
                    },
                }
                self.stage = OutgoingStage::Sending { sent: false, concluded: false };
                Ok(chunk_size(accept.chunk_size))
            },
            Reply::Cancel(cancel) => {
                let status = if cancel.says_cancelled() {
                    TransferStatus::Cancelled
                } else {
                    TransferStatus::Rejected
                };
                match manager.transition(self.id.as_str(), status, now_ms) {
                    Ok(()) => {},
                    Err(error) => {
                        return Err(error);
                    },
                }
                Err(TransferError::InvalidState(cancel.message()))
            },
            _ => Err(TransferError::network("receiver returned an invalid response")),
        }
    }

    /// Notes that all files were sent, in the course of that schedule, and says
    /// whether that was the last that was missing.
    pub fn files_sent(&mut self, schedule: &SendSchedule) -> (complete: bool)
        requires
            old(self)@.stage is Sending,
            schedule.wf(),
            schedule@.total == old(self)@.prepared.len(),
            schedule@.step() == ScheduleStep::Done,
        ensures
            final(self)@ == old(self)@.after_sending(),
            complete == final(self)@.complete(),
    {
        if let OutgoingStage::Sending { concluded, .. } = self.stage {
            self.stage = OutgoingStage::Sending { sent: true, concluded };
            concluded
        } else {
            false
        }
    }

    /// Takes the receiver's last word, and says whether that was the last that
    /// was missing.
    pub fn take_conclusion(&mut self, reply: &Reply) -> (result: Result<bool, TransferError>)
        requires
            old(self)@.stage is Sending,
        ensures
            crate::error::outcome(result) == concluded(
                reply@,
                old(self)@.wire_id,
                old(self)@.total_bytes,
            ),
            match result {
                Ok(complete) => final(self)@ == old(self)@.after_conclusion() && complete
                    == final(self)@.complete(),
                Err(_) => final(self)@ == old(self)@,
            },
    {
        match conclude(reply, self.wire_id, self.total_bytes) {
            Ok(()) => {},
            Err(error) => {
                return Err(error);
            },
        }
        if let OutgoingStage::Sending { sent, .. } = self.stage {
            self.stage = OutgoingStage::Sending { sent, concluded: true };
            Ok(sent)
        } else {
            Ok(false)
        }
    }

    /// Completes the transfer.
    pub fn complete(&mut self, manager: &mut TransferManager, now_ms: i64) -> (result: Result<
        (),
        TransferError,
    >)
        requires
            old(manager).wf(),
            old(self)@.complete(),
        ensures
            final(manager).wf(),
            ({
                let progress = old(self)@.on_complete(old(manager)@, now_ms);
                &&& final(self)@ == progress.transfer
                &&& final(manager)@ == progress.manager
                &&& crate::error::outcome(result) == progress.outcome
            }),
    {
        match manager.transition(self.id.as_str(), TransferStatus::Completed, now_ms) {
            Ok(()) => {},
            Err(error) => {
                return Err(error);
            },
        }
        self.stage = OutgoingStage::Ended;
        Ok(())
    }

    /// Ends the job, however far it has come, and says with which code its
    /// stream is closed, if it is.
    pub fn end(
        &self,
        manager: &mut TransferManager,
        result: &Result<(), TransferError>,
        now_ms: i64,
    ) -> (code: Option<u32>)
        requires
            old(manager).wf(),
        ensures
            final(manager).wf(),
            final(manager)@ == old(manager)@.ended(
                self@.id,
                crate::error::outcome(*result),
                now_ms,
            ),
            code == (match crate::error::outcome(*result) {
                Ok(_) => None,
                Err(error) => Some(close_code(error)),
            }),
    {
        manager.finish_job(self.id.as_str(), result, now_ms);
        match result {
            Ok(_) => None,
            Err(error) => Some(stream_close_code(error)),
        }
    }
}

/// Files are sent only after a consent that authorizes each of them.
pub proof fn sending_needs_consent(
    transfer: OutgoingModel,
    manager: ManagerModel,
    reply: ReplyModel,
    now_ms: i64,
)
    requires
        transfer.stage == OutgoingStage::Asking,
    ensures
        transfer.on_reply(manager, reply, now_ms).transfer.stage is Sending ==> (
        reply matches ReplyModel::Accept(accept) && authorized(
            accept,
            transfer.wire_id,
            transfer.request_id,
            file_ids(transfer.prepared),
        ) is Ok),
{
}

/// A transfer is complete only when all files were sent and the receiver has
/// said that it has them, in whichever order.
pub proof fn completion_needs_both_sides(transfer: OutgoingModel)
    requires
        transfer.stage == (OutgoingStage::Sending { sent: false, concluded: false }),
    ensures
        !transfer.complete(),
        !transfer.after_sending().complete(),
        !transfer.after_conclusion().complete(),
        transfer.after_sending().after_conclusion().complete(),
        transfer.after_conclusion().after_sending().complete(),
{
}

/// A transfer that was completed is over in the list, and the end of its job
/// changes nothing of that.
pub proof fn completed_transfer_is_over_in_the_list(
    transfer: OutgoingModel,
    manager: ManagerModel,
    now_ms: i64,
)
    requires
        transfer.complete(),
        forall|left: int, right: int|
            0 <= left < right < manager.state.transfers.len() ==> !((
            #[trigger] manager.state.transfers[left]).id == transfer.id && (
            #[trigger] manager.state.transfers[right]).id == transfer.id),
    ensures
        ({
            let progress = transfer.on_complete(manager, now_ms);
            progress.outcome is Ok ==> super::manager::over_in(
                progress.manager.state.transfers,
                transfer.id,
            ) && super::manager::over_in(
                progress.manager.ended(transfer.id, Ok(()), now_ms).state.transfers,
                transfer.id,
            )
        }),
{
    super::manager::changed_transfer_is_over(
        manager.silenced(transfer.id),
        transfer.id,
        |given: TransferModel| given.transitioned(TransferStatus::Completed, now_ms),
    );
}

/// A refusal at the receiver ends the transfer at the sender in the same way:
/// as cancelled where the receiver has cancelled it, as rejected otherwise.
pub proof fn refusal_reaches_the_sender(
    transfer: OutgoingModel,
    manager: ManagerModel,
    request_id: u64,
    transfer_id: u64,
    cancelled: bool,
    now_ms: i64,
)
    ensures
        ({
            let cancel = crate::infrastructure::messages::refusal(
                request_id,
                transfer_id,
                if cancelled {
                    crate::infrastructure::status::ErrorCode::Cancelled
                } else {
                    crate::infrastructure::status::ErrorCode::PermissionDenied
                },
                if cancelled {
                    "receiver canceled the transfer"@
                } else {
                    "receiver rejected the transfer"@
                },
            );
            transfer.on_reply(manager, ReplyModel::Cancel(cancel), now_ms).manager
                == manager.transitioned(
                transfer.id,
                if cancelled {
                    TransferStatus::Cancelled
                } else {
                    TransferStatus::Rejected
                },
                now_ms,
            ).0
        }),
{
}

/// Once its files are ready, a transfer that was being prepared is listed as
/// connecting, with nothing sent yet and each file with its own preview. It goes
/// on under the number that it was listed with, with all the files that were
/// made ready.
pub proof fn prepared_files_are_connected_for(
    transfer: OutgoingModel,
    manager: ManagerModel,
    prepared: Seq<PreparedModel>,
    now_ms: i64,
    place: int,
)
    requires
        0 <= place < manager.state.transfers.len(),
        manager.state.transfers[place].id == transfer.id,
        forall|earlier: int|
            0 <= earlier < place ==> (#[trigger] manager.state.transfers[earlier]).id
                != transfer.id,
        crate::application::history::over_count(manager.state.transfers) < 200,
        manager.state.transfers[place].status == TransferStatus::Preparing,
        manager.identity is Some,
    ensures
        ({
            let progress = transfer.on_prepared(manager, prepared, now_ms);
            let before = manager.state.transfers[place];
            let shown = progress.manager.state.transfers[place];
            &&& progress.outcome is Ok
            &&& progress.transfer.stage == OutgoingStage::Connecting
            &&& progress.transfer.id == transfer.id
            &&& progress.transfer.wire_id == before.wire_id
            &&& progress.transfer.prepared == in_sequence(prepared)
            &&& shown.status == TransferStatus::Connecting
            &&& shown.id == before.id
            &&& shown.peer_id == before.peer_id
            &&& shown.total_bytes == before.total_bytes
            &&& shown.completed_bytes == 0
            &&& shown.files.len() == before.files.len()
            &&& forall|file: int|
                0 <= file < before.files.len() ==> {
                    &&& (#[trigger] shown.files[file]).id == before.files[file].id
                    &&& shown.files[file].size == before.files[file].size
                    &&& shown.files[file].name == before.files[file].name
                    &&& shown.files[file].completed_bytes == 0
                }
            &&& progress.manager.state.transfers.len() == manager.state.transfers.len()
            &&& forall|other: int|
                0 <= other < manager.state.transfers.len() && other != place
                    ==> #[trigger] progress.manager.state.transfers[other]
                    == manager.state.transfers[other]
        }),
{
    let id = transfer.id;
    let files = in_sequence(prepared);
    let before = manager.state.transfers;
    let rewinding = |given: TransferModel| Ok::<TransferModel, ErrorModel>(rewound(given));
    super::manager::laws::ends_after_update(before, place, rewound(before[place]));
    super::manager::laws::changed_transfer_keeps_its_place(
        manager,
        id,
        rewinding,
        place,
        rewound(before[place]),
    );
    let reset = manager.changed(id, |given: TransferModel| Ok(rewound(given)))->Ok_0;
    assert(reset.state.transfers == before.update(place, rewound(before[place])));
    super::manager::laws::a_status_that_may_follow_is_shown(
        reset,
        id,
        TransferStatus::Connecting,
        now_ms,
        place,
    );
    let (moved, change) = reset.transitioned(id, TransferStatus::Connecting, now_ms);
    let live = moved.state.transfers;
    assert forall|earlier: int| 0 <= earlier < place implies (#[trigger] live[earlier]).id != id by {
        assert(reset.state.transfers[earlier] == before[earlier]);
    }
    super::manager::first_transfer_is_first(live, id);
    let connecting = live[place];
    assert(live =~= before.update(place, connecting));
    super::manager::laws::ends_after_update(before, place, illustrated(connecting, files));
    assert(live.update(place, illustrated(connecting, files)) =~= before.update(
        place,
        illustrated(connecting, files),
    ));
    super::manager::laws::changed_transfer_keeps_its_place(
        moved,
        id,
        |given: TransferModel| Ok(illustrated(given, files)),
        place,
        illustrated(connecting, files),
    );
}

/// The files that were made ready are offered and sent in the order of their
/// numbers, all of them and no others.
pub proof fn prepared_files_are_kept_in_sequence(prepared: Seq<PreparedModel>)
    ensures
        in_sequence(prepared).to_multiset() == prepared.to_multiset(),
        in_sequence(prepared).len() == prepared.len(),
        forall|left: int, right: int|
            0 <= left < right < prepared.len() ==> (
            #[trigger] in_sequence(prepared)[left]).manifest.file_id <= (
            #[trigger] in_sequence(prepared)[right]).manifest.file_id,
{
    let before = |one: PreparedModel, other: PreparedModel| numbered_before(one, other);
    crate::order::sorting_is_stable(prepared, before);
    assert forall|left: int, right: int| 0 <= left < right < prepared.len() implies (
    #[trigger] in_sequence(prepared)[left]).manifest.file_id <= (
    #[trigger] in_sequence(prepared)[right]).manifest.file_id by {
        assert(!before(in_sequence(prepared)[right], in_sequence(prepared)[left]));
    }
}

/// What the sender lists as it goes on: that it waits for approval once the
/// offer is written, that it moves files once a good consent has come, how it
/// was refused where it was, and that it is completed once all is done.
pub proof fn the_course_is_listed_at_the_sender(
    transfer: OutgoingModel,
    manager: ManagerModel,
    reply: ReplyModel,
    now_ms: i64,
    place: int,
)
    requires
        0 <= place < manager.state.transfers.len(),
        manager.state.transfers[place].id == transfer.id,
        forall|earlier: int|
            0 <= earlier < place ==> (#[trigger] manager.state.transfers[earlier]).id
                != transfer.id,
        crate::application::history::over_count(manager.state.transfers) < 200,
    ensures
        manager.state.transfers[place].status == TransferStatus::Connecting ==> {
            let progress = transfer.on_written(manager, now_ms);
            &&& progress.outcome is Ok
            &&& progress.transfer == (OutgoingModel { stage: OutgoingStage::Asking, ..transfer })
            &&& progress.manager.state.transfers[place].status == TransferStatus::AwaitingApproval
        },
        manager.state.transfers[place].status == TransferStatus::AwaitingApproval ==> {
            let progress = transfer.on_reply(manager, reply, now_ms);
            &&& reply matches ReplyModel::Accept(accept) ==> {
                let good = authorized(
                    accept,
                    transfer.wire_id,
                    transfer.request_id,
                    file_ids(transfer.prepared),
                );
                &&& good is Ok ==> {
                    &&& progress.outcome is Ok
                    &&& progress.transfer == (OutgoingModel {
                        stage: OutgoingStage::Sending { sent: false, concluded: false },
                        ..transfer
                    })
                    &&& progress.manager.state.transfers[place].status
                        == TransferStatus::Transferring
                    &&& progress.manager.state.transfers[place].files
                        == manager.state.transfers[place].files
                }
                &&& good is Err ==> progress.outcome == good && progress.manager == manager
                    && progress.transfer == transfer
            }
            &&& reply matches ReplyModel::Cancel(cancel) ==> {
                &&& progress.outcome == Err::<(), _>(
                    ErrorModel::InvalidState(refusal_message(cancel)),
                )
                &&& progress.manager.state.transfers[place].status == (if says_cancelled(cancel) {
                    TransferStatus::Cancelled
                } else {
                    TransferStatus::Rejected
                })
            }
            &&& !(reply is Accept) && !(reply is Cancel) ==> progress.outcome is Err
                && progress.manager == manager && progress.transfer == transfer
        },
        manager.state.transfers[place].status == TransferStatus::Transferring ==> {
            let progress = transfer.on_complete(manager, now_ms);
            &&& progress.outcome is Ok
            &&& progress.transfer.stage == OutgoingStage::Ended
            &&& progress.manager.state.transfers[place].status == TransferStatus::Completed
            &&& progress.manager.state.transfers[place].files
                == manager.state.transfers[place].files
        },
{
    let id = transfer.id;
    super::manager::laws::a_status_that_may_follow_is_shown(
        manager,
        id,
        TransferStatus::AwaitingApproval,
        now_ms,
        place,
    );
    super::manager::laws::a_status_that_may_follow_is_shown(
        manager,
        id,
        TransferStatus::Completed,
        now_ms,
        place,
    );
    super::manager::laws::a_status_that_may_follow_is_shown(
        manager,
        id,
        TransferStatus::Cancelled,
        now_ms,
        place,
    );
    super::manager::laws::a_status_that_may_follow_is_shown(
        manager,
        id,
        TransferStatus::Rejected,
        now_ms,
        place,
    );
    super::manager::laws::a_status_that_may_follow_is_shown(
        manager,
        id,
        TransferStatus::Connecting,
        now_ms,
        place,
    );
    if manager.state.transfers[place].status == TransferStatus::AwaitingApproval {
        let (connected, change) = manager.transitioned(id, TransferStatus::Connecting, now_ms);
        let before = manager.state.transfers;
        let live = connected.state.transfers;
        assert(live =~= before.update(place, live[place]));
        assert forall|earlier: int| 0 <= earlier < place implies (#[trigger] live[earlier]).id
            != id by {
            assert(live[earlier] == before[earlier]);
        }
        super::manager::laws::ends_after_update(before, place, live[place]);
        super::manager::laws::a_status_that_may_follow_is_shown(
            connected,
            id,
            TransferStatus::Transferring,
            now_ms,
            place,
        );
    }
}

} // verus!

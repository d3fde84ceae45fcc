//! An offer from another device, from its arrival to the last word.

use super::control::{JobControl, ReceiveDecision};
use super::manager::peers::ObservedModel;
use super::manager::sending::fresh_transfer_is_booked;
use super::manager::{ManagerModel, TransferManager};
use super::policies::StoredReceivePolicy;
use super::trust::{Trust, TrustModel};
use crate::domain::peer::PeerModel;
use crate::domain::transfer::{
    file_models, sizes_total, FileModel, TransferModel,
};
use crate::domain::{
    ReceivePolicy, TransferDirection, TransferFileView, TransferStatus, TransferView,
};
use crate::error::{modeled, ErrorModel, TransferError};
use crate::infrastructure::encoding::{base64_fits, base64_text, data_url, preview_data_url};
use crate::infrastructure::filesystem::{
    file_kind, file_name_of, kind_of_extension, path_extension, path_file_name, MAX_CHUNK_SIZE,
};
use crate::infrastructure::grants::{
    accept_offer, capacity, draw_tickets, ensure_receive_capacity, issue_grants_with, issued, kept,
    ticket_bytes, AcceptModel, FileGrants, HeldModel, TICKET_BYTES,
};
use crate::infrastructure::identifiers::{draw_uuid, uuid_text};
use crate::infrastructure::messages::{
    completion, refusal, refuse_offer, report_completion, Reply, ReplyModel,
};
use crate::infrastructure::offer::{
    examined, manifest_models, manifest_total, path_keys, preview_models, validate_offer,
    FileManifestEntry, ManifestModel, OfferModel, PreviewModel, TransferOffer, TransferPreview,
};
use crate::infrastructure::router::{close_code, stream_close_code, SessionRouter};
use crate::infrastructure::schedule::{ReceiveSchedule, ReceiveScheduleModel, ScheduleStep};
use crate::infrastructure::status::ErrorCode;
use vstd::prelude::*;
use vstd::string::*;

verus! {

/// The device at the other end of a session.
#[derive(Debug, PartialEq, Eq)]
pub struct Caller {
    pub id: String,
    pub name: String,
    pub public_key: Vec<u8>,
    pub address: String,
}

impl View for Caller {
    type V = ObservedModel;

    open spec fn view(&self) -> ObservedModel {
        ObservedModel {
            id: self.id@,
            name: self.name@,
            public_key: self.public_key@,
            address: self.address@,
        }
    }
}

/// What an incoming transfer waits for.
#[derive(Debug, Clone, Copy, PartialEq, Eq, Structural)]
pub enum IncomingStage {
    /// The offer.
    Offer,
    /// A person's decision.
    Decision,
    /// The policies to be written down.
    Policy,
    /// The free space to be measured.
    Space,
    /// The refusal to be written, which leaves the transfer in that status.
    Refusing(TransferStatus),
    /// The refusal for want of room to be written.
    Full,
    /// The consent to be written.
    Accepting,
    /// The files.
    Receiving,
    /// The last word to be written.
    Completing,
    /// Nothing any more.
    Ended,
}

/// What happens to an incoming transfer.
pub enum IncomingEvent {
    /// The first message came, which should hold an offer.
    Offered { offer: Option<TransferOffer>, caller: Caller, trust: Trust },
    /// A person has decided, or nobody did in time.
    Decided { decision: Option<ReceiveDecision>, trust: Trust },
    /// The policies were written down.
    PoliciesSaved,
    /// The free space was measured.
    Space(Result<u64, TransferError>),
    /// A message was written.
    Written,
    /// All files were received, in the course of that schedule.
    Received(ReceiveSchedule),
}

/// The mathematical value of an [`IncomingEvent`].
pub enum IncomingEventModel {
    Offered { offer: Option<OfferModel>, caller: ObservedModel, trust: TrustModel },
    Decided { decision: Option<ReceiveDecision>, trust: TrustModel },
    PoliciesSaved,
    Space(Result<u64, ErrorModel>),
    Written,
    Received(ReceiveScheduleModel),
}

/// The value of an offer that may not be there.
pub open spec fn optional_offer(offer: Option<TransferOffer>) -> Option<OfferModel> {
    match offer {
        Some(offer) => Some(offer@),
        None => None,
    }
}

impl View for IncomingEvent {
    type V = IncomingEventModel;

    open spec fn view(&self) -> IncomingEventModel {
        match self {
            IncomingEvent::Offered { offer, caller, trust } => IncomingEventModel::Offered {
                offer: optional_offer(*offer),
                caller: caller@,
                trust: trust@,
            },
            IncomingEvent::Decided { decision, trust } => IncomingEventModel::Decided {
                decision: *decision,
                trust: trust@,
            },
            IncomingEvent::PoliciesSaved => IncomingEventModel::PoliciesSaved,
            IncomingEvent::Space(available) => IncomingEventModel::Space(modeled(*available)),
            IncomingEvent::Written => IncomingEventModel::Written,
            IncomingEvent::Received(schedule) => IncomingEventModel::Received(schedule@),
        }
    }
}

/// What is to be done for an incoming transfer.
pub enum IncomingAction {
    /// Ask a person.
    AwaitDecision,
    /// Write down the policies.
    SavePolicies(Vec<StoredReceivePolicy>),
    /// Measure the free space of the receive directory.
    MeasureSpace,
    /// Write a message.
    Write(Reply),
    /// Receive the files by this schedule.
    ReceiveFiles(ReceiveSchedule),
    /// Nothing any more.
    Done,
}

/// The mathematical value of an [`IncomingAction`].
pub enum IncomingActionModel {
    AwaitDecision,
    SavePolicies(Map<Seq<char>, ReceivePolicy>),
    MeasureSpace,
    Write(ReplyModel),
    ReceiveFiles(ReceiveScheduleModel),
    Done,
}

/// Whether an action is the one that a value stands for.
pub open spec fn is_action(action: IncomingAction, model: IncomingActionModel) -> bool {
    match (action, model) {
        (IncomingAction::AwaitDecision, IncomingActionModel::AwaitDecision) => true,
        (
            IncomingAction::SavePolicies(items),
            IncomingActionModel::SavePolicies(policies),
        ) => super::policies::listed(items@, policies),
        (IncomingAction::MeasureSpace, IncomingActionModel::MeasureSpace) => true,
        (IncomingAction::Write(reply), IncomingActionModel::Write(message)) => reply@ == message,
        (IncomingAction::ReceiveFiles(schedule), IncomingActionModel::ReceiveFiles(plan)) =>
            schedule@ == plan && schedule.wf(),
        (IncomingAction::Done, IncomingActionModel::Done) => true,
        _ => false,
    }
}

/// Whether a result is the one that a value stands for.
pub open spec fn is_outcome(
    result: Result<IncomingAction, TransferError>,
    model: Result<IncomingActionModel, ErrorModel>,
) -> bool {
    match (result, model) {
        (Ok(action), Ok(wanted)) => is_action(action, wanted),
        (Err(error), Err(wanted)) => error@ == wanted,
        _ => false,
    }
}

/// An offer on its way through the service.
pub struct IncomingTransfer {
    local_id: String,
    stage: IncomingStage,
    sender_id: String,
    offer: TransferOffer,
    paired: bool,
    automatic: bool,
    note: String,
    grants: Option<FileGrants>,
    routed: bool,
}

/// The mathematical value of an [`IncomingTransfer`].
pub struct IncomingModel {
    pub local_id: Seq<char>,
    pub stage: IncomingStage,
    pub sender_id: Seq<char>,
    pub offer: OfferModel,
    /// Whether the sender is paired.
    pub paired: bool,
    /// Whether the offer is taken without asking.
    pub automatic: bool,
    /// Why there was no room.
    pub note: Seq<char>,
    /// The authorizations that were given, until the files come.
    pub grants: Option<Map<u64, HeldModel>>,
    /// Whether the transfer has a route for its files.
    pub routed: bool,
}

impl View for IncomingTransfer {
    type V = IncomingModel;

    closed spec fn view(&self) -> IncomingModel {
        IncomingModel {
            local_id: self.local_id@,
            stage: self.stage,
            sender_id: self.sender_id@,
            offer: self.offer@,
            paired: self.paired,
            automatic: self.automatic,
            note: self.note@,
            grants: match self.grants {
                Some(grants) => Some(grants@),
                None => None,
            },
            routed: self.routed,
        }
    }
}

/// The place of the first preview of a file.
pub open spec fn first_preview(previews: Seq<PreviewModel>, file_id: u64) -> Option<int>
    decreases previews.len(),
{
    if previews.len() == 0 {
        None
    } else {
        match first_preview(previews.drop_last(), file_id) {
            Some(place) => Some(place),
            None => if previews.last().file_id == file_id {
                Some(previews.len() - 1)
            } else {
                None
            },
        }
    }
}

/// A file of an offer as it is shown.
pub open spec fn incoming_file(previews: Seq<PreviewModel>, file: ManifestModel) -> FileModel {
    FileModel {
        id: file.file_id,
        name: match file_name_of(file.relative_path) {
            Some(name) => name,
            None => file.relative_path,
        },
        relative_path: file.relative_path,
        local_path: None,
        receive_directory: None,
        size: file.size,
        media_type: file.media_type,
        kind: kind_of_extension(path_extension(file.relative_path)),
        thumbnail_data_url: match first_preview(previews, file.file_id) {
            Some(place) => data_url(previews[place].media_type, previews[place].data),
            None => None,
        },
        completed_bytes: 0,
    }
}

/// The files of an offer as they are shown.
pub open spec fn incoming_files(offer: OfferModel) -> Seq<FileModel> {
    offer.files.map_values(|file: ManifestModel| incoming_file(offer.previews, file))
}

/// The transfer that an offer begins.
pub open spec fn incoming_transfer(
    local_id: Seq<char>,
    offer: OfferModel,
    caller: ObservedModel,
    automatic: bool,
    now_ms: i64,
) -> TransferModel {
    TransferModel {
        id: local_id,
        wire_id: offer.transfer_id,
        peer_id: caller.id,
        peer_name: caller.name,
        direction: TransferDirection::Receiving,
        status: if automatic {
            TransferStatus::Connecting
        } else {
            TransferStatus::AwaitingApproval
        },
        files: incoming_files(offer),
        total_bytes: offer.total_bytes,
        completed_bytes: 0,
        speed_bytes_per_second: 0,
        remaining_seconds: None,
        error_message: None,
        created_at_ms: now_ms,
        updated_at_ms: now_ms,
    }
}

/// The answer that holds where nobody has decided.
pub open spec fn effective_decision(decision: Option<ReceiveDecision>) -> ReceiveDecision {
    match decision {
        Some(decision) => decision,
        None => ReceiveDecision { accept: false, automatic_receive: false, cancelled: false },
    }
}

/// Everything that a step changes, and what comes of it.
pub struct IncomingProgress {
    pub transfer: IncomingModel,
    pub manager: ManagerModel,
    pub routes: Map<u64, usize>,
    pub outcome: Result<IncomingActionModel, ErrorModel>,
}

impl IncomingModel {
    /// A transfer that waits for its offer.
    pub open spec fn fresh(local_id: Seq<char>) -> IncomingModel {
        IncomingModel {
            local_id,
            stage: IncomingStage::Offer,
            sender_id: Seq::empty(),
            offer: OfferModel {
                request_id: 0,
                transfer_id: 0,
                display_name: Seq::empty(),
                files: Seq::empty(),
                total_bytes: 0,
                created_at_ms: 0,
                previews: Seq::empty(),
            },
            paired: false,
            automatic: false,
            note: Seq::empty(),
            grants: None,
            routed: false,
        }
    }

    /// Whether an event is one that the transfer waits for. Its files are
    /// received only in the course of a schedule of all of them that is done.
    pub open spec fn awaits(self, event: IncomingEventModel) -> bool {
        match event {
            IncomingEventModel::Offered { .. } => self.stage == IncomingStage::Offer,
            IncomingEventModel::Decided { .. } => self.stage == IncomingStage::Decision,
            IncomingEventModel::PoliciesSaved => self.stage == IncomingStage::Policy,
            IncomingEventModel::Space(_) => self.stage == IncomingStage::Space,
            IncomingEventModel::Written => self.stage is Refusing || self.stage
                == IncomingStage::Full || self.stage == IncomingStage::Accepting || self.stage
                == IncomingStage::Completing,
            IncomingEventModel::Received(schedule) => {
                &&& self.stage == IncomingStage::Receiving
                &&& schedule.sound()
                &&& schedule.step() == ScheduleStep::Done
                &&& schedule.transfer_id == self.offer.transfer_id
                &&& schedule.files == self.offer.files
            },
        }
    }

    /// The step when the offer comes: it is checked, its sender is noted, and
    /// unless its sender is paired and has leave, a person is asked.
    pub open spec fn on_offer(
        self,
        manager: ManagerModel,
        routes: Map<u64, usize>,
        offer: Option<OfferModel>,
        caller: ObservedModel,
        trust: TrustModel,
        now_ms: i64,
    ) -> IncomingProgress {
        match offer {
            None => IncomingProgress {
                transfer: self,
                manager,
                routes,
                outcome: Err(
                    ErrorModel::Network("transfer control stream is missing an offer"@),
                ),
            },
            Some(offer) => match examined(offer, path_keys(offer.files)) {
                Err(error) => IncomingProgress {
                    transfer: self,
                    manager,
                    routes,
                    outcome: Err(error),
                },
                Ok(_) => match manager.observed(
                    caller,
                    base64_text(caller.public_key),
                    trust,
                    now_ms,
                ) {
                    Err(error) => IncomingProgress {
                        transfer: self,
                        manager,
                        routes,
                        outcome: Err(error),
                    },
                    Ok(seen) => match trust.paired(Some(caller.public_key)) {
                        Err(error) => IncomingProgress {
                            transfer: self,
                            manager: seen,
                            routes,
                            outcome: Err(error),
                        },
                        Ok(paired) => self.on_good_offer(
                            seen,
                            routes,
                            offer,
                            caller,
                            paired,
                            now_ms,
                        ),
                    },
                },
            },
        }
    }

    /// The step when a good offer has come from a sender that may be paired.
    pub open spec fn on_good_offer(
        self,
        manager: ManagerModel,
        routes: Map<u64, usize>,
        offer: OfferModel,
        caller: ObservedModel,
        paired: bool,
        now_ms: i64,
    ) -> IncomingProgress {
        let automatic = manager.automatic(caller.id, paired);
        let waiting = if automatic {
            manager
        } else {
            ManagerModel { pending: manager.pending.insert(self.local_id, ()), ..manager }
        };
        IncomingProgress {
            transfer: IncomingModel {
                stage: if automatic {
                    IncomingStage::Space
                } else {
                    IncomingStage::Decision
                },
                sender_id: caller.id,
                offer,
                paired,
                automatic,
                ..self
            },
            manager: waiting.pushed(
                incoming_transfer(self.local_id, offer, caller, automatic, now_ms),
            ),
            routes,
            outcome: Ok(
                if automatic {
                    IncomingActionModel::MeasureSpace
                } else {
                    IncomingActionModel::AwaitDecision
                },
            ),
        }
    }

    /// The step when a person has decided, or nobody did in time.
    pub open spec fn on_decision(
        self,
        manager: ManagerModel,
        routes: Map<u64, usize>,
        decision: Option<ReceiveDecision>,
        trust: TrustModel,
    ) -> IncomingProgress {
        let answer = effective_decision(decision);
        if !answer.accept {
            let (code, status, message) = if answer.cancelled {
                (
                    ErrorCode::Cancelled,
                    TransferStatus::Cancelled,
                    "receiver canceled the transfer"@,
                )
            } else {
                (
                    ErrorCode::PermissionDenied,
                    TransferStatus::Rejected,
                    "receiver rejected the transfer"@,
                )
            };
            IncomingProgress {
                transfer: IncomingModel { stage: IncomingStage::Refusing(status), ..self },
                manager,
                routes,
                outcome: Ok(
                    IncomingActionModel::Write(
                        ReplyModel::Cancel(
                            refusal(
                                self.offer.request_id,
                                self.offer.transfer_id,
                                code,
                                message,
                            ),
                        ),
                    ),
                ),
            }
        } else if answer.automatic_receive && self.paired {
            match trust.paired(None) {
                Err(error) => IncomingProgress {
                    transfer: self,
                    manager,
                    routes,
                    outcome: Err(error),
                },
                Ok(false) => IncomingProgress {
                    transfer: self,
                    manager,
                    routes,
                    outcome: Err(
                        ErrorModel::InvalidState("device has not completed unified pairing"@),
                    ),
                },
                Ok(true) => {
                    let remembered = manager.with_policy(self.sender_id, ReceivePolicy::Automatic);
                    IncomingProgress {
                        transfer: IncomingModel { stage: IncomingStage::Policy, ..self },
                        manager: remembered,
                        routes,
                        outcome: Ok(IncomingActionModel::SavePolicies(remembered.policies)),
                    }
                },
            }
        } else {
            IncomingProgress {
                transfer: IncomingModel { stage: IncomingStage::Space, ..self },
                manager,
                routes,
                outcome: Ok(IncomingActionModel::MeasureSpace),
            }
        }
    }

    /// The step when the free space is known: either there is no room, or the
    /// sender gets an authorization for each file.
    pub open spec fn on_space(
        self,
        manager: ManagerModel,
        routes: Map<u64, usize>,
        available: Result<u64, ErrorModel>,
        tickets: Seq<Seq<u8>>,
        now_ms: i64,
    ) -> IncomingProgress {
        let room = match available {
            Ok(available) => capacity(available, self.offer.total_bytes),
            Err(error) => Err(error),
        };
        match room {
            Err(error) => IncomingProgress {
                transfer: IncomingModel {
                    stage: IncomingStage::Full,
                    note: error.message(),
                    ..self
                },
                manager,
                routes,
                outcome: Ok(
                    IncomingActionModel::Write(
                        ReplyModel::Cancel(
                            refusal(
                                self.offer.request_id,
                                self.offer.transfer_id,
                                ErrorCode::ResourceExhausted,
                                error.message(),
                            ),
                        ),
                    ),
                ),
            },
            Ok(_) => {
                let (moved, change) = if self.automatic {
                    (manager, Ok(()))
                } else {
                    manager.transitioned(self.local_id, TransferStatus::Connecting, now_ms)
                };
                match change {
                    Err(error) => IncomingProgress {
                        transfer: self,
                        manager: moved,
                        routes,
                        outcome: Err(error),
                    },
                    Ok(_) => if routes.contains_key(self.offer.transfer_id) {
                        IncomingProgress {
                            transfer: self,
                            manager: moved,
                            routes,
                            outcome: Err(ErrorModel::Invalid("duplicate active transfer id"@)),
                        }
                    } else {
                        IncomingProgress {
                            transfer: IncomingModel {
                                stage: IncomingStage::Accepting,
                                grants: Some(kept(self.offer.files, tickets, now_ms)),
                                routed: true,
                                ..self
                            },
                            manager: moved,
                            routes: routes.insert(self.offer.transfer_id, 0usize),
                            outcome: Ok(
                                IncomingActionModel::Write(
                                    ReplyModel::Accept(
                                        AcceptModel {
                                            request_id: self.offer.request_id,
                                            transfer_id: self.offer.transfer_id,
                                            grants: issued(self.offer.files, tickets, now_ms),
                                            chunk_size: MAX_CHUNK_SIZE as u32,
                                        },
                                    ),
                                ),
                            ),
                        }
                    },
                }
            },
        }
    }

    /// The step when a message was written.
    pub open spec fn on_written(
        self,
        manager: ManagerModel,
        routes: Map<u64, usize>,
        now_ms: i64,
    ) -> IncomingProgress {
        match self.stage {
            IncomingStage::Refusing(status) => {
                let (moved, change) = manager.transitioned(self.local_id, status, now_ms);
                match change {
                    Err(error) => IncomingProgress {
                        transfer: self,
                        manager: moved,
                        routes,
                        outcome: Err(error),
                    },
                    Ok(_) => IncomingProgress {
                        transfer: IncomingModel { stage: IncomingStage::Ended, ..self },
                        manager: ManagerModel { jobs: moved.jobs.remove(self.local_id), ..moved },
                        routes,
                        outcome: Ok(IncomingActionModel::Done),
                    },
                }
            },
            IncomingStage::Full => {
                let failed = manager.failed(self.local_id, self.note, now_ms);
                IncomingProgress {
                    transfer: IncomingModel { stage: IncomingStage::Ended, ..self },
                    manager: ManagerModel { jobs: failed.jobs.remove(self.local_id), ..failed },
                    routes,
                    outcome: Ok(IncomingActionModel::Done),
                }
            },
            IncomingStage::Accepting => {
                let (moved, change) = manager.transitioned(
                    self.local_id,
                    TransferStatus::Transferring,
                    now_ms,
                );
                match change {
                    Err(error) => IncomingProgress {
                        transfer: self,
                        manager: moved,
                        routes,
                        outcome: Err(error),
                    },
                    Ok(_) => IncomingProgress {
                        transfer: IncomingModel {
                            stage: IncomingStage::Receiving,
                            grants: None,
                            ..self
                        },
                        manager: moved,
                        routes,
                        outcome: Ok(
                            IncomingActionModel::ReceiveFiles(
                                ReceiveScheduleModel {
                                    transfer_id: self.offer.transfer_id,
                                    files: self.offer.files,
                                    received: Seq::empty(),
                                    running: 0,
                                    grants: match self.grants {
                                        Some(grants) => grants,
                                        None => Map::empty(),
                                    },
                                },
                            ),
                        ),
                    },
                }
            },
            _ => IncomingProgress {
                transfer: IncomingModel { stage: IncomingStage::Ended, ..self },
                manager,
                routes,
                outcome: Ok(IncomingActionModel::Done),
            },
        }
    }

    /// The step when all files were received.
    pub open spec fn on_received(
        self,
        manager: ManagerModel,
        routes: Map<u64, usize>,
        now_ms: i64,
    ) -> IncomingProgress {
        let (moved, change) = manager.transitioned(
            self.local_id,
            TransferStatus::Completed,
            now_ms,
        );
        match change {
            Err(error) => IncomingProgress {
                transfer: self,
                manager: moved,
                routes,
                outcome: Err(error),
            },
            Ok(_) => IncomingProgress {
                transfer: IncomingModel { stage: IncomingStage::Completing, ..self },
                manager: moved,
                routes,
                outcome: Ok(
                    IncomingActionModel::Write(
                        ReplyModel::Progress(
                            completion(self.offer.transfer_id, self.offer.total_bytes),
                        ),
                    ),
                ),
            },
        }
    }

    /// What a step changes, and what comes of it. `tickets` are those of the
    /// authorizations.
    pub open spec fn stepped(
        self,
        manager: ManagerModel,
        routes: Map<u64, usize>,
        event: IncomingEventModel,
        tickets: Seq<Seq<u8>>,
        now_ms: i64,
    ) -> IncomingProgress {
        match event {
            IncomingEventModel::Offered { offer, caller, trust } => self.on_offer(
                manager,
                routes,
                offer,
                caller,
                trust,
                now_ms,
            ),
            IncomingEventModel::Decided { decision, trust } => self.on_decision(
                manager,
                routes,
                decision,
                trust,
            ),
            IncomingEventModel::PoliciesSaved => IncomingProgress {
                transfer: IncomingModel { stage: IncomingStage::Space, ..self },
                manager: manager.with_policy_shown(self.sender_id, true),
                routes,
                outcome: Ok(IncomingActionModel::MeasureSpace),
            },
            IncomingEventModel::Space(available) => self.on_space(
                manager,
                routes,
                available,
                tickets,
                now_ms,
            ),
            IncomingEventModel::Written => self.on_written(manager, routes, now_ms),
            IncomingEventModel::Received(_) => self.on_received(manager, routes, now_ms),
        }
    }
}

fn find_preview(previews: &Vec<TransferPreview>, file_id: u64) -> (place: Option<usize>)
    ensures
        match place {
            Some(place) => first_preview(preview_models(previews@), file_id) == Some(place as int)
                && place < previews@.len(),
            None => first_preview(preview_models(previews@), file_id) is None,
        },
{
    let ghost models = preview_models(previews@);
    let mut place: usize = 0;
    assert(models.take(0) =~= Seq::empty());
    while place < previews.len()
        invariant
            place <= previews@.len(),
            models == preview_models(previews@),
            first_preview(models.take(place as int), file_id) is None,
        decreases previews@.len() - place,
    {
        proof {
            assert(models.take(place + 1).drop_last() =~= models.take(place as int));
            assert(models.take(place + 1).last() == previews@[place as int]@);
        }
        if previews[place].file_id == file_id {
            proof {
                first_preview_extends(models, file_id, place + 1);
            }
            return Some(place);
        }
        place += 1;
    }
    assert(models.take(models.len() as int) =~= models);
    None
}

proof fn first_preview_extends(previews: Seq<PreviewModel>, file_id: u64, length: int)
    requires
        0 <= length <= previews.len(),
        first_preview(previews.take(length), file_id) is Some,
    ensures
        first_preview(previews, file_id) == first_preview(previews.take(length), file_id),
    decreases previews.len(),
{
    if length == previews.len() {
        assert(previews.take(length) =~= previews);
    } else {
        assert(previews.drop_last().take(length) =~= previews.take(length));
        first_preview_extends(previews.drop_last(), file_id, length);
    }
}

fn list_incoming_files(offer: &TransferOffer) -> (files: Vec<TransferFileView>)
    ensures
        file_models(files@) == incoming_files(offer@),
{
    let ghost wanted = incoming_files(offer@);
    let mut files: Vec<TransferFileView> = Vec::new();
    let mut index: usize = 0;
    while index < offer.files.len()
        invariant
            index <= offer.files@.len(),
            wanted == incoming_files(offer@),
            files@.len() == index,
            forall|place: int| 0 <= place < index ==> (#[trigger] files@[place])@ == wanted[place],
        decreases offer.files@.len() - index,
    {
        let manifest = &offer.files[index];
        assert(offer@.files[index as int] == manifest@);
        let path = manifest.relative_path.as_str();
        let thumbnail_data_url = match find_preview(&offer.previews, manifest.file_id) {
            Some(place) => {
                assert(offer@.previews[place as int] == offer.previews@[place as int]@);
                preview_data_url(
                    offer.previews[place].media_type.as_str(),
                    offer.previews[place].data.as_slice(),
                )
            },
            None => None,
        };
        let name = match path_file_name(path) {
            Some(name) => name,
            None => manifest.relative_path.clone(),
        };
        let file = TransferFileView {
            id: manifest.file_id,
            name,
            relative_path: manifest.relative_path.clone(),
            local_path: None,
            receive_directory: None,
            size: manifest.size,
            media_type: manifest.media_type.clone(),
            kind: file_kind(path),
            thumbnail_data_url,
            completed_bytes: 0,
        };
        assert(file@ == wanted[index as int]);
        files.push(file);
        index += 1;
    }
    assert(file_models(files@) =~= wanted);
    files
}

proof fn incoming_sizes_add_up(previews: Seq<PreviewModel>, files: Seq<ManifestModel>)
    ensures
        sizes_total(files.map_values(|file: ManifestModel| incoming_file(previews, file)))
            == manifest_total(files),
    decreases files.len(),
{
    let shown = files.map_values(|file: ManifestModel| incoming_file(previews, file));
    if files.len() > 0 {
        incoming_sizes_add_up(previews, files.drop_last());
        assert(shown.drop_last() =~= files.drop_last().map_values(
            |file: ManifestModel| incoming_file(previews, file),
        ));
    }
}

impl IncomingTransfer {
    /// The identifier of the transfer.
    pub fn local_id(&self) -> (id: String)
        ensures
            id@ == self@.local_id,
    {
        self.local_id.clone()
    }

    /// What the transfer waits for.
    pub fn stage(&self) -> (stage: IncomingStage)
        ensures
            stage == self@.stage,
    {
        self.stage
    }

    /// Begins a transfer under an identifier, as a job that runs.
    pub fn begin_as(local_id: &str, manager: &mut TransferManager) -> (transfer: IncomingTransfer)
        requires
            old(manager).wf(),
        ensures
            final(manager).wf(),
            transfer@ == IncomingModel::fresh(local_id@),
            final(manager)@ == old(manager)@.with_job(
                local_id@,
                (JobControl { paused: false, cancelled: false }),
            ),
    {
        manager.register_job(local_id);
        let files: Vec<FileManifestEntry> = Vec::new();
        let previews: Vec<TransferPreview> = Vec::new();
        proof {
            assert(manifest_models(files@) =~= Seq::empty());
            assert(preview_models(previews@) =~= Seq::empty());
        }
        IncomingTransfer {
            local_id: local_id.to_owned(),
            stage: IncomingStage::Offer,
            sender_id: String::new(),
            offer: TransferOffer {
                request_id: 0,
                transfer_id: 0,
                display_name: String::new(),
                files,
                total_bytes: 0,
                created_at_ms: 0,
                previews,
            },
            paired: false,
            automatic: false,
            note: String::new(),
            grants: None,
            routed: false,
        }
    }

    /// Begins a transfer under a new identifier, as a job that runs.
    pub fn begin(manager: &mut TransferManager) -> (transfer: IncomingTransfer)
        requires
            old(manager).wf(),
        ensures
            final(manager).wf(),
            uuid_text(transfer@.local_id),
            transfer@ == IncomingModel::fresh(transfer@.local_id),
            final(manager)@ == old(manager)@.with_job(
                transfer@.local_id,
                (JobControl { paused: false, cancelled: false }),
            ),
    {
        let local_id = draw_uuid();
        IncomingTransfer::begin_as(local_id.as_str(), manager)
    }

    fn take_offer(
        &mut self,
        manager: &mut TransferManager,
        offer: Option<TransferOffer>,
        caller: &Caller,
        trust: &Trust,
        now_ms: i64,
        routes: Ghost<Map<u64, usize>>,
    ) -> (result: Result<IncomingAction, TransferError>)
        requires
            old(manager).wf(),
            old(self)@.stage == IncomingStage::Offer,
            base64_fits(caller.public_key@.len()),
        ensures
            final(manager).wf(),
            ({
                let progress = old(self)@.on_offer(
                    old(manager)@,
                    routes@,
                    optional_offer(offer),
                    caller@,
                    trust@,
                    now_ms,
                );
                &&& final(self)@ == progress.transfer
                &&& final(manager)@ == progress.manager
                &&& is_outcome(result, progress.outcome)
            }),
    {
        let offer = match offer {
            Some(offer) => offer,
            None => {
                return Err(TransferError::network("transfer control stream is missing an offer"));
            },
        };
        match validate_offer(&offer) {
            Ok(()) => {},
            Err(error) => {
                return Err(error);
            },
        }
        match manager.observe_incoming_peer(
            caller.id.as_str(),
            caller.name.as_str(),
            &caller.public_key,
            caller.address.as_str(),
            trust,
            now_ms,
        ) {
            Ok(()) => {},
            Err(error) => {
                return Err(error);
            },
        }
        let paired = match trust.is_paired_peer(Some(&caller.public_key)) {
            Ok(paired) => paired,
            Err(error) => {
                return Err(error);
            },
        };
        let automatic = paired && manager.receive_policy(caller.id.as_str())
            == ReceivePolicy::Automatic;
        let files = list_incoming_files(&offer);
        if !automatic {
            manager.await_decision(self.local_id.as_str());
        }
        let transfer = TransferView {
            id: self.local_id.clone(),
            wire_id: offer.transfer_id,
            peer_id: caller.id.clone(),
            peer_name: caller.name.clone(),
            direction: TransferDirection::Receiving,
            status: if automatic {
                TransferStatus::Connecting
            } else {
                TransferStatus::AwaitingApproval
            },
            files,
            total_bytes: offer.total_bytes,
            completed_bytes: 0,
            speed_bytes_per_second: 0,
            remaining_seconds: None,
            error_message: None,
            created_at_ms: now_ms,
            updated_at_ms: now_ms,
        };
        proof {
            crate::infrastructure::offer::exactly_good_offers_pass(
                offer@,
                path_keys(offer@.files),
            );
            incoming_sizes_add_up(offer@.previews, offer@.files);
            fresh_transfer_is_booked(transfer@);
        }
        manager.push_transfer(transfer);
        self.sender_id = caller.id.clone();
        self.offer = offer;
        self.paired = paired;
        self.automatic = automatic;
        if automatic {
            self.stage = IncomingStage::Space;
            Ok(IncomingAction::MeasureSpace)
        } else {
            self.stage = IncomingStage::Decision;
            Ok(IncomingAction::AwaitDecision)
        }
    }

    fn take_decision(
        &mut self,
        manager: &mut TransferManager,
        decision: Option<ReceiveDecision>,
        trust: &Trust,
        routes: Ghost<Map<u64, usize>>,
    ) -> (result: Result<IncomingAction, TransferError>)
        requires
            old(manager).wf(),
        ensures
            final(manager).wf(),
            ({
                let progress = old(self)@.on_decision(
                    old(manager)@,
                    routes@,
                    decision,
                    trust@,
                );
                &&& final(self)@ == progress.transfer
                &&& final(manager)@ == progress.manager
                &&& is_outcome(result, progress.outcome)
            }),
    {
        let answer = match decision {
            Some(decision) => decision,
            None => ReceiveDecision { accept: false, automatic_receive: false, cancelled: false },
        };
        if !answer.accept {
            let cancel = if answer.cancelled {
                self.stage = IncomingStage::Refusing(TransferStatus::Cancelled);
                refuse_offer(
                    self.offer.request_id,
                    self.offer.transfer_id,
                    ErrorCode::Cancelled,
                    "receiver canceled the transfer",
                )
            } else {
                self.stage = IncomingStage::Refusing(TransferStatus::Rejected);
                refuse_offer(
                    self.offer.request_id,
                    self.offer.transfer_id,
                    ErrorCode::PermissionDenied,
                    "receiver rejected the transfer",
                )
            };
            return Ok(IncomingAction::Write(Reply::Cancel(cancel)));
        }
        if answer.automatic_receive && self.paired {
            return match manager.set_receive_policy(self.sender_id.as_str(), true, trust) {
                Ok(items) => {
                    self.stage = IncomingStage::Policy;
                    Ok(IncomingAction::SavePolicies(items))
                },
                Err(error) => Err(error),
            };
        }
        self.stage = IncomingStage::Space;
        Ok(IncomingAction::MeasureSpace)
    }

    fn take_space(
        &mut self,
        manager: &mut TransferManager,
        router: &mut SessionRouter,
        available: Result<u64, TransferError>,
        tickets: &Vec<Vec<u8>>,
        now_ms: i64,
    ) -> (result: Result<IncomingAction, TransferError>)
        requires
            old(manager).wf(),
            tickets@.len() == old(self)@.offer.files.len(),
        ensures
            final(manager).wf(),
            ({
                let progress = old(self)@.on_space(
                    old(manager)@,
                    old(router)@,
                    modeled(available),
                    ticket_bytes(tickets@),
                    now_ms,
                );
                &&& final(self)@ == progress.transfer
                &&& final(manager)@ == progress.manager
                &&& final(router)@ == progress.routes
                &&& is_outcome(result, progress.outcome)
            }),
    {
        let room = match available {
            Ok(available) => ensure_receive_capacity(available, self.offer.total_bytes),
            Err(error) => Err(error),
        };
        match room {
            Err(error) => {
                let message = error.message();
                let cancel = refuse_offer(
                    self.offer.request_id,
                    self.offer.transfer_id,
                    ErrorCode::ResourceExhausted,
                    message.as_str(),
                );
                self.stage = IncomingStage::Full;
                self.note = message;
                return Ok(IncomingAction::Write(Reply::Cancel(cancel)));
            },
            Ok(()) => {},
        }
        if !self.automatic {
            match manager.transition(self.local_id.as_str(), TransferStatus::Connecting, now_ms) {
                Ok(()) => {},
                Err(error) => {
                    return Err(error);
                },
            }
        }
        let (grants, held) = issue_grants_with(&self.offer.files, tickets, now_ms);
        match router.register(self.offer.transfer_id) {
            Ok(()) => {},
            Err(error) => {
                return Err(error);
            },
        }
        self.routed = true;
        self.grants = Some(held);
        self.stage = IncomingStage::Accepting;
        let accept = accept_offer(self.offer.request_id, self.offer.transfer_id, grants);
        Ok(IncomingAction::Write(Reply::Accept(accept)))
    }

    fn take_written(
        &mut self,
        manager: &mut TransferManager,
        now_ms: i64,
        routes: Ghost<Map<u64, usize>>,
    ) -> (result: Result<IncomingAction, TransferError>)
        requires
            old(manager).wf(),
        ensures
            final(manager).wf(),
            ({
                let progress = old(self)@.on_written(old(manager)@, routes@, now_ms);
                &&& final(self)@ == progress.transfer
                &&& final(manager)@ == progress.manager
                &&& is_outcome(result, progress.outcome)
            }),
    {
        match self.stage {
            IncomingStage::Refusing(status) => {
                match manager.transition(self.local_id.as_str(), status, now_ms) {
                    Ok(()) => {},
                    Err(error) => {
                        return Err(error);
                    },
                }
                manager.remove_job(self.local_id.as_str());
                self.stage = IncomingStage::Ended;
                Ok(IncomingAction::Done)
            },
            IncomingStage::Full => {
                manager.fail_transfer(self.local_id.as_str(), self.note.as_str(), now_ms);
                manager.remove_job(self.local_id.as_str());
                self.stage = IncomingStage::Ended;
                Ok(IncomingAction::Done)
            },
            IncomingStage::Accepting => {
                match manager.transition(
                    self.local_id.as_str(),
                    TransferStatus::Transferring,
                    now_ms,
                ) {
                    Ok(()) => {},
                    Err(error) => {
                        return Err(error);
                    },
                }
                let mut held: Option<FileGrants> = None;
                std::mem::swap(&mut held, &mut self.grants);
                let grants = match held {
                    Some(grants) => grants,
                    None => FileGrants::new(),
                };
                self.stage = IncomingStage::Receiving;
                let schedule = ReceiveSchedule::new(
                    self.offer.transfer_id,
                    &self.offer.files,
                    grants,
                );
                Ok(IncomingAction::ReceiveFiles(schedule))
            },
            _ => {
                self.stage = IncomingStage::Ended;
                Ok(IncomingAction::Done)
            },
        }
    }

    fn take_received(
        &mut self,
        manager: &mut TransferManager,
        now_ms: i64,
        routes: Ghost<Map<u64, usize>>,
    ) -> (result: Result<IncomingAction, TransferError>)
        requires
            old(manager).wf(),
        ensures
            final(manager).wf(),
            ({
                let progress = old(self)@.on_received(old(manager)@, routes@, now_ms);
                &&& final(self)@ == progress.transfer
                &&& final(manager)@ == progress.manager
                &&& is_outcome(result, progress.outcome)
            }),
    {
        match manager.transition(self.local_id.as_str(), TransferStatus::Completed, now_ms) {
            Ok(()) => {},
            Err(error) => {
                return Err(error);
            },
        }
        self.stage = IncomingStage::Completing;
        let progress = report_completion(self.offer.transfer_id, self.offer.total_bytes);
        Ok(IncomingAction::Write(Reply::Progress(progress)))
    }

    /// Takes in what happened, with the tickets for the authorizations, and
    /// says what is to be done.
    pub fn step_with(
        &mut self,
        manager: &mut TransferManager,
        router: &mut SessionRouter,
        event: IncomingEvent,
        tickets: &Vec<Vec<u8>>,
        now_ms: i64,
    ) -> (result: Result<IncomingAction, TransferError>)
        requires
            old(manager).wf(),
            old(self)@.awaits(event@),
            event matches IncomingEvent::Offered { caller, .. } ==> base64_fits(
                caller.public_key@.len(),
            ),
            event is Space ==> tickets@.len() == old(self)@.offer.files.len(),
        ensures
            final(manager).wf(),
            ({
                let progress = old(self)@.stepped(
                    old(manager)@,
                    old(router)@,
                    event@,
                    ticket_bytes(tickets@),
                    now_ms,
                );
                &&& final(self)@ == progress.transfer
                &&& final(manager)@ == progress.manager
                &&& final(router)@ == progress.routes
                &&& is_outcome(result, progress.outcome)
            }),
    {
        let ghost routes = router@;
        match event {
            IncomingEvent::Offered { offer, caller, trust } => self.take_offer(
                manager,
                offer,
                &caller,
                &trust,
                now_ms,
                Ghost(routes),
            ),
            IncomingEvent::Decided { decision, trust } => self.take_decision(
                manager,
                decision,
                &trust,
                Ghost(routes),
            ),
            IncomingEvent::PoliciesSaved => {
                let _ = manager.show_receive_policy(self.sender_id.as_str(), true);
                self.stage = IncomingStage::Space;
                Ok(IncomingAction::MeasureSpace)
            },
            IncomingEvent::Space(available) => self.take_space(
                manager,
                router,
                available,
                tickets,
                now_ms,
            ),
            IncomingEvent::Written => self.take_written(manager, now_ms, Ghost(routes)),
            IncomingEvent::Received(_) => self.take_received(manager, now_ms, Ghost(routes)),
        }
    }

    /// Takes in what happened, and says what is to be done. The tickets for
    /// the authorizations are drawn anew.
    pub fn step(
        &mut self,
        manager: &mut TransferManager,
        router: &mut SessionRouter,
        event: IncomingEvent,
        now_ms: i64,
    ) -> (result: Result<IncomingAction, TransferError>)
        requires
            old(manager).wf(),
            old(self)@.awaits(event@),
            event matches IncomingEvent::Offered { caller, .. } ==> base64_fits(
                caller.public_key@.len(),
            ),
        ensures
            final(manager).wf(),
            exists|tickets: Seq<Seq<u8>>|
                {
                    let progress = #[trigger] old(self)@.stepped(
                        old(manager)@,
                        old(router)@,
                        event@,
                        tickets,
                        now_ms,
                    );
                    &&& tickets.len() == old(self)@.offer.files.len()
                    &&& forall|place: int|
                        0 <= place < tickets.len() ==> (#[trigger] tickets[place]).len()
                            == TICKET_BYTES
                    &&& final(self)@ == progress.transfer
                    &&& final(manager)@ == progress.manager
                    &&& final(router)@ == progress.routes
                    &&& is_outcome(result, progress.outcome)
                },
    {
        let tickets = draw_tickets(self.offer.files.len());
        self.step_with(manager, router, event, &tickets, now_ms)
    }

    /// Ends the transfer, however far it has come, and says with which code its
    /// stream is closed, if it is.
    pub fn end(
        &mut self,
        manager: &mut TransferManager,
        router: &mut SessionRouter,
        result: &Result<(), TransferError>,
        now_ms: i64,
    ) -> (code: Option<u32>)
        requires
            old(manager).wf(),
        ensures
            final(manager).wf(),
            final(self)@ == (IncomingModel { routed: false, ..old(self)@ }),
            final(router)@ == (if old(self)@.routed {
                old(router)@.remove(old(self)@.offer.transfer_id)
            } else {
                old(router)@
            }),
            final(manager)@ == (ManagerModel {
                pending: old(manager)@.pending.remove(old(self)@.local_id),
                ..old(manager)@
            }).ended(old(self)@.local_id, crate::error::outcome(*result), now_ms),
            code == (match crate::error::outcome(*result) {
                Ok(_) => None,
                Err(error) => Some(close_code(error)),
            }),
    {
        if self.routed {
            router.unregister(self.offer.transfer_id);
            self.routed = false;
        }
        manager.remove_decision(self.local_id.as_str());
        manager.finish_job(self.local_id.as_str(), result, now_ms);
        match result {
            Ok(_) => None,
            Err(error) => Some(stream_close_code(error)),
        }
    }
}

/// An offer is taken without asking only where its sender is paired under its
/// key and has leave to send so.
pub proof fn unasked_consent_needs_pairing(
    transfer: IncomingModel,
    manager: ManagerModel,
    routes: Map<u64, usize>,
    offer: Option<OfferModel>,
    caller: ObservedModel,
    trust: TrustModel,
    now_ms: i64,
)
    ensures
        transfer.on_offer(manager, routes, offer, caller, trust, now_ms).outcome == Ok::<
            _,
            ErrorModel,
        >(IncomingActionModel::MeasureSpace) ==> trust.paired(Some(caller.public_key)) == Ok::<
            _,
            ErrorModel,
        >(true) && super::policies::policy_of(manager.policies, caller.id)
            == ReceivePolicy::Automatic,
{
}

/// Consent is given only where there is room for all files, and a transfer
/// comes as far as that only by a person's consent or by that of the policy.
pub proof fn consent_needs_room_and_a_decision(
    transfer: IncomingModel,
    manager: ManagerModel,
    routes: Map<u64, usize>,
    event: IncomingEventModel,
    tickets: Seq<Seq<u8>>,
    now_ms: i64,
)
    requires
        transfer.awaits(event),
    ensures
        ({
            let progress = transfer.stepped(manager, routes, event, tickets, now_ms);
            &&& progress.outcome matches Ok(
                IncomingActionModel::Write(ReplyModel::Accept(_)),
            ) ==> transfer.stage == IncomingStage::Space && (event matches IncomingEventModel::Space(
                Ok(available),
            ) && capacity(available, transfer.offer.total_bytes) is Ok)
            &&& progress.transfer.stage == IncomingStage::Space && transfer.stage
                != IncomingStage::Space ==> match event {
                IncomingEventModel::Offered { .. } => progress.transfer.automatic,
                IncomingEventModel::Decided { decision, .. } => effective_decision(decision).accept,
                _ => transfer.stage == IncomingStage::Policy,
            }
            &&& progress.transfer.stage == IncomingStage::Policy && transfer.stage
                != IncomingStage::Policy ==> (event matches IncomingEventModel::Decided {
                decision,
                ..
            } && effective_decision(decision).accept)
        }),
{
}

/// A transfer is completed only when every file that was offered has been
/// received, and just once.
pub proof fn completion_needs_every_file(
    transfer: IncomingModel,
    schedule: ReceiveScheduleModel,
)
    requires
        transfer.awaits(IncomingEventModel::Received(schedule)),
        forall|left: int, right: int|
            0 <= left < right < transfer.offer.files.len() ==> (
            #[trigger] transfer.offer.files[left]).file_id != (
            #[trigger] transfer.offer.files[right]).file_id,
    ensures
        schedule.received.no_duplicates(),
        forall|place: int|
            0 <= place < transfer.offer.files.len() ==> schedule.received.contains(
                (#[trigger] transfer.offer.files[place]).file_id,
            ),
{
    crate::infrastructure::schedule::finished_schedule_received_every_file(schedule);
}

/// Whether a transfer stands where its course is: a refusal that is written
/// ends it, and it is over in the list where nothing but its last word is left.
pub open spec fn settling(transfer: IncomingModel, manager: ManagerModel) -> bool {
    match transfer.stage {
        IncomingStage::Refusing(status) => status.over(),
        IncomingStage::Completing | IncomingStage::Ended => super::manager::over_in(
            manager.state.transfers,
            transfer.local_id,
        ),
        _ => true,
    }
}

/// A transfer whose course has ended well is over in the list: each step keeps
/// it so that it is over once nothing but its last word is left, and the end of
/// its job changes nothing of that.
pub proof fn ended_course_is_over_in_the_list(
    transfer: IncomingModel,
    manager: ManagerModel,
    routes: Map<u64, usize>,
    event: IncomingEventModel,
    tickets: Seq<Seq<u8>>,
    now_ms: i64,
)
    requires
        transfer.awaits(event),
        settling(transfer, manager),
        forall|left: int, right: int|
            0 <= left < right < manager.state.transfers.len() ==> !((
            #[trigger] manager.state.transfers[left]).id == transfer.local_id && (
            #[trigger] manager.state.transfers[right]).id == transfer.local_id),
    ensures
        ({
            let progress = transfer.stepped(manager, routes, event, tickets, now_ms);
            &&& progress.outcome is Ok ==> settling(progress.transfer, progress.manager)
            &&& progress.outcome == Ok::<_, ErrorModel>(IncomingActionModel::Done) ==> super::manager::over_in(
                progress.manager.ended(transfer.local_id, Ok(()), now_ms).state.transfers,
                transfer.local_id,
            )
        }),
{
    let id = transfer.local_id;
    let silenced = manager.silenced(id);
    match event {
        IncomingEventModel::Received(_) => {
            super::manager::changed_transfer_is_over(
                silenced,
                id,
                |given: TransferModel| given.transitioned(TransferStatus::Completed, now_ms),
            );
        },
        IncomingEventModel::Written => {
            match transfer.stage {
                IncomingStage::Refusing(status) => {
                    super::manager::changed_transfer_is_over(
                        silenced,
                        id,
                        |given: TransferModel| given.transitioned(status, now_ms),
                    );
                },
                IncomingStage::Full => {
                    super::manager::changed_transfer_is_over(
                        silenced,
                        id,
                        |given: TransferModel|
                            Ok(super::manager::failed_for(given, transfer.note, now_ms)),
                    );
                },
                _ => {},
            }
        },
        _ => {},
    }
}

/// A refused offer is answered with a refusal, which says whether the receiver
/// has cancelled; and when it has been written the transfer is over.
pub proof fn refusal_is_answered(
    transfer: IncomingModel,
    manager: ManagerModel,
    routes: Map<u64, usize>,
    decision: Option<ReceiveDecision>,
    trust: TrustModel,
    now_ms: i64,
)
    requires
        !effective_decision(decision).accept,
    ensures
        ({
            let refused = transfer.on_decision(manager, routes, decision, trust);
            let status = if effective_decision(decision).cancelled {
                TransferStatus::Cancelled
            } else {
                TransferStatus::Rejected
            };
            &&& refused.outcome matches Ok(
                IncomingActionModel::Write(ReplyModel::Cancel(cancel)),
            ) && {
                &&& cancel.request_id == transfer.offer.request_id
                &&& cancel.transfer_id == transfer.offer.transfer_id
                &&& crate::infrastructure::messages::says_cancelled(cancel)
                    == effective_decision(decision).cancelled
            }
            &&& refused.transfer.stage == IncomingStage::Refusing(status)
            &&& refused.transfer.on_written(refused.manager, routes, now_ms).outcome matches Ok(action)
                ==> {
                let moved = manager.transitioned(transfer.local_id, status, now_ms).0;
                &&& action == IncomingActionModel::Done
                &&& refused.transfer.on_written(refused.manager, routes, now_ms).manager == (
                ManagerModel { jobs: moved.jobs.remove(transfer.local_id), ..moved })
            }
        }),
{
}

/// What [`first_preview`] finds, and what it means that it finds nothing.
pub proof fn first_preview_is_first(previews: Seq<PreviewModel>, file_id: u64)
    ensures
        match first_preview(previews, file_id) {
            Some(place) => {
                &&& 0 <= place < previews.len()
                &&& previews[place].file_id == file_id
                &&& forall|earlier: int|
                    0 <= earlier < place ==> (#[trigger] previews[earlier]).file_id != file_id
            },
            None => forall|place: int|
                0 <= place < previews.len() ==> (#[trigger] previews[place]).file_id != file_id,
        },
    decreases previews.len(),
{
    if previews.len() > 0 {
        let shorter = previews.drop_last();
        first_preview_is_first(shorter, file_id);
        assert forall|place: int| 0 <= place < shorter.len() implies shorter[place]
            == #[trigger] previews[place] by {}
    }
}

/// Each file of an offer is shown under its number, path, size and media type,
/// under the name at the end of its path, as not yet received, and with its own
/// preview where it has one.
pub proof fn offered_files_are_shown_as_offered(offer: OfferModel, place: int)
    requires
        0 <= place < offer.files.len(),
    ensures
        incoming_files(offer).len() == offer.files.len(),
        ({
            let shown = incoming_files(offer)[place];
            let file = offer.files[place];
            &&& shown.id == file.file_id
            &&& shown.relative_path == file.relative_path
            &&& shown.size == file.size
            &&& shown.media_type == file.media_type
            &&& shown.completed_bytes == 0
            &&& shown.local_path is None
            &&& shown.receive_directory is None
            &&& file_name_of(file.relative_path) matches Some(name) ==> shown.name == name
            &&& file_name_of(file.relative_path) is None ==> shown.name == file.relative_path
            &&& shown.kind == kind_of_extension(path_extension(file.relative_path))
            &&& forall|preview: int|
                {
                    &&& 0 <= preview < offer.previews.len()
                    &&& (#[trigger] offer.previews[preview]).file_id == file.file_id
                    &&& forall|other: int|
                        0 <= other < offer.previews.len() && other != preview ==> (
                        #[trigger] offer.previews[other]).file_id != file.file_id
                } ==> shown.thumbnail_data_url == data_url(
                    offer.previews[preview].media_type,
                    offer.previews[preview].data,
                )
            &&& (forall|preview: int|
                0 <= preview < offer.previews.len() ==> (#[trigger] offer.previews[preview]).file_id
                    != file.file_id) ==> shown.thumbnail_data_url is None
        }),
{
    first_preview_is_first(offer.previews, offer.files[place].file_id);
    if let Some(found) = first_preview(offer.previews, offer.files[place].file_id) {
        assert(offer.previews[found].file_id == offer.files[place].file_id);
    }
}

/// A good offer is listed in front as a transfer from its sender, with its
/// number, its total and its files. Where the sender is paired and may always
/// send, its room is measured at once; everywhere else the transfer waits for a
/// person, and is listed as doing so.
pub proof fn a_good_offer_is_listed(
    transfer: IncomingModel,
    manager: ManagerModel,
    routes: Map<u64, usize>,
    offer: OfferModel,
    caller: ObservedModel,
    paired: bool,
    now_ms: i64,
)
    ensures
        ({
            let progress = transfer.on_good_offer(manager, routes, offer, caller, paired, now_ms);
            let unasked = paired && super::policies::policy_of(manager.policies, caller.id)
                == ReceivePolicy::Automatic;
            let shown = progress.manager.state.transfers[0];
            &&& progress.manager.state.transfers.len() > 0
            &&& shown.id == transfer.local_id
            &&& shown.wire_id == offer.transfer_id
            &&& shown.peer_id == caller.id
            &&& shown.peer_name == caller.name
            &&& shown.direction == TransferDirection::Receiving
            &&& shown.files == incoming_files(offer)
            &&& shown.total_bytes == offer.total_bytes
            &&& shown.completed_bytes == 0
            &&& shown.error_message is None
            &&& shown.created_at_ms == now_ms
            &&& shown.updated_at_ms == now_ms
            &&& progress.transfer.offer == offer
            &&& progress.transfer.sender_id == caller.id
            &&& progress.transfer.local_id == transfer.local_id
            &&& progress.transfer.paired == paired
            &&& progress.transfer.automatic == unasked
            &&& progress.routes == routes
            &&& unasked ==> {
                &&& shown.status == TransferStatus::Connecting
                &&& progress.transfer.stage == IncomingStage::Space
                &&& progress.outcome == Ok::<_, ErrorModel>(IncomingActionModel::MeasureSpace)
                &&& progress.manager.pending == manager.pending
            }
            &&& !unasked ==> {
                &&& shown.status == TransferStatus::AwaitingApproval
                &&& progress.transfer.stage == IncomingStage::Decision
                &&& progress.outcome == Ok::<_, ErrorModel>(IncomingActionModel::AwaitDecision)
                &&& progress.manager.pending.contains_key(transfer.local_id)
            }
        }),
{
    let automatic = manager.automatic(caller.id, paired);
    let waiting = if automatic {
        manager
    } else {
        ManagerModel { pending: manager.pending.insert(transfer.local_id, ()), ..manager }
    };
    super::manager::laws::new_transfer_comes_first(
        waiting,
        incoming_transfer(transfer.local_id, offer, caller, automatic, now_ms),
    );
}

/// An offer is taken up exactly where it is there, is a good one, and the
/// network can say whether its sender is paired; otherwise the transfer does not
/// get beyond waiting for one.
pub proof fn an_offer_is_taken_up_unless_it_is_bad(
    transfer: IncomingModel,
    manager: ManagerModel,
    routes: Map<u64, usize>,
    offer: Option<OfferModel>,
    caller: ObservedModel,
    trust: TrustModel,
    now_ms: i64,
)
    requires
        caller.id != manager.device_id(),
    ensures
        ({
            let progress = transfer.on_offer(manager, routes, offer, caller, trust, now_ms);
            &&& progress.outcome is Ok <==> {
                &&& offer matches Some(offer) && examined(offer, path_keys(offer.files)) is Ok
                &&& trust.paired(Some(caller.public_key)) is Ok
            }
            &&& progress.outcome is Err ==> progress.transfer == transfer
                && progress.manager.state.transfers == manager.state.transfers
            &&& progress.outcome is Ok ==> offer == Some(progress.transfer.offer) && trust.paired(
                Some(caller.public_key),
            ) == Ok::<_, ErrorModel>(progress.transfer.paired)
        }),
{
    super::manager::peers::every_caller_is_listed(
        manager,
        caller,
        base64_text(caller.public_key),
        trust,
        now_ms,
    );
}

/// What a decision does: nobody's answer is a refusal; consent goes on to the
/// room for the files; and consent for ever is remembered first, for that
/// sender, where the sender is paired. A refusal names the request and the
/// transfer.
pub proof fn a_decision_is_carried_out(
    transfer: IncomingModel,
    manager: ManagerModel,
    routes: Map<u64, usize>,
    decision: ReceiveDecision,
    trust: TrustModel,
)
    ensures
        !effective_decision(None).accept && !effective_decision(None).cancelled
            && !effective_decision(None).automatic_receive,
        ({
            let progress = transfer.on_decision(manager, routes, Some(decision), trust);
            &&& progress.routes == routes
            &&& progress.transfer.offer == transfer.offer
            &&& decision.accept && !(decision.automatic_receive && transfer.paired) ==> {
                &&& progress.transfer.stage == IncomingStage::Space
                &&& progress.outcome == Ok::<_, ErrorModel>(IncomingActionModel::MeasureSpace)
                &&& progress.manager == manager
            }
            &&& decision.accept && decision.automatic_receive && transfer.paired && trust.paired(
                None,
            ) == Ok::<_, ErrorModel>(true) ==> {
                &&& progress.transfer.stage == IncomingStage::Policy
                &&& super::policies::policy_of(progress.manager.policies, transfer.sender_id)
                    == ReceivePolicy::Automatic
                &&& forall|other: Seq<char>|
                    other != transfer.sender_id ==> #[trigger] super::policies::policy_of(
                        progress.manager.policies,
                        other,
                    ) == super::policies::policy_of(manager.policies, other)
                &&& progress.outcome == Ok::<_, ErrorModel>(
                    IncomingActionModel::SavePolicies(progress.manager.policies),
                )
            }
            &&& decision.accept && decision.automatic_receive && transfer.paired && trust.paired(
                None,
            ) != Ok::<_, ErrorModel>(true) ==> progress.outcome is Err && progress.manager
                == manager
            &&& !decision.accept ==> progress.manager == manager && (progress.outcome matches Ok(
                IncomingActionModel::Write(ReplyModel::Cancel(cancel)),
            ) && cancel.request_id == transfer.offer.request_id && cancel.transfer_id
                == transfer.offer.transfer_id) && progress.transfer.stage == (
            IncomingStage::Refusing(
                if decision.cancelled {
                    TransferStatus::Cancelled
                } else {
                    TransferStatus::Rejected
                },
            ))
        }),
{
}

/// Where there is room for the files, the sender gets a consent that answers its
/// request, with an authorization for each file, and a route is opened for them.
/// Where there is none, it gets a refusal that says so, and nothing is opened.
pub proof fn room_decides_on_the_consent(
    transfer: IncomingModel,
    manager: ManagerModel,
    routes: Map<u64, usize>,
    available: u64,
    tickets: Seq<Seq<u8>>,
    now_ms: i64,
    place: int,
)
    requires
        0 <= place < manager.state.transfers.len(),
        manager.state.transfers[place].id == transfer.local_id,
        forall|earlier: int|
            0 <= earlier < place ==> (#[trigger] manager.state.transfers[earlier]).id
                != transfer.local_id,
        crate::application::history::over_count(manager.state.transfers) < 200,
        manager.state.transfers[place].status == (if transfer.automatic {
            TransferStatus::Connecting
        } else {
            TransferStatus::AwaitingApproval
        }),
        !routes.contains_key(transfer.offer.transfer_id),
        tickets.len() == transfer.offer.files.len(),
    ensures
        ({
            let progress = transfer.on_space(manager, routes, Ok(available), tickets, now_ms);
            &&& capacity(available, transfer.offer.total_bytes) is Ok ==> {
                &&& progress.outcome matches Ok(
                    IncomingActionModel::Write(ReplyModel::Accept(accept)),
                ) && accept.request_id == transfer.offer.request_id && accept.transfer_id
                    == transfer.offer.transfer_id && accept.chunk_size == 256 * 1024
                    && accept.grants == issued(transfer.offer.files, tickets, now_ms)
                &&& progress.transfer.stage == IncomingStage::Accepting
                &&& progress.transfer.grants == Some(kept(transfer.offer.files, tickets, now_ms))
                &&& progress.transfer.routed
                &&& progress.routes == routes.insert(transfer.offer.transfer_id, 0usize)
                &&& progress.manager.state.transfers[place].status == TransferStatus::Connecting
                &&& progress.transfer.offer == transfer.offer
            }
            &&& capacity(available, transfer.offer.total_bytes) matches Err(error) ==> {
                &&& progress.outcome matches Ok(
                    IncomingActionModel::Write(ReplyModel::Cancel(cancel)),
                ) && cancel.request_id == transfer.offer.request_id && cancel.transfer_id
                    == transfer.offer.transfer_id && !crate::infrastructure::messages::says_cancelled(
                    cancel,
                )
                &&& progress.transfer.stage == IncomingStage::Full
                &&& progress.transfer.note == error.message()
                &&& progress.routes == routes
                &&& progress.manager == manager
            }
        }),
{
    super::manager::laws::a_status_that_may_follow_is_shown(
        manager,
        transfer.local_id,
        TransferStatus::Connecting,
        now_ms,
        place,
    );
}

/// Once the consent is written the transfer is listed as moving files, and the
/// files of the offer are received, each against the authorization that was
/// given for it; once they are received it is listed as completed, and the
/// sender is told that all of its bytes have come.
pub proof fn consent_leads_to_completion(
    transfer: IncomingModel,
    manager: ManagerModel,
    routes: Map<u64, usize>,
    now_ms: i64,
    place: int,
)
    requires
        0 <= place < manager.state.transfers.len(),
        manager.state.transfers[place].id == transfer.local_id,
        forall|earlier: int|
            0 <= earlier < place ==> (#[trigger] manager.state.transfers[earlier]).id
                != transfer.local_id,
        crate::application::history::over_count(manager.state.transfers) < 200,
    ensures
        transfer.stage == IncomingStage::Accepting && manager.state.transfers[place].status
            == TransferStatus::Connecting ==> {
            let progress = transfer.on_written(manager, routes, now_ms);
            &&& progress.outcome matches Ok(IncomingActionModel::ReceiveFiles(schedule)) && {
                &&& schedule.transfer_id == transfer.offer.transfer_id
                &&& schedule.files == transfer.offer.files
                &&& schedule.received.len() == 0
                &&& schedule.running == 0
                &&& transfer.grants matches Some(grants) ==> schedule.grants == grants
            }
            &&& progress.transfer.stage == IncomingStage::Receiving
            &&& progress.transfer.offer == transfer.offer
            &&& progress.manager.state.transfers[place].status == TransferStatus::Transferring
            &&& progress.manager.state.transfers[place].files
                == manager.state.transfers[place].files
        },
        transfer.stage == IncomingStage::Receiving && manager.state.transfers[place].status
            == TransferStatus::Transferring ==> {
            let progress = transfer.on_received(manager, routes, now_ms);
            &&& progress.outcome matches Ok(
                IncomingActionModel::Write(ReplyModel::Progress(told)),
            ) && told.transfer_id == transfer.offer.transfer_id && told.completed_bytes
                == transfer.offer.total_bytes
            &&& progress.transfer.stage == IncomingStage::Completing
            &&& progress.manager.state.transfers[place].status == TransferStatus::Completed
            &&& progress.manager.state.transfers[place].files
                == manager.state.transfers[place].files
        },
        transfer.stage == IncomingStage::Completing ==> transfer.on_written(
            manager,
            routes,
            now_ms,
        ).outcome == Ok::<_, ErrorModel>(IncomingActionModel::Done),
        transfer.stage == IncomingStage::Full && !manager.state.transfers[place].status.over()
            ==> {
            let progress = transfer.on_written(manager, routes, now_ms);
            &&& progress.manager.state.transfers[place].status == TransferStatus::Failed
            &&& progress.manager.state.transfers[place].error_message == Some(transfer.note)
            &&& !progress.manager.jobs.contains_key(transfer.local_id)
        },
{
    super::manager::laws::a_status_that_may_follow_is_shown(
        manager,
        transfer.local_id,
        TransferStatus::Transferring,
        now_ms,
        place,
    );
    super::manager::laws::a_status_that_may_follow_is_shown(
        manager,
        transfer.local_id,
        TransferStatus::Completed,
        now_ms,
        place,
    );
    super::manager::laws::failure_is_noted(
        manager,
        transfer.local_id,
        transfer.note,
        now_ms,
        place,
    );
}

/// Once the policies are saved, the sender is shown as one to receive from
/// silently, nothing else that is listed changes, and the transfer goes on with
/// measuring the space.
pub proof fn saved_policies_are_shown(
    transfer: IncomingModel,
    manager: ManagerModel,
    routes: Map<u64, usize>,
    tickets: Seq<Seq<u8>>,
    now_ms: i64,
    place: int,
)
    requires
        0 <= place < manager.state.peers.len(),
        manager.state.peers[place].id == transfer.sender_id,
        forall|other: int|
            0 <= other < manager.state.peers.len() && other != place ==> (
            #[trigger] manager.state.peers[other]).id != transfer.sender_id,
    ensures
        ({
            let after = transfer.stepped(
                manager,
                routes,
                IncomingEventModel::PoliciesSaved,
                tickets,
                now_ms,
            );
            let peers = after.manager.state.peers;
            &&& after.outcome == Ok::<_, ErrorModel>(IncomingActionModel::MeasureSpace)
            &&& after.transfer.stage == IncomingStage::Space
            &&& after.transfer.offer == transfer.offer
            &&& after.transfer.local_id == transfer.local_id
            &&& after.routes == routes
            &&& after.manager.state.transfers == manager.state.transfers
            &&& after.manager.policies == manager.policies
            &&& peers.len() == manager.state.peers.len()
            &&& peers[place].automatic_receive
            &&& (PeerModel {
                automatic_receive: manager.state.peers[place].automatic_receive,
                ..peers[place]
            }) == manager.state.peers[place]
            &&& forall|other: int|
                0 <= other < peers.len() && other != place ==> #[trigger] peers[other]
                    == manager.state.peers[other]
        }),
{
    super::manager::peers::first_peer_is_first(manager.state.peers, transfer.sender_id);
}

} // verus!

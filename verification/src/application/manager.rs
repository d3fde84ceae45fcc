//! The service as a whole: what it knows, and how each request and each
//! observation changes it.

pub mod discovery;
pub mod events;
pub mod laws;
pub mod peers;
pub mod sending;

use super::config::{ConfigModel, TransferConfig};
use super::control::{JobControl, ReceiveDecision};
use super::history::{persistent_history, prune_transfer_history, restore_history};
use super::policies::{ReceivePolicies, StoredReceivePolicy};
use crate::domain::transfer::{
    peer_models, transfer_models, FileModel, ProgressModel, SnapshotModel, TransferModel,
};
use crate::domain::{
    NearbyPeer, ReceivePolicy, TransferFileProgress, TransferProgress, TransferSnapshot,
    TransferStatus, TransferView,
};
use crate::error::{ErrorModel, TransferError};
use crate::infrastructure::encoding::{encode_hex, encode_key};
use crate::table::TextTable;
use crate::text::same_text;
use vstd::prelude::*;
use vstd::string::*;

verus! {

/// How many transfers run at once, in either direction.
pub const MAX_RUNNING_JOBS: usize = 16;

/// The least number of milliseconds between two progress events of a transfer.
pub const PROGRESS_INTERVAL_MS: u64 = 100;

/// What there is to tell about the progress of one transfer.
#[derive(Debug, PartialEq, Eq)]
pub struct ProgressEmission {
    /// When progress was last told, on the clock that never goes back.
    pub last: Option<u64>,
    /// The files that have moved since.
    pub dirty: Vec<TransferFileProgress>,
}

/// The mathematical value of a [`ProgressEmission`].
pub struct EmissionModel {
    pub last: Option<u64>,
    pub dirty: Seq<TransferFileProgress>,
}

impl View for ProgressEmission {
    type V = EmissionModel;

    open spec fn view(&self) -> EmissionModel {
        EmissionModel { last: self.last, dirty: self.dirty@ }
    }
}

/// Who this device is on the network.
#[derive(Debug, PartialEq, Eq)]
pub struct DeviceIdentity {
    pub device_id: String,
    pub public_key: Vec<u8>,
    pub certificate_sha256: Vec<u8>,
}

/// The mathematical value of a [`DeviceIdentity`].
pub struct IdentityModel {
    pub device_id: Seq<char>,
    pub public_key: Seq<u8>,
    pub certificate_sha256: Seq<u8>,
}

impl View for DeviceIdentity {
    type V = IdentityModel;

    open spec fn view(&self) -> IdentityModel {
        IdentityModel {
            device_id: self.device_id@,
            public_key: self.public_key@,
            certificate_sha256: self.certificate_sha256@,
        }
    }
}

/// The service: its setup, what it shows, the jobs that run and the questions
/// that are open.
pub struct TransferManager {
    config: TransferConfig,
    state: TransferSnapshot,
    last_full_revision: u64,
    emissions: TextTable<ProgressEmission>,
    pending_decisions: TextTable<()>,
    jobs: TextTable<JobControl>,
    policies: ReceivePolicies,
    identity: Option<DeviceIdentity>,
    started: bool,
    stopping: bool,
    running: usize,
    history: Option<Vec<TransferView>>,
}

/// The mathematical value of a [`TransferManager`].
pub struct ManagerModel {
    pub config: ConfigModel,
    /// What is shown.
    pub state: SnapshotModel,
    /// The revision of what was last shown in full.
    pub base_revision: u64,
    /// What there is to tell of the progress of each transfer.
    pub emissions: Map<Seq<char>, EmissionModel>,
    /// The incoming transfers that wait for a decision.
    pub pending: Map<Seq<char>, ()>,
    /// The switches of the transfers that run.
    pub jobs: Map<Seq<char>, JobControl>,
    pub policies: Map<Seq<char>, ReceivePolicy>,
    pub identity: Option<IdentityModel>,
    pub started: bool,
    pub stopping: bool,
    /// How many jobs run.
    pub running: usize,
    /// The history that waits to be written down.
    pub history: Option<Seq<TransferModel>>,
}

impl View for TransferManager {
    type V = ManagerModel;

    closed spec fn view(&self) -> ManagerModel {
        ManagerModel {
            config: self.config@,
            state: self.state@,
            base_revision: self.last_full_revision,
            emissions: self.emissions@.map_values(|emission: ProgressEmission| emission@),
            pending: self.pending_decisions@,
            jobs: self.jobs@,
            policies: self.policies@,
            identity: match self.identity {
                Some(identity) => Some(identity@),
                None => None,
            },
            started: self.started,
            stopping: self.stopping,
            running: self.running,
            history: match self.history {
                Some(transfers) => Some(transfer_models(transfers@)),
                None => None,
            },
        }
    }
}

/// The place of the first transfer with that identifier.
pub open spec fn first_transfer(transfers: Seq<TransferModel>, id: Seq<char>) -> Option<int>
    decreases transfers.len(),
{
    if transfers.len() == 0 {
        None
    } else {
        match first_transfer(transfers.drop_last(), id) {
            Some(place) => Some(place),
            None => if transfers.last().id == id {
                Some(transfers.len() - 1)
            } else {
                None
            },
        }
    }
}

/// What [`first_transfer`] finds, and what it means that it finds nothing.
pub proof fn first_transfer_is_first(transfers: Seq<TransferModel>, id: Seq<char>)
    ensures
        match first_transfer(transfers, id) {
            Some(place) => {
                &&& 0 <= place < transfers.len()
                &&& transfers[place].id == id
                &&& forall|earlier: int|
                    0 <= earlier < place ==> (#[trigger] transfers[earlier]).id != id
            },
            None => forall|place: int|
                0 <= place < transfers.len() ==> (#[trigger] transfers[place]).id != id,
        },
    decreases transfers.len(),
{
    if transfers.len() > 0 {
        let shorter = transfers.drop_last();
        first_transfer_is_first(shorter, id);
        assert forall|place: int| 0 <= place < shorter.len() implies shorter[place]
            == #[trigger] transfers[place] by {}
    }
}

proof fn first_transfer_extends(transfers: Seq<TransferModel>, id: Seq<char>, length: int)
    requires
        0 <= length <= transfers.len(),
        first_transfer(transfers.take(length), id) is Some,
    ensures
        first_transfer(transfers, id) == first_transfer(transfers.take(length), id),
    decreases transfers.len(),
{
    if length == transfers.len() {
        assert(transfers.take(length) =~= transfers);
    } else {
        assert(transfers.drop_last().take(length) =~= transfers.take(length));
        first_transfer_extends(transfers.drop_last(), id, length);
    }
}

/// One more than a revision, as far as there is one.
pub open spec fn next_revision(revision: u64) -> u64 {
    if revision == u64::MAX {
        u64::MAX
    } else {
        (revision + 1) as u64
    }
}

/// A transfer with every count of its progress back at the start.
pub open spec fn rewound(transfer: TransferModel) -> TransferModel {
    TransferModel {
        files: transfer.files.map_values(
            |file: FileModel| FileModel { completed_bytes: 0, ..file },
        ),
        completed_bytes: 0,
        speed_bytes_per_second: 0,
        remaining_seconds: None,
        ..transfer
    }
}

/// A transfer that has failed for that reason, unless it was over before.
pub open spec fn failed_for(transfer: TransferModel, message: Seq<char>, now_ms: i64) -> TransferModel {
    if transfer.status.over() {
        transfer
    } else {
        TransferModel {
            status: TransferStatus::Failed,
            updated_at_ms: now_ms,
            error_message: Some(message),
            ..transfer
        }
    }
}

/// The seconds that are left at a speed.
pub open spec fn remaining_at(total: u64, completed: u64, speed: u64) -> Option<u64> {
    if speed > 0 {
        Some(
            (if completed <= total {
                (total - completed) as u64
            } else {
                0
            }) / speed,
        )
    } else {
        None
    }
}

/// The list of files that have moved, after one of them has moved to a place.
pub open spec fn marked(
    dirty: Seq<TransferFileProgress>,
    file_id: u64,
    completed: u64,
) -> Seq<TransferFileProgress>
    decreases dirty.len(),
{
    if dirty.len() == 0 {
        seq![TransferFileProgress { id: file_id, completed_bytes: completed }]
    } else if dirty[0].id == file_id {
        seq![TransferFileProgress { id: file_id, completed_bytes: completed }] + dirty.skip(1)
    } else {
        seq![dirty[0]] + marked(dirty.skip(1), file_id, completed)
    }
}

/// Whether progress is due to be told.
pub open spec fn progress_due(finished: bool, last: Option<u64>, now: u64) -> bool {
    finished || (last matches Some(last) ==> now >= last + PROGRESS_INTERVAL_MS)
}

/// The books of a transfer balance, unless it is over.
pub open spec fn booked(transfer: TransferModel) -> bool {
    transfer.status.over() || transfer.accounted()
}

impl ManagerModel {
    /// What holds of the service at all times: the books of every transfer
    /// that goes on balance, and nothing was shown that lies ahead.
    pub open spec fn sound(self) -> bool {
        &&& self.base_revision <= self.state.revision
        &&& forall|place: int|
            0 <= place < self.state.transfers.len() ==> booked(
                #[trigger] self.state.transfers[place],
            )
        &&& self.running <= MAX_RUNNING_JOBS
        &&& crate::infrastructure::encoding::base64_fits(self.public_key().len())
    }

    /// The service once it has shown everything.
    pub open spec fn emitted(self) -> ManagerModel {
        ManagerModel {
            state: SnapshotModel { revision: next_revision(self.state.revision), ..self.state },
            base_revision: next_revision(self.state.revision),
            ..self
        }
    }

    /// The service once a change of its transfers has been settled: the list
    /// is pruned, due to be written down, and shown.
    pub open spec fn settled(self) -> ManagerModel {
        let kept = super::history::pruned(self.state.transfers);
        ManagerModel {
            state: SnapshotModel { transfers: kept, ..self.state },
            history: Some(
                kept.map_values(|transfer: TransferModel| super::history::persistent(transfer)),
            ),
            ..self
        }.emitted()
    }

    /// The service after a change of the transfer at a place.
    pub open spec fn with_transfer(self, place: int, transfer: TransferModel) -> ManagerModel {
        ManagerModel {
            state: SnapshotModel {
                transfers: self.state.transfers.update(place, transfer),
                ..self.state
            },
            ..self
        }
    }

    /// The service after one transfer has been changed.
    pub open spec fn changed(
        self,
        id: Seq<char>,
        change: spec_fn(TransferModel) -> Result<TransferModel, ErrorModel>,
    ) -> Result<ManagerModel, ErrorModel> {
        match first_transfer(self.state.transfers, id) {
            None => Err(ErrorModel::TransferNotFound(id)),
            Some(place) => match change(self.state.transfers[place]) {
                Err(error) => Err(error),
                Ok(transfer) => Ok(self.with_transfer(place, transfer).settled()),
            },
        }
    }

    /// The service with nothing left to tell of a transfer's progress.
    pub open spec fn silenced(self, id: Seq<char>) -> ManagerModel {
        ManagerModel { emissions: self.emissions.remove(id), ..self }
    }

    /// The service after a transfer has been added in front.
    pub open spec fn pushed(self, transfer: TransferModel) -> ManagerModel {
        ManagerModel {
            state: SnapshotModel {
                transfers: self.state.transfers.insert(0, transfer),
                ..self.state
            },
            ..self
        }.settled()
    }

    /// The service after a transfer was told to change its status, and what
    /// came of it. Where the new status ends the transfer, nothing is left to
    /// tell of its progress.
    pub open spec fn transitioned(self, id: Seq<char>, status: TransferStatus, now_ms: i64) -> (
        ManagerModel,
        Result<(), ErrorModel>,
    ) {
        let base = if status.over() {
            self.silenced(id)
        } else {
            self
        };
        match base.changed(id, |transfer: TransferModel| transfer.transitioned(status, now_ms)) {
            Ok(after) => (after, Ok(())),
            Err(error) => (base, Err(error)),
        }
    }

    /// The service after a transfer has failed.
    pub open spec fn failed(self, id: Seq<char>, message: Seq<char>, now_ms: i64) -> ManagerModel {
        let base = self.silenced(id);
        match base.changed(
            id,
            |transfer: TransferModel| Ok(failed_for(transfer, message, now_ms)),
        ) {
            Ok(after) => after,
            Err(_) => base,
        }
    }

    /// The service after progress of a file, and what is told of it. `speed`
    /// is the number of bytes per second that the completed bytes come to.
    pub open spec fn progressed(
        self,
        id: Seq<char>,
        file_id: u64,
        completed: u64,
        now: u64,
        now_ms: i64,
        speed: spec_fn(u64) -> u64,
    ) -> Result<(ManagerModel, Option<ProgressModel>), ErrorModel> {
        match first_transfer(self.state.transfers, id) {
            None => Err(ErrorModel::TransferNotFound(id)),
            Some(place) => match self.state.transfers[place].progressed(
                file_id,
                completed,
                now_ms,
            ) {
                Err(error) => Err(error),
                Ok((moved, finished)) => {
                    let rate = speed(moved.completed_bytes);
                    let transfer = TransferModel {
                        speed_bytes_per_second: rate,
                        remaining_seconds: remaining_at(
                            moved.total_bytes,
                            moved.completed_bytes,
                            rate,
                        ),
                        ..moved
                    };
                    let known = if self.emissions.contains_key(id) {
                        self.emissions[id]
                    } else {
                        EmissionModel { last: None, dirty: Seq::empty() }
                    };
                    let dirty = marked(known.dirty, file_id, completed);
                    let base = self.with_transfer(place, transfer);
                    if progress_due(finished, known.last, now) {
                        let revision = next_revision(self.state.revision);
                        Ok(
                            (
                                ManagerModel {
                                    state: SnapshotModel { revision, ..base.state },
                                    emissions: self.emissions.insert(
                                        id,
                                        EmissionModel { last: Some(now), dirty: Seq::empty() },
                                    ),
                                    ..base
                                },
                                Some(
                                    ProgressModel {
                                        revision,
                                        base_revision: self.base_revision,
                                        transfer_id: id,
                                        completed_bytes: transfer.completed_bytes,
                                        speed_bytes_per_second: rate,
                                        remaining_seconds: transfer.remaining_seconds,
                                        updated_at_ms: transfer.updated_at_ms,
                                        files: dirty,
                                    },
                                ),
                            ),
                        )
                    } else {
                        Ok(
                            (
                                ManagerModel {
                                    emissions: self.emissions.insert(
                                        id,
                                        EmissionModel { last: known.last, dirty },
                                    ),
                                    ..base
                                },
                                None,
                            ),
                        )
                    }
                },
            },
        }
    }
}

/// Settling keeps the service sound.
proof fn settling_keeps_sound(manager: ManagerModel)
    requires
        manager.sound(),
    ensures
        manager.settled().sound(),
{
    let transfers = manager.state.transfers;
    let kept = super::history::pruned(transfers);
    super::history::pruning_keeps_what_is_live(transfers);
    assert forall|place: int| 0 <= place < kept.len() implies booked(#[trigger] kept[place]) by {
        assert(kept.contains(kept[place]));
        let other = choose|other: int|
            0 <= other < transfers.len() && transfers[other] == kept[place];
        assert(transfers[other] == kept[place]);
    }
}

/// Whether `speed` computes the rate `rate`.
pub open spec fn rates_as<F: Fn(u64) -> u64>(speed: F, rate: spec_fn(u64) -> u64) -> bool {
    forall|completed: u64, result: u64| #[trigger]
        speed.ensures((completed,), result) ==> result == rate(completed)
}

/// What came of recording progress.
pub open spec fn progress_outcome(
    after: ManagerModel,
    result: Result<Option<TransferProgress>, TransferError>,
) -> Result<(ManagerModel, Option<ProgressModel>), ErrorModel> {
    match result {
        Ok(Some(progress)) => Ok((after, Some(progress@))),
        Ok(None) => Ok((after, None)),
        Err(error) => Err(error@),
    }
}

fn mark(dirty: &mut Vec<TransferFileProgress>, file_id: u64, completed: u64)
    ensures
        final(dirty)@ == marked(old(dirty)@, file_id, completed),
{
    let ghost given = dirty@;
    let ghost entry = TransferFileProgress { id: file_id, completed_bytes: completed };
    let mut place: usize = 0;
    assert(given.skip(0) =~= given);
    assert(given.take(0) + marked(given, file_id, completed) =~= marked(given, file_id, completed));
    while place < dirty.len()
        invariant
            place <= dirty@.len(),
            dirty@ == given,
            given == old(dirty)@,
            entry == (TransferFileProgress { id: file_id, completed_bytes: completed }),
            marked(given, file_id, completed) == given.take(place as int) + marked(
                given.skip(place as int),
                file_id,
                completed,
            ),
        decreases dirty@.len() - place,
    {
        let ghost rest = given.skip(place as int);
        proof {
            assert(rest[0] == given[place as int]);
            assert(rest.skip(1) =~= given.skip(place + 1));
        }
        if dirty[place].id == file_id {
            dirty.set(place, TransferFileProgress { id: file_id, completed_bytes: completed });
            assert(dirty@ =~= given.take(place as int) + (seq![entry] + rest.skip(1)));
            return;
        }
        proof {
            assert(given.take(place as int) + (seq![rest[0]] + marked(
                rest.skip(1),
                file_id,
                completed,
            )) =~= given.take(place + 1) + marked(rest.skip(1), file_id, completed));
        }
        place += 1;
    }
    dirty.push(TransferFileProgress { id: file_id, completed_bytes: completed });
    assert(given.skip(given.len() as int) =~= Seq::empty());
    assert(dirty@ =~= given.take(given.len() as int) + seq![entry]);
}

impl TransferManager {
    /// What every service is: its tables hold each key once, and it is sound.
    pub closed spec fn wf(self) -> bool {
        &&& self.emissions.wf()
        &&& self.pending_decisions.wf()
        &&& self.jobs.wf()
        &&& self.policies.wf()
        &&& self@.sound()
    }

    /// A service is sound.
    pub proof fn is_sound(self)
        requires
            self.wf(),
        ensures
            self@.sound(),
    {
    }

    proof fn one_changed(self, before: ManagerModel, place: int)
        requires
            before.sound(),
            0 <= place < before.state.transfers.len(),
            self@ == before.with_transfer(place, self@.state.transfers[place]),
            booked(self@.state.transfers[place]),
        ensures
            self@.sound(),
    {
        assert forall|other: int| 0 <= other < self@.state.transfers.len() implies booked(
            #[trigger] self@.state.transfers[other],
        ) by {
            if other != place {
                assert(self@.state.transfers[other] == before.state.transfers[other]);
            }
        }
    }

    /// Shows everything anew.
    pub fn emit_snapshot(&mut self)
        requires
            old(self).wf(),
        ensures
            final(self).wf(),
            final(self)@ == old(self)@.emitted(),
    {
        if self.state.revision < u64::MAX {
            self.state.revision = self.state.revision + 1;
        }
        self.last_full_revision = self.state.revision;
    }

    fn settle(&mut self)
        requires
            old(self).wf(),
        ensures
            final(self).wf(),
            final(self)@ == old(self)@.settled(),
    {
        proof {
            settling_keeps_sound(self@);
        }
        prune_transfer_history(&mut self.state.transfers);
        self.history = Some(persistent_history(&self.state.transfers));
        if self.state.revision < u64::MAX {
            self.state.revision = self.state.revision + 1;
        }
        self.last_full_revision = self.state.revision;
        assert(self@ == old(self)@.settled());
    }

    fn find_transfer(&self, id: &str) -> (place: Option<usize>)
        ensures
            match place {
                Some(place) => first_transfer(self@.state.transfers, id@) == Some(place as int)
                    && place < self.state.transfers@.len(),
                None => first_transfer(self@.state.transfers, id@) is None,
            },
    {
        let ghost models = transfer_models(self.state.transfers@);
        let mut place: usize = 0;
        assert(models.take(0) =~= Seq::empty());
        while place < self.state.transfers.len()
            invariant
                place <= self.state.transfers@.len(),
                models == transfer_models(self.state.transfers@),
                first_transfer(models.take(place as int), id@) is None,
            decreases self.state.transfers@.len() - place,
        {
            proof {
                assert(models.take(place + 1).drop_last() =~= models.take(place as int));
                assert(models.take(place + 1).last() == self.state.transfers@[place as int]@);
            }
            if same_text(self.state.transfers[place].id.as_str(), id) {
                proof {
                    first_transfer_extends(models, id@, place + 1);
                }
                return Some(place);
            }
            place += 1;
        }
        assert(models.take(models.len() as int) =~= models);
        None
    }

    /// Moves a transfer to another status, where that may follow.
    pub fn transition(&mut self, id: &str, status: TransferStatus, now_ms: i64) -> (result: Result<
        (),
        TransferError,
    >)
        requires
            old(self).wf(),
        ensures
            final(self).wf(),
            (final(self)@, crate::error::outcome(result)) == old(self)@.transitioned(
                id@,
                status,
                now_ms,
            ),
    {
        if status.terminal() {
            let _ = self.emissions.remove(id);
            assert(self@.emissions =~= old(self)@.emissions.remove(id@));
        }
        let ghost base = self@;
        match self.find_transfer(id) {
            None => Err(TransferError::TransferNotFound(id.to_owned())),
            Some(place) => {
                match self.state.transfers[place].transition(status, now_ms) {
                    Err(error) => {
                        assert(self@.state.transfers =~= base.state.transfers);
                        Err(error)
                    },
                    Ok(()) => {
                        proof {
                            let transfer = self.state.transfers@[place as int]@;
                            assert(self@.state.transfers =~= base.state.transfers.update(
                                place as int,
                                transfer,
                            ));
                            assert(self@ == base.with_transfer(place as int, transfer));
                            assert(booked(base.state.transfers[place as int]));
                            self.one_changed(base, place as int);
                        }
                        self.settle();
                        Ok(())
                    },
                }
            },
        }
    }

    /// Marks a transfer as failed, unless it is over.
    pub fn fail_transfer(&mut self, id: &str, message: &str, now_ms: i64)
        requires
            old(self).wf(),
        ensures
            final(self).wf(),
            final(self)@ == old(self)@.failed(id@, message@, now_ms),
    {
        let _ = self.emissions.remove(id);
        assert(self@.emissions =~= old(self)@.emissions.remove(id@));
        let ghost base = self@;
        match self.find_transfer(id) {
            None => {},
            Some(place) => {
                if !self.state.transfers[place].status.terminal() {
                    self.state.transfers[place].status = TransferStatus::Failed;
                    self.state.transfers[place].updated_at_ms = now_ms;
                    self.state.transfers[place].error_message = Some(message.to_owned());
                }
                proof {
                    let transfer = self.state.transfers@[place as int]@;
                    assert(self@.state.transfers =~= base.state.transfers.update(
                        place as int,
                        transfer,
                    ));
                    assert(self@ == base.with_transfer(place as int, transfer));
                    self.one_changed(base, place as int);
                }
                self.settle();
            },
        }
    }

    /// Adds a transfer in front of the others.
    pub fn push_transfer(&mut self, transfer: TransferView)
        requires
            old(self).wf(),
            booked(transfer@),
        ensures
            final(self).wf(),
            final(self)@ == old(self)@.pushed(transfer@),
    {
        let ghost before = self@.state.transfers;
        self.state.transfers.insert(0, transfer);
        proof {
            assert(self@.state.transfers =~= before.insert(0, transfer@));
            assert forall|place: int| 0 <= place < self@.state.transfers.len() implies booked(
                #[trigger] self@.state.transfers[place],
            ) by {
                if place > 0 {
                    assert(self@.state.transfers[place] == before[place - 1]);
                }
            }
        }
        self.settle();
    }

    /// Records how far a file has come, and says what is to be told of it.
    /// `now` is read from the clock that never goes back; `speed` says how many
    /// bytes per second the completed bytes come to.
    pub fn record_progress_live<F: Fn(u64) -> u64>(
        &mut self,
        id: &str,
        file_id: u64,
        completed: u64,
        now: u64,
        now_ms: i64,
        speed: F,
    ) -> (result: Result<Option<TransferProgress>, TransferError>)
        requires
            old(self).wf(),
            forall|bytes: u64| #[trigger] speed.requires((bytes,)),
        ensures
            final(self).wf(),
            result is Err ==> final(self)@ == old(self)@,
            forall|rate: spec_fn(u64) -> u64| #[trigger]
                rates_as(speed, rate) ==> progress_outcome(final(self)@, result)
                    == old(self)@.progressed(id@, file_id, completed, now, now_ms, rate),
    {
        let ghost before = self@;
        let revision = if self.state.revision < u64::MAX {
            self.state.revision + 1
        } else {
            self.state.revision
        };
        let place = match self.find_transfer(id) {
            Some(place) => place,
            None => {
                return Err(TransferError::TransferNotFound(id.to_owned()));
            },
        };
        proof {
            assert(before.state.transfers[place as int] == self.state.transfers@[place as int]@);
            if before.state.transfers[place as int].status.active() {
                crate::domain::transfer::progress_keeps_the_books(
                    before.state.transfers[place as int],
                    file_id,
                    completed,
                    now_ms,
                );
            }
        }
        let finished = match self.state.transfers[place].record_progress(
            file_id,
            completed,
            now_ms,
        ) {
            Ok(finished) => finished,
            Err(error) => {
                assert(self@.state.transfers =~= before.state.transfers);
                return Err(error);
            },
        };
        let ghost moved = self.state.transfers@[place as int]@;
        let completed_bytes = self.state.transfers[place].completed_bytes;
        let total_bytes = self.state.transfers[place].total_bytes;
        let rate = speed(completed_bytes);
        let left = if completed_bytes <= total_bytes {
            total_bytes - completed_bytes
        } else {
            0
        };
        let remaining = if rate > 0 {
            Some(left / rate)
        } else {
            None
        };
        self.state.transfers[place].speed_bytes_per_second = rate;
        self.state.transfers[place].remaining_seconds = remaining;
        let ghost transfer = self.state.transfers@[place as int]@;
        proof {
            assert(self@.state.transfers =~= before.state.transfers.update(
                place as int,
                transfer,
            ));
            assert forall|other: int| 0 <= other < self@.state.transfers.len() implies booked(
                #[trigger] self@.state.transfers[other],
            ) by {
                if other == place {
                    assert(transfer.accounted() == moved.accounted());
                } else {
                    assert(self@.state.transfers[other] == before.state.transfers[other]);
                }
            }
        }
        let mut emission = match self.emissions.remove(id) {
            Some(emission) => emission,
            None => ProgressEmission { last: None, dirty: Vec::new() },
        };
        mark(&mut emission.dirty, file_id, completed);
        let due = finished || match emission.last {
            Some(last) => now >= last && now - last >= PROGRESS_INTERVAL_MS,
            None => true,
        };
        if !due {
            self.emissions.insert(id.to_owned(), emission);
            assert(self@.emissions =~= before.emissions.insert(id@, emission@));
            return Ok(None);
        }
        let progress = TransferProgress {
            revision,
            base_revision: self.last_full_revision,
            transfer_id: id.to_owned(),
            completed_bytes,
            speed_bytes_per_second: rate,
            remaining_seconds: remaining,
            updated_at_ms: self.state.transfers[place].updated_at_ms,
            files: emission.dirty,
        };
        let told = ProgressEmission { last: Some(now), dirty: Vec::new() };
        self.emissions.insert(id.to_owned(), told);
        self.state.revision = revision;
        assert(self@.emissions =~= before.emissions.insert(id@, told@));
        Ok(Some(progress))
    }
}

/// The transfers that are taken up at the start.
pub open spec fn initial_transfers(stored: Seq<TransferModel>) -> Seq<TransferModel> {
    super::history::pruned(super::history::restored(stored))
}

/// The setup with the receive directory that was chosen earlier, if any was.
pub open spec fn effective_config(config: ConfigModel, chosen: Option<Seq<char>>) -> ConfigModel {
    match chosen {
        Some(directory) => ConfigModel { receive_directory: directory, ..config },
        None => config,
    }
}

/// The service at its start.
pub open spec fn initial(
    config: ConfigModel,
    chosen: Option<Seq<char>>,
    policies: Map<Seq<char>, ReceivePolicy>,
    stored: Seq<TransferModel>,
) -> ManagerModel {
    let effective = effective_config(config, chosen);
    ManagerModel {
        config: effective,
        state: SnapshotModel {
            revision: 0,
            device_id: Seq::empty(),
            device_name: effective.device_name,
            receive_directory: effective.receive_directory,
            discoverable: true,
            peers: Seq::empty(),
            transfers: initial_transfers(stored),
        },
        base_revision: 0,
        emissions: Map::empty(),
        pending: Map::empty(),
        jobs: Map::empty(),
        policies,
        identity: None,
        started: false,
        stopping: false,
        running: 0,
        history: None,
    }
}

impl ManagerModel {
    /// The identifier of this device, empty before the start.
    pub open spec fn device_id(self) -> Seq<char> {
        match self.identity {
            Some(identity) => identity.device_id,
            None => Seq::empty(),
        }
    }

    /// The public key of this device, empty before the start.
    pub open spec fn public_key(self) -> Seq<u8> {
        match self.identity {
            Some(identity) => identity.public_key,
            None => Seq::empty(),
        }
    }

    /// The digest of this device's certificate, empty before the start.
    pub open spec fn certificate(self) -> Seq<u8> {
        match self.identity {
            Some(identity) => identity.certificate_sha256,
            None => Seq::empty(),
        }
    }

    /// The service when it is being started under an identity and a name.
    pub open spec fn starting(self, identity: IdentityModel, device_name: Seq<char>) -> ManagerModel {
        if self.started {
            self
        } else {
            ManagerModel {
                started: true,
                identity: match self.identity {
                    Some(known) => Some(known),
                    None => Some(identity),
                },
                state: SnapshotModel {
                    device_id: identity.device_id,
                    device_name,
                    ..self.state
                },
                ..self
            }
        }
    }

    /// The service when it has been told to stop: every job is cancelled, and
    /// none is taken on any more.
    pub open spec fn stopped(self) -> ManagerModel {
        ManagerModel {
            stopping: true,
            jobs: self.jobs.map_values(|control: JobControl| control.after_cancel()),
            ..self
        }
    }

    /// Whether one more job may run.
    pub open spec fn has_room(self) -> bool {
        !self.stopping && self.running < MAX_RUNNING_JOBS
    }

    /// The service after the switches of a job have been set.
    pub open spec fn with_job(self, id: Seq<char>, control: JobControl) -> ManagerModel {
        ManagerModel { jobs: self.jobs.insert(id, control), ..self }
    }

    /// The service after a transfer was told to pause, and what came of it.
    pub open spec fn paused(self, id: Seq<char>, now_ms: i64) -> (
        ManagerModel,
        Result<(), ErrorModel>,
    ) {
        if self.jobs.contains_key(id) {
            self.with_job(id, self.jobs[id].after_pause()).transitioned(
                id,
                TransferStatus::Paused,
                now_ms,
            )
        } else {
            (self, Err(ErrorModel::TransferNotFound(id)))
        }
    }

    /// The service after a transfer was told to resume, and what came of it.
    pub open spec fn resumed(self, id: Seq<char>, now_ms: i64) -> (
        ManagerModel,
        Result<(), ErrorModel>,
    ) {
        if self.jobs.contains_key(id) {
            self.with_job(id, self.jobs[id].after_resume()).transitioned(
                id,
                TransferStatus::Transferring,
                now_ms,
            )
        } else {
            (self, Err(ErrorModel::TransferNotFound(id)))
        }
    }

    /// Who is told when a transfer is cancelled.
    pub open spec fn cancel_route(self, id: Seq<char>) -> CancelRoute {
        if self.pending.contains_key(id) {
            CancelRoute::Decision(
                ReceiveDecision { accept: false, automatic_receive: false, cancelled: true },
            )
        } else if self.jobs.contains_key(id) {
            CancelRoute::Job
        } else {
            CancelRoute::Nobody
        }
    }

    /// The service after a transfer was told to cancel, and what came of it.
    pub open spec fn cancelled(self, id: Seq<char>, now_ms: i64) -> (
        ManagerModel,
        Result<(), ErrorModel>,
    ) {
        let base = match self.cancel_route(id) {
            CancelRoute::Decision(_) => ManagerModel { pending: self.pending.remove(id), ..self },
            CancelRoute::Job => self.with_job(id, self.jobs[id].after_cancel()),
            CancelRoute::Nobody => self,
        };
        base.transitioned(id, TransferStatus::Cancelled, now_ms)
    }
}

/// Who is told when a transfer is cancelled.
#[derive(Debug, Clone, Copy, PartialEq, Eq, Structural)]
pub enum CancelRoute {
    /// The incoming transfer that waits for a decision: this one.
    Decision(ReceiveDecision),
    /// The job that runs.
    Job,
    /// Nobody.
    Nobody,
}

impl TransferManager {
    /// The service at its start. `stored_directory` is the receive directory
    /// that was chosen earlier, `stored_policies` and `stored_history` are what
    /// was written down.
    pub fn with_resources(
        config: TransferConfig,
        stored_directory: Option<String>,
        stored_policies: &Vec<StoredReceivePolicy>,
        stored_history: Vec<TransferView>,
    ) -> (manager: TransferManager)
        ensures
            manager.wf(),
            manager@ == initial(
                config@,
                crate::domain::transfer::optional_text(stored_directory),
                super::policies::loaded(stored_policies@),
                transfer_models(stored_history@),
            ),
    {
        let mut config = config;
        match stored_directory {
            Some(directory) => {
                config.receive_directory = directory;
            },
            None => {},
        }
        let policies = ReceivePolicies::load(stored_policies);
        let mut transfers = restore_history(stored_history);
        let ghost taken_up = transfer_models(transfers@);
        prune_transfer_history(&mut transfers);
        proof {
            let kept = transfer_models(transfers@);
            super::history::restored_history_is_settled(transfer_models(stored_history@));
            super::history::pruning_keeps_what_is_live(taken_up);
            assert forall|place: int| 0 <= place < kept.len() implies booked(
                #[trigger] kept[place],
            ) by {
                assert(kept.contains(kept[place]));
                let other = choose|other: int|
                    0 <= other < taken_up.len() && taken_up[other] == kept[place];
                assert(taken_up[other].status.over());
            }
        }
        let peers: Vec<NearbyPeer> = Vec::new();
        assert(peer_models(peers@) =~= Seq::empty());
        let state = TransferSnapshot {
            revision: 0,
            device_id: String::new(),
            device_name: config.device_name.clone(),
            receive_directory: config.receive_directory.clone(),
            discoverable: true,
            peers,
            transfers,
        };
        let manager = TransferManager {
            config,
            state,
            last_full_revision: 0,
            emissions: TextTable::new(),
            pending_decisions: TextTable::new(),
            jobs: TextTable::new(),
            policies,
            identity: None,
            started: false,
            stopping: false,
            running: 0,
            history: None,
        };
        assert(manager@.emissions =~= Map::empty());
        manager
    }

    /// Everything the service shows.
    pub fn snapshot(&self) -> (snapshot: TransferSnapshot)
        ensures
            snapshot@ == self@.state,
    {
        self.state.clone()
    }

    /// Everything the service shows, with the revision on which the progress
    /// events that follow build.
    pub fn event_baseline(&self) -> (baseline: (TransferSnapshot, u64))
        ensures
            baseline.0@ == self@.state,
            baseline.1 == self@.base_revision,
    {
        (self.state.clone(), self.last_full_revision)
    }

    /// Whether nothing is kept of the progress of any transfer.
    pub fn tells_no_progress(&self) -> (quiet: bool)
        requires
            self.wf(),
        ensures
            quiet == self@.emissions.dom().is_empty(),
    {
        let quiet = self.emissions.len() == 0;
        proof {
            self.emissions.keys_are_the_domain();
            let keys = self.emissions.keys();
            if quiet {
                assert forall|id: Seq<char>| !self@.emissions.contains_key(id) by {
                    assert(!keys.contains(id));
                }
                assert(self@.emissions.dom() =~= Set::empty());
            } else {
                assert(keys.contains(keys[0]));
                assert(self@.emissions.contains_key(keys[0]));
                assert(self@.emissions.dom().contains(keys[0]));
            }
        }
        quiet
    }

    /// The identifier of this device, empty before the start.
    pub fn device_id(&self) -> (id: String)
        ensures
            id@ == self@.device_id(),
    {
        match &self.identity {
            Some(identity) => identity.device_id.clone(),
            None => String::new(),
        }
    }

    /// Whether the service knows who this device is.
    pub fn has_identity(&self) -> (known: bool)
        ensures
            known == (self@.identity is Some),
    {
        self.identity.is_some()
    }

    /// The name of this device.
    pub fn device_name(&self) -> (name: String)
        ensures
            name@ == self@.config.device_name,
    {
        self.config.device_name.clone()
    }

    /// The directory that files are received into.
    pub fn receive_directory(&self) -> (directory: String)
        ensures
            directory@ == self@.config.receive_directory,
    {
        self.config.receive_directory.clone()
    }

    /// The public key of this device, empty before the start.
    pub fn public_key(&self) -> (key: Vec<u8>)
        ensures
            key@ == self@.public_key(),
    {
        match &self.identity {
            Some(identity) => {
                let key = identity.public_key.clone();
                assert(key@ =~= identity.public_key@);
                key
            },
            None => Vec::new(),
        }
    }

    /// The public key of this device as text.
    pub fn public_key_base64(&self) -> (text: String)
        requires
            self.wf(),
        ensures
            text@ == crate::infrastructure::encoding::base64_text(self@.public_key()),
    {
        let key = self.public_key();
        encode_key(key.as_slice())
    }

    /// The digest of this device's certificate as text, empty before the start.
    pub fn certificate_sha256(&self) -> (text: String)
        ensures
            text@ == crate::infrastructure::encoding::hex_text(self@.certificate()),
    {
        match &self.identity {
            Some(identity) => encode_hex(identity.certificate_sha256.as_slice()),
            None => String::new(),
        }
    }

    /// Whether other devices may find this one.
    pub fn is_discoverable(&self) -> (discoverable: bool)
        ensures
            discoverable == self@.state.discoverable,
    {
        self.state.discoverable
    }

    /// Whether the service has been told to stop.
    pub fn is_stopping(&self) -> (stopping: bool)
        ensures
            stopping == self@.stopping,
    {
        self.stopping
    }

    /// Hands out the history that waits to be written down.
    pub fn take_history(&mut self) -> (history: Option<Vec<TransferView>>)
        requires
            old(self).wf(),
        ensures
            final(self).wf(),
            (match history {
                Some(transfers) => Some(transfer_models(transfers@)),
                None => None,
            }) == old(self)@.history,
            final(self)@ == (ManagerModel { history: None, ..old(self)@ }),
    {
        let mut history: Option<Vec<TransferView>> = None;
        std::mem::swap(&mut history, &mut self.history);
        history
    }

    /// Begins the start under an identity and a name, and says whether there is
    /// anything to start.
    pub fn start(&mut self, identity: DeviceIdentity, device_name: &str) -> (begun: bool)
        requires
            old(self).wf(),
            crate::infrastructure::encoding::base64_fits(identity@.public_key.len()),
        ensures
            final(self).wf(),
            begun == !old(self)@.started,
            final(self)@ == old(self)@.starting(identity@, device_name@),
    {
        if self.started {
            return false;
        }
        self.started = true;
        self.state.device_id = identity.device_id.clone();
        self.state.device_name = device_name.to_owned();
        if self.identity.is_none() {
            self.identity = Some(identity);
        }
        true
    }

    /// Ends the start: where it failed, the service is not started, and says
    /// why.
    pub fn finish_start(&mut self, services: Result<(), TransferError>) -> (result: Result<
        (),
        TransferError,
    >)
        requires
            old(self).wf(),
        ensures
            final(self).wf(),
            crate::error::outcome(result) == crate::error::outcome(services),
            final(self)@ == (match services {
                Ok(_) => old(self)@.emitted(),
                Err(_) => ManagerModel { started: false, ..old(self)@ },
            }),
    {
        match services {
            Ok(()) => {
                self.emit_snapshot();
                Ok(())
            },
            Err(error) => {
                self.started = false;
                Err(error)
            },
        }
    }

    /// Tells the service to stop.
    pub fn shutdown(&mut self)
        requires
            old(self).wf(),
        ensures
            final(self).wf(),
            final(self)@ == old(self)@.stopped(),
    {
        self.stopping = true;
        let ghost before = self@;
        let ghost keys = self.jobs.keys();
        let ghost jobs = self.jobs@;
        proof {
            self.jobs.keys_are_the_domain();
        }
        let mut place: usize = 0;
        while place < self.jobs.len()
            invariant
                self.wf(),
                place <= keys.len(),
                self.jobs.keys() == keys,
                keys.no_duplicates(),
                forall|key: Seq<char>| keys.contains(key) <==> #[trigger] jobs.contains_key(key),
                forall|key: Seq<char>|
                    self.jobs@.contains_key(key) <==> #[trigger] jobs.contains_key(key),
                forall|other: int|
                    0 <= other < place ==> self.jobs@[#[trigger] keys[other]]
                        == jobs[keys[other]].after_cancel(),
                forall|other: int|
                    place <= other < keys.len() ==> self.jobs@[#[trigger] keys[other]]
                        == jobs[keys[other]],
                self@ == (ManagerModel { jobs: self.jobs@, ..before }),
            decreases keys.len() - place,
        {
            let mut control = *self.jobs.value_at(place);
            control.cancel();
            assert(keys.contains(keys[place as int]));
            self.jobs.set_at(place, control);
            place += 1;
        }
        proof {
            let wanted = jobs.map_values(|control: JobControl| control.after_cancel());
            assert forall|key: Seq<char>| #[trigger] self.jobs@.contains_key(key) implies self.jobs@[key]
                == wanted[key] by {
                assert(jobs.contains_key(key));
                assert(keys.contains(key));
                let other = choose|other: int| 0 <= other < keys.len() && keys[other] == key;
                assert(self.jobs@[keys[other]] == jobs[keys[other]].after_cancel());
            }
            assert(self.jobs@ =~= wanted);
        }
    }

    /// Takes room for one more job, if there is any.
    pub fn acquire_slot(&mut self) -> (acquired: bool)
        requires
            old(self).wf(),
        ensures
            final(self).wf(),
            acquired == old(self)@.has_room(),
            final(self)@ == (if acquired {
                ManagerModel { running: (old(self)@.running + 1) as usize, ..old(self)@ }
            } else {
                old(self)@
            }),
    {
        if self.stopping || self.running >= MAX_RUNNING_JOBS {
            return false;
        }
        self.running += 1;
        true
    }

    /// Gives back the room of one job.
    pub fn release_slot(&mut self)
        requires
            old(self).wf(),
        ensures
            final(self).wf(),
            final(self)@ == (ManagerModel {
                running: (if old(self)@.running > 0 {
                    old(self)@.running - 1
                } else {
                    0
                }) as usize,
                ..old(self)@
            }),
    {
        if self.running > 0 {
            self.running -= 1;
        }
    }

    /// The switches of a job.
    pub fn job(&self, id: &str) -> (result: Result<JobControl, TransferError>)
        requires
            self.wf(),
        ensures
            match result {
                Ok(control) => self@.jobs.contains_key(id@) && control == self@.jobs[id@],
                Err(error) => !self@.jobs.contains_key(id@) && error@
                    == ErrorModel::TransferNotFound(id@),
            },
    {
        match self.jobs.get(id) {
            Some(control) => Ok(*control),
            None => Err(TransferError::TransferNotFound(id.to_owned())),
        }
    }

    /// Enters a job that runs.
    pub fn register_job(&mut self, id: &str)
        requires
            old(self).wf(),
        ensures
            final(self).wf(),
            final(self)@ == old(self)@.with_job(
                id@,
                (JobControl { paused: false, cancelled: false }),
            ),
    {
        self.jobs.insert(id.to_owned(), JobControl::new());
    }

    /// Forgets a job.
    pub fn remove_job(&mut self, id: &str)
        requires
            old(self).wf(),
        ensures
            final(self).wf(),
            final(self)@ == (ManagerModel { jobs: old(self)@.jobs.remove(id@), ..old(self)@ }),
    {
        let _ = self.jobs.remove(id);
    }

    /// Enters an incoming transfer that waits for a decision.
    pub fn await_decision(&mut self, id: &str)
        requires
            old(self).wf(),
        ensures
            final(self).wf(),
            final(self)@ == (ManagerModel {
                pending: old(self)@.pending.insert(id@, ()),
                ..old(self)@
            }),
    {
        self.pending_decisions.insert(id.to_owned(), ());
    }

    /// Forgets that an incoming transfer waits for a decision.
    pub fn remove_decision(&mut self, id: &str)
        requires
            old(self).wf(),
        ensures
            final(self).wf(),
            final(self)@ == (ManagerModel {
                pending: old(self)@.pending.remove(id@),
                ..old(self)@
            }),
    {
        let _ = self.pending_decisions.remove(id);
    }

    /// Answers an incoming offer, once. `deliver` hands the decision to the
    /// waiting transfer and says whether it was still there; where none waits,
    /// nothing is handed over.
    pub fn respond_incoming<F: FnOnce(ReceiveDecision) -> bool>(
        &mut self,
        transfer_id: &str,
        accept: bool,
        automatic_receive: bool,
        deliver: F,
    ) -> (result: Result<(), TransferError>)
        requires
            old(self).wf(),
            old(self)@.pending.contains_key(transfer_id@) ==> deliver.requires(
                (ReceiveDecision { accept, automatic_receive, cancelled: false },),
            ),
        ensures
            final(self).wf(),
            final(self)@ == (ManagerModel {
                pending: old(self)@.pending.remove(transfer_id@),
                ..old(self)@
            }),
            !old(self)@.pending.contains_key(transfer_id@) ==> crate::error::outcome(result)
                == Err::<(), _>(
                ErrorModel::InvalidState("receive request was already handled or expired"@),
            ),
            old(self)@.pending.contains_key(transfer_id@) ==> exists|delivered: bool|
                {
                    &&& #[trigger] deliver.ensures(
                        (ReceiveDecision { accept, automatic_receive, cancelled: false },),
                        delivered,
                    )
                    &&& crate::error::outcome(result) == (if delivered {
                        Ok::<(), ErrorModel>(())
                    } else {
                        Err(ErrorModel::InvalidState("receive connection is already closed"@))
                    })
                },
    {
        match self.pending_decisions.remove(transfer_id) {
            None => {
                assert(old(self)@.pending.remove(transfer_id@) =~= old(self)@.pending);
                Err(TransferError::invalid_state("receive request was already handled or expired"))
            },
            Some(_) => {
                let delivered = deliver(
                    ReceiveDecision { accept, automatic_receive, cancelled: false },
                );
                if delivered {
                    Ok(())
                } else {
                    Err(TransferError::invalid_state("receive connection is already closed"))
                }
            },
        }
    }

    /// Pauses a transfer.
    pub fn pause(&mut self, transfer_id: &str, now_ms: i64) -> (result: Result<(), TransferError>)
        requires
            old(self).wf(),
        ensures
            final(self).wf(),
            (final(self)@, crate::error::outcome(result)) == old(self)@.paused(
                transfer_id@,
                now_ms,
            ),
    {
        let mut control = match self.jobs.get(transfer_id) {
            Some(control) => *control,
            None => {
                return Err(TransferError::TransferNotFound(transfer_id.to_owned()));
            },
        };
        control.pause();
        self.jobs.insert(transfer_id.to_owned(), control);
        self.transition(transfer_id, TransferStatus::Paused, now_ms)
    }

    /// Lets a paused transfer go on.
    pub fn resume(&mut self, transfer_id: &str, now_ms: i64) -> (result: Result<(), TransferError>)
        requires
            old(self).wf(),
        ensures
            final(self).wf(),
            (final(self)@, crate::error::outcome(result)) == old(self)@.resumed(
                transfer_id@,
                now_ms,
            ),
    {
        let mut control = match self.jobs.get(transfer_id) {
            Some(control) => *control,
            None => {
                return Err(TransferError::TransferNotFound(transfer_id.to_owned()));
            },
        };
        control.resume();
        self.jobs.insert(transfer_id.to_owned(), control);
        self.transition(transfer_id, TransferStatus::Transferring, now_ms)
    }

    /// Cancels a transfer, and says who is to be told.
    pub fn cancel(&mut self, transfer_id: &str, now_ms: i64) -> (result: (
        CancelRoute,
        Result<(), TransferError>,
    ))
        requires
            old(self).wf(),
        ensures
            final(self).wf(),
            result.0 == old(self)@.cancel_route(transfer_id@),
            (final(self)@, crate::error::outcome(result.1)) == old(self)@.cancelled(
                transfer_id@,
                now_ms,
            ),
    {
        let route = match self.pending_decisions.remove(transfer_id) {
            Some(_) => CancelRoute::Decision(
                ReceiveDecision { accept: false, automatic_receive: false, cancelled: true },
            ),
            None => {
                assert(old(self)@.pending.remove(transfer_id@) =~= old(self)@.pending);
                let found = match self.jobs.get(transfer_id) {
                    Some(control) => Some(*control),
                    None => None,
                };
                match found {
                    Some(control) => {
                        let mut control = control;
                        control.cancel();
                        self.jobs.insert(transfer_id.to_owned(), control);
                        CancelRoute::Job
                    },
                    None => CancelRoute::Nobody,
                }
            },
        };
        let result = self.transition(transfer_id, TransferStatus::Cancelled, now_ms);
        (route, result)
    }

    /// Takes another directory for received files.
    pub fn set_receive_directory(&mut self, path: &str) -> (snapshot: TransferSnapshot)
        requires
            old(self).wf(),
        ensures
            final(self).wf(),
            final(self)@ == (ManagerModel {
                config: ConfigModel { receive_directory: path@, ..old(self)@.config },
                state: SnapshotModel { receive_directory: path@, ..old(self)@.state },
                ..old(self)@
            }).emitted(),
            snapshot@ == final(self)@.state,
    {
        self.config.receive_directory = path.to_owned();
        self.state.receive_directory = path.to_owned();
        self.emit_snapshot();
        self.snapshot()
    }

    /// Lets other devices find this one, or not.
    pub fn set_discoverable(&mut self, discoverable: bool)
        requires
            old(self).wf(),
        ensures
            final(self).wf(),
            final(self)@ == (ManagerModel {
                state: SnapshotModel { discoverable, ..old(self)@.state },
                ..old(self)@
            }).emitted(),
    {
        self.state.discoverable = discoverable;
        self.emit_snapshot();
    }

    /// Gives this device another name.
    pub fn set_device_name(&mut self, device_name: &str)
        requires
            old(self).wf(),
        ensures
            final(self).wf(),
            final(self)@ == (ManagerModel {
                config: ConfigModel { device_name: device_name@, ..old(self)@.config },
                state: SnapshotModel { device_name: device_name@, ..old(self)@.state },
                ..old(self)@
            }).emitted(),
    {
        self.config.device_name = device_name.to_owned();
        self.state.device_name = device_name.to_owned();
        self.emit_snapshot();
    }

    /// Shows everything anew after the network has been searched.
    pub fn refresh_devices(&mut self) -> (snapshot: TransferSnapshot)
        requires
            old(self).wf(),
        ensures
            final(self).wf(),
            final(self)@ == old(self)@.emitted(),
            snapshot@ == final(self)@.state,
    {
        self.emit_snapshot();
        self.snapshot()
    }
}

/// Revisions never go back, and what is shown in full carries the newest one.
pub proof fn revisions_never_go_back(
    manager: ManagerModel,
    id: Seq<char>,
    file_id: u64,
    completed: u64,
    now: u64,
    now_ms: i64,
    speed: spec_fn(u64) -> u64,
)
    ensures
        manager.emitted().state.revision >= manager.state.revision,
        manager.state.revision < u64::MAX ==> manager.emitted().state.revision
            == manager.state.revision + 1,
        manager.emitted().base_revision == manager.emitted().state.revision,
        manager.progressed(id, file_id, completed, now, now_ms, speed) matches Ok((after, told))
            ==> {
            &&& after.state.revision >= manager.state.revision
            &&& after.base_revision == manager.base_revision
            &&& told is None ==> after.state.revision == manager.state.revision
        },
{
}

/// Every change of a transfer is due to be written down with all the others,
/// without previews and without what holds only while it goes on.
pub proof fn every_change_is_written_down(
    manager: ManagerModel,
    id: Seq<char>,
    change: spec_fn(TransferModel) -> Result<TransferModel, ErrorModel>,
    added: TransferModel,
)
    ensures
        manager.changed(id, change) matches Ok(after) ==> after.history == Some(
            after.state.transfers.map_values(
                |transfer: TransferModel| super::history::persistent(transfer),
            ),
        ),
        manager.pushed(added).history == Some(
            manager.pushed(added).state.transfers.map_values(
                |transfer: TransferModel| super::history::persistent(transfer),
            ),
        ),
{
}

/// A transfer that is over stays as it ended, however its job ends after that.
pub proof fn ending_keeps_a_final_status(
    manager: ManagerModel,
    id: Seq<char>,
    outcome: Result<(), ErrorModel>,
    now_ms: i64,
)
    requires
        first_transfer(manager.state.transfers, id) matches Some(place)
            ==> manager.state.transfers[place].status.over() && manager.state.transfers[place].status
            != TransferStatus::Cancelled,
    ensures
        manager.ended(id, outcome, now_ms).state.transfers == manager.state.transfers
            || manager.ended(id, outcome, now_ms).state.transfers == super::history::pruned(
            manager.state.transfers,
        ),
{
    let silenced = manager.silenced(id);
    first_transfer_is_first(manager.state.transfers, id);
    if let Some(place) = first_transfer(manager.state.transfers, id) {
        let transfer = manager.state.transfers[place];
        assert(manager.state.transfers.update(place, transfer) =~= manager.state.transfers);
    }
}

/// No progress is taken of a transfer that is over.
pub proof fn progress_is_refused_after_the_end(
    manager: ManagerModel,
    id: Seq<char>,
    file_id: u64,
    completed: u64,
    now: u64,
    now_ms: i64,
    speed: spec_fn(u64) -> u64,
)
    requires
        first_transfer(manager.state.transfers, id) matches Some(place)
            && manager.state.transfers[place].status.over(),
    ensures
        manager.progressed(id, file_id, completed, now, now_ms, speed) == Err::<
            (ManagerModel, Option<ProgressModel>),
            _,
        >(ErrorModel::InvalidState("transfer is not active"@)),
{
}

proof fn pruning_keeps_the_first(transfers: Seq<TransferModel>, id: Seq<char>)
    requires
        first_transfer(transfers, id) matches Some(place) && !transfers[place].status.over(),
    ensures
        first_transfer(super::history::pruned(transfers), id) matches Some(place)
            && super::history::pruned(transfers)[place] == transfers[first_transfer(
            transfers,
            id,
        )->0],
    decreases transfers.len(),
{
    first_transfer_is_first(transfers, id);
    if transfers.len() > 0 {
        let front = transfers.drop_last();
        let before = super::history::pruned(front);
        let kept = super::history::pruned(transfers);
        let place = first_transfer(transfers, id)->0;
        first_transfer_is_first(front, id);
        first_transfer_is_first(before, id);
        assert(before.push(transfers.last()).drop_last() =~= before);
        if place < transfers.len() - 1 {
            assert(front[place] == transfers[place]);
            pruning_keeps_the_first(front, id);
        } else {
            super::history::pruning_keeps_what_is_live(front);
            assert(first_transfer(before, id) is None) by {
                if let Some(other) = first_transfer(before, id) {
                    assert(before.contains(before[other]));
                    let source = choose|source: int|
                        0 <= source < front.len() && front[source] == before[other];
                    assert(transfers[source].id == id);
                }
            }
            assert(kept == before.push(transfers.last()));
            assert(kept.last() == transfers.last());
        }
    }
}

/// Pausing a transfer that moves files and resuming it gives back the transfer
/// as it was, but for when it was last changed, and lets its job go on.
pub proof fn resuming_undoes_a_pause(
    manager: ManagerModel,
    id: Seq<char>,
    paused_at_ms: i64,
    resumed_at_ms: i64,
)
    requires
        manager.jobs.contains_key(id),
        first_transfer(manager.state.transfers, id) matches Some(place)
            && manager.state.transfers[place].status == TransferStatus::Transferring,
    ensures
        ({
            let (paused, pausing) = manager.paused(id, paused_at_ms);
            let (after, resuming) = paused.resumed(id, resumed_at_ms);
            let transfer = manager.state.transfers[first_transfer(manager.state.transfers, id)->0];
            &&& pausing is Ok
            &&& resuming is Ok
            &&& first_transfer(after.state.transfers, id) matches Some(place)
                && after.state.transfers[place] == (TransferModel {
                updated_at_ms: resumed_at_ms,
                ..transfer
            })
            &&& after.jobs == manager.jobs.insert(id, manager.jobs[id].after_resume())
        }),
{
    let transfers = manager.state.transfers;
    let place = first_transfer(transfers, id)->0;
    first_transfer_is_first(transfers, id);
    let held = TransferModel {
        status: TransferStatus::Paused,
        updated_at_ms: paused_at_ms,
        ..transfers[place]
    };
    replaced_stays_first(transfers, id, held);
    let held_transfers = transfers.update(place, held);
    pruning_keeps_the_first(held_transfers, id);
    let (paused, _) = manager.paused(id, paused_at_ms);
    assert(paused.state.transfers == super::history::pruned(held_transfers));
    let shown = paused.state.transfers;
    let other = first_transfer(shown, id)->0;
    first_transfer_is_first(shown, id);
    let moving = TransferModel { updated_at_ms: resumed_at_ms, ..transfers[place] };
    assert(moving == (TransferModel {
        status: TransferStatus::Transferring,
        updated_at_ms: resumed_at_ms,
        ..held
    }));
    replaced_stays_first(shown, id, moving);
    pruning_keeps_the_first(shown.update(other, moving), id);
    let (after, _) = paused.resumed(id, resumed_at_ms);
    assert(after.state.transfers == super::history::pruned(shown.update(other, moving)));
    assert(after.jobs =~= manager.jobs.insert(id, manager.jobs[id].after_resume()));
}

proof fn replaced_stays_first(
    transfers: Seq<TransferModel>,
    id: Seq<char>,
    transfer: TransferModel,
)
    requires
        first_transfer(transfers, id) is Some,
        transfer.id == id,
    ensures
        first_transfer(transfers.update(first_transfer(transfers, id)->0, transfer), id)
            == first_transfer(transfers, id),
{
    let place = first_transfer(transfers, id)->0;
    let updated = transfers.update(place, transfer);
    first_transfer_is_first(transfers, id);
    first_transfer_is_first(updated, id);
    assert(updated[place].id == id);
    match first_transfer(updated, id) {
        Some(other) => {
            if other < place {
                assert(updated[other] == transfers[other]);
            }
        },
        None => {},
    }
}

/// Whether every transfer with that identifier is over.
pub open spec fn over_in(transfers: Seq<TransferModel>, id: Seq<char>) -> bool {
    forall|place: int|
        0 <= place < transfers.len() && (#[trigger] transfers[place]).id == id
            ==> transfers[place].status.over()
}

pub(crate) proof fn changed_transfer_is_over(
    manager: ManagerModel,
    id: Seq<char>,
    change: spec_fn(TransferModel) -> Result<TransferModel, ErrorModel>,
)
    requires
        forall|left: int, right: int|
            0 <= left < right < manager.state.transfers.len() ==> !((
            #[trigger] manager.state.transfers[left]).id == id && (
            #[trigger] manager.state.transfers[right]).id == id),
        forall|given: TransferModel|
            #[trigger] change(given) matches Ok(after) ==> after.status.over(),
    ensures
        match manager.changed(id, change) {
            Ok(after) => over_in(after.state.transfers, id),
            Err(error) => error == ErrorModel::TransferNotFound(id) && over_in(
                manager.state.transfers,
                id,
            ) || exists|given: TransferModel| #[trigger]
                change(given) == Err::<TransferModel, _>(error),
        },
{
    let transfers = manager.state.transfers;
    first_transfer_is_first(transfers, id);
    if let Some(place) = first_transfer(transfers, id) {
        if let Ok(changed) = change(transfers[place]) {
            let updated = transfers.update(place, changed);
            let kept = super::history::pruned(updated);
            super::history::pruning_keeps_what_is_live(updated);
            assert forall|other: int| 0 <= other < kept.len() && (#[trigger] kept[other]).id
                == id implies kept[other].status.over() by {
                assert(kept.contains(kept[other]));
                let source = choose|source: int|
                    0 <= source < updated.len() && updated[source] == kept[other];
                if source != place {
                    assert(updated[source] == transfers[source]);
                    if source < place {
                        assert(!(transfers[source].id == id && transfers[place].id == id));
                    } else {
                        assert(!(transfers[place].id == id && transfers[source].id == id));
                    }
                }
            }
        }
    }
}

} // verus!

//! Many files of one transfer on their way at once.

use super::grants::{redeemable, redeemed, FileGrants, FileStreamOpen, HeldModel, OpenModel};
use super::offer::{manifest_models, FileManifestEntry, ManifestModel};
use super::router::FILE_STREAM_CONCURRENCY;
use crate::domain::TransferDirection;
use crate::error::{ErrorModel, TransferError};
use crate::text::joined;
use vstd::prelude::*;
use vstd::string::*;

verus! {

/// What a schedule waits for.
#[derive(Debug, Clone, Copy, PartialEq, Eq, Structural)]
pub enum ScheduleStep {
    /// One of the files on their way is done.
    Join,
    /// The file at that place is begun.
    Begin(usize),
    /// All files are done.
    Done,
}

/// What a schedule of so many files waits for when some of them have been begun
/// and some are on their way.
pub open spec fn scheduled(total: nat, begun: nat, running: nat) -> ScheduleStep {
    if begun < total {
        if running >= FILE_STREAM_CONCURRENCY {
            ScheduleStep::Join
        } else {
            ScheduleStep::Begin(begun as usize)
        }
    } else if running > 0 {
        ScheduleStep::Join
    } else {
        ScheduleStep::Done
    }
}

/// How a file on its way has ended.
#[derive(Debug, PartialEq, Eq)]
pub enum Joined {
    /// There was none.
    Nothing,
    /// Its task broke down; with the reason.
    Crashed(String),
    /// It took too long.
    TimedOut,
    /// It ended so.
    Ended(Result<(), TransferError>),
}

/// What it means for a transfer that a file has ended so.
pub open spec fn joined_as(direction: TransferDirection, joined: Joined) -> Result<(), ErrorModel> {
    match joined {
        Joined::Nothing => Err(ErrorModel::InvalidState("transfer task ended unexpectedly"@)),
        Joined::Crashed(reason) => Err(
            ErrorModel::Network("transfer task failed: "@ + reason@),
        ),
        Joined::TimedOut => match direction {
            TransferDirection::Sending => Err(
                ErrorModel::Network("timed out while sending a file"@),
            ),
            TransferDirection::Receiving => Err(
                ErrorModel::Network("timed out while receiving a file"@),
            ),
        },
        Joined::Ended(result) => crate::error::outcome(result),
    }
}

/// How many files have not ended well, or not yet, after one has ended so.
pub open spec fn still_running(
    running: usize,
    direction: TransferDirection,
    joined: Joined,
) -> usize {
    if joined_as(direction, joined) is Ok && running > 0 {
        (running - 1) as usize
    } else {
        running
    }
}

fn ended(direction: TransferDirection, task: Joined) -> (result: Result<(), TransferError>)
    ensures
        crate::error::outcome(result) == joined_as(direction, task),
{
    match task {
        Joined::Nothing => Err(TransferError::invalid_state("transfer task ended unexpectedly")),
        Joined::Crashed(reason) => Err(
            TransferError::Network(joined("transfer task failed: ", reason.as_str())),
        ),
        Joined::TimedOut => match direction {
            TransferDirection::Sending => Err(
                TransferError::network("timed out while sending a file"),
            ),
            TransferDirection::Receiving => Err(
                TransferError::network("timed out while receiving a file"),
            ),
        },
        Joined::Ended(result) => result,
    }
}

/// The files that are sent, in the order in which they were prepared.
#[derive(Debug)]
pub struct SendSchedule {
    total: usize,
    begun: usize,
    running: usize,
}

/// The mathematical value of a [`SendSchedule`].
pub struct SendScheduleModel {
    pub total: usize,
    /// How many files were begun.
    pub begun: usize,
    /// How many of them have not ended well, or not yet.
    pub running: usize,
}

impl View for SendSchedule {
    type V = SendScheduleModel;

    closed spec fn view(&self) -> SendScheduleModel {
        SendScheduleModel { total: self.total, begun: self.begun, running: self.running }
    }
}

impl SendScheduleModel {
    /// No more files are on their way than were begun, and no more than may be
    /// at once.
    pub open spec fn sound(self) -> bool {
        self.running <= self.begun <= self.total && self.running <= FILE_STREAM_CONCURRENCY
    }

    /// What the schedule waits for.
    pub open spec fn step(self) -> ScheduleStep {
        scheduled(self.total as nat, self.begun as nat, self.running as nat)
    }
}

impl SendSchedule {
    pub closed spec fn wf(self) -> bool {
        self@.sound()
    }

    /// A schedule is sound.
    pub proof fn is_sound(self)
        requires
            self.wf(),
        ensures
            self@.sound(),
    {
    }

    /// So many files, none of them begun.
    pub fn new(total: usize) -> (schedule: SendSchedule)
        ensures
            schedule@ == (SendScheduleModel { total, begun: 0, running: 0 }),
            schedule.wf(),
    {
        SendSchedule { total, begun: 0, running: 0 }
    }

    /// What to wait for, or which file to begin.
    pub fn step(&self) -> (step: ScheduleStep)
        ensures
            step == self@.step(),
    {
        if self.begun < self.total {
            if self.running >= FILE_STREAM_CONCURRENCY {
                ScheduleStep::Join
            } else {
                ScheduleStep::Begin(self.begun)
            }
        } else if self.running > 0 {
            ScheduleStep::Join
        } else {
            ScheduleStep::Done
        }
    }

    /// Notes that the next file was begun.
    pub fn begin(&mut self)
        requires
            old(self).wf(),
            old(self)@.step() is Begin,
        ensures
            final(self).wf(),
            final(self)@ == (SendScheduleModel {
                total: old(self)@.total,
                begun: (old(self)@.begun + 1) as usize,
                running: (old(self)@.running + 1) as usize,
            }),
    {
        self.begun += 1;
        self.running += 1;
    }

    /// Notes how a file has ended. One that has failed is never done.
    pub fn join(&mut self, task: Joined) -> (result: Result<(), TransferError>)
        requires
            old(self).wf(),
        ensures
            final(self).wf(),
            crate::error::outcome(result) == joined_as(TransferDirection::Sending, task),
            final(self)@ == (SendScheduleModel {
                running: still_running(old(self)@.running, TransferDirection::Sending, task),
                ..old(self)@
            }),
    {
        let result = ended(TransferDirection::Sending, task);
        if result.is_ok() && self.running > 0 {
            self.running -= 1;
        }
        result
    }
}

/// The place of the last file of a manifest with that number.
pub open spec fn manifest_place(files: Seq<ManifestModel>, file_id: u64) -> Option<int>
    decreases files.len(),
{
    if files.len() == 0 {
        None
    } else if files.last().file_id == file_id {
        Some(files.len() - 1)
    } else {
        manifest_place(files.drop_last(), file_id)
    }
}

/// The files that are received, in the order in which the sender opens them.
pub struct ReceiveSchedule {
    transfer_id: u64,
    files: Vec<FileManifestEntry>,
    received: Vec<u64>,
    running: usize,
    grants: FileGrants,
}

/// The mathematical value of a [`ReceiveSchedule`].
pub struct ReceiveScheduleModel {
    pub transfer_id: u64,
    /// The files that were offered.
    pub files: Seq<ManifestModel>,
    /// The numbers of the files that were begun, in that order.
    pub received: Seq<u64>,
    /// How many of them have not ended well, or not yet.
    pub running: usize,
    /// The authorizations that were given.
    pub grants: Map<u64, HeldModel>,
}

impl View for ReceiveSchedule {
    type V = ReceiveScheduleModel;

    closed spec fn view(&self) -> ReceiveScheduleModel {
        ReceiveScheduleModel {
            transfer_id: self.transfer_id,
            files: manifest_models(self.files@),
            received: self.received@,
            running: self.running,
            grants: self.grants@,
        }
    }
}

impl ReceiveScheduleModel {
    /// Every file that was begun was offered, and was begun once; no more are
    /// on their way than were begun, and no more than may be at once.
    pub open spec fn sound(self) -> bool {
        &&& self.received.no_duplicates()
        &&& forall|place: int|
            0 <= place < self.received.len() ==> manifest_place(
                self.files,
                #[trigger] self.received[place],
            ) is Some
        &&& self.running <= self.received.len() <= self.files.len()
        &&& self.running <= FILE_STREAM_CONCURRENCY
    }

    /// What the schedule waits for.
    pub open spec fn step(self) -> ScheduleStep {
        scheduled(self.files.len(), self.received.len(), self.running as nat)
    }

    /// The schedule after the sender has asked to send a file, with the file;
    /// or why it may not.
    pub open spec fn opened(self, open: OpenModel, now_ms: i64) -> Result<
        (ReceiveScheduleModel, ManifestModel),
        ErrorModel,
    > {
        match manifest_place(self.files, open.file_id) {
            None => Err(ErrorModel::Invalid("file is not present in the manifest"@)),
            Some(place) => if self.received.contains(open.file_id) {
                Err(ErrorModel::Invalid("duplicate file stream"@))
            } else if !redeemable(self.grants, open, self.transfer_id, now_ms) {
                Err(ErrorModel::Invalid("invalid or expired file authorization"@))
            } else {
                Ok(
                    (
                        ReceiveScheduleModel {
                            received: self.received.push(open.file_id),
                            running: (self.running + 1) as usize,
                            grants: redeemed(self.grants, open.file_id),
                            ..self
                        },
                        self.files[place],
                    ),
                )
            },
        }
    }
}

proof fn manifest_place_is_there(files: Seq<ManifestModel>, file_id: u64)
    ensures
        match manifest_place(files, file_id) {
            Some(place) => 0 <= place < files.len() && files[place].file_id == file_id,
            None => forall|place: int|
                0 <= place < files.len() ==> (#[trigger] files[place]).file_id != file_id,
        },
    decreases files.len(),
{
    if files.len() > 0 {
        let front = files.drop_last();
        manifest_place_is_there(front, file_id);
        assert(files[files.len() - 1] == files.last());
        assert forall|place: int| 0 <= place < front.len() implies front[place]
            == #[trigger] files[place] by {}
    }
}

impl ReceiveSchedule {
    pub closed spec fn wf(self) -> bool {
        self@.sound()
    }

    /// A schedule is sound.
    pub proof fn is_sound(self)
        requires
            self.wf(),
        ensures
            self@.sound(),
    {
    }

    /// The files of an offer, none of them begun, with the authorizations that
    /// were given for them.
    pub fn new(transfer_id: u64, files: &Vec<FileManifestEntry>, grants: FileGrants) -> (schedule:
        ReceiveSchedule)
        ensures
            schedule.wf(),
            schedule@ == (ReceiveScheduleModel {
                transfer_id,
                files: manifest_models(files@),
                received: Seq::empty(),
                running: 0,
                grants: grants@,
            }),
    {
        let copies = files.clone();
        assert(manifest_models(copies@) =~= manifest_models(files@));
        let received: Vec<u64> = Vec::new();
        ReceiveSchedule { transfer_id, files: copies, received, running: 0, grants }
    }

    /// What to wait for.
    pub fn step(&self) -> (step: ScheduleStep)
        ensures
            step == self@.step(),
    {
        if self.received.len() < self.files.len() {
            if self.running >= FILE_STREAM_CONCURRENCY {
                ScheduleStep::Join
            } else {
                ScheduleStep::Begin(self.received.len())
            }
        } else if self.running > 0 {
            ScheduleStep::Join
        } else {
            ScheduleStep::Done
        }
    }

    fn find_file(&self, file_id: u64) -> (place: Option<usize>)
        ensures
            match place {
                Some(place) => manifest_place(self@.files, file_id) == Some(place as int) && place
                    < self.files@.len(),
                None => manifest_place(self@.files, file_id) is None,
            },
    {
        let ghost models = manifest_models(self.files@);
        let mut end: usize = self.files.len();
        assert(models.take(models.len() as int) =~= models);
        while end > 0
            invariant
                end <= self.files@.len(),
                models == manifest_models(self.files@),
                manifest_place(models, file_id) == manifest_place(models.take(end as int), file_id),
            decreases end,
        {
            proof {
                assert(models.take(end as int).drop_last() =~= models.take(end - 1));
                assert(models.take(end as int).last() == self.files@[end - 1]@);
            }
            end -= 1;
            if self.files[end].file_id == file_id {
                return Some(end);
            }
        }
        None
    }

    fn has_begun(&self, file_id: u64) -> (begun: bool)
        ensures
            begun == self@.received.contains(file_id),
    {
        let mut place: usize = 0;
        while place < self.received.len()
            invariant
                place <= self.received@.len(),
                forall|earlier: int| 0 <= earlier < place ==> self.received@[earlier] != file_id,
            decreases self.received@.len() - place,
        {
            if self.received[place] == file_id {
                return true;
            }
            place += 1;
        }
        false
    }

    /// Lets the sender send a file, if it may.
    pub fn open(&mut self, open: &FileStreamOpen, now_ms: i64) -> (result: Result<
        FileManifestEntry,
        TransferError,
    >)
        requires
            old(self).wf(),
            old(self)@.step() is Begin,
        ensures
            final(self).wf(),
            match result {
                Ok(file) => old(self)@.opened(open@, now_ms) == Ok::<_, ErrorModel>(
                    (final(self)@, file@),
                ),
                Err(error) => {
                    &&& old(self)@.opened(open@, now_ms) == Err::<
                        (ReceiveScheduleModel, ManifestModel),
                        _,
                    >(error@)
                    &&& final(self)@ == old(self)@
                },
            },
    {
        let ghost before = self@;
        let place = match self.find_file(open.file_id) {
            Some(place) => place,
            None => {
                return Err(TransferError::invalid("file is not present in the manifest"));
            },
        };
        if self.has_begun(open.file_id) {
            return Err(TransferError::invalid("duplicate file stream"));
        }
        match self.grants.consume_file_grant(open, self.transfer_id, now_ms) {
            Ok(()) => {},
            Err(error) => {
                return Err(error);
            },
        }
        let file = self.files[place].clone();
        self.received.push(open.file_id);
        self.running += 1;
        proof {
            assert(self@.received =~= before.received.push(open.file_id));
            assert(self@.files[place as int] == self.files@[place as int]@);
            assert forall|other: int| 0 <= other < self@.received.len() implies manifest_place(
                self@.files,
                #[trigger] self@.received[other],
            ) is Some by {
                if other < before.received.len() {
                    assert(self@.received[other] == before.received[other]);
                }
            }
            assert forall|left: int, right: int|
                0 <= left < self@.received.len() && 0 <= right < self@.received.len() && left
                    != right implies self@.received[left] != self@.received[right] by {
                if left < before.received.len() && right < before.received.len() {
                    assert(before.received[left] != before.received[right]);
                } else if left < before.received.len() {
                    assert(before.received.contains(before.received[left]));
                } else {
                    assert(before.received.contains(before.received[right]));
                }
            }
        }
        Ok(file)
    }

    /// Why no more files come: the sender opened none in time, or the session
    /// has ended.
    pub fn starved(&self, session_ended: bool) -> (error: TransferError)
        ensures
            error@ == (if session_ended {
                ErrorModel::Network("file stream router stopped"@)
            } else {
                ErrorModel::Network("timed out waiting for file stream"@)
            }),
    {
        if session_ended {
            TransferError::network("file stream router stopped")
        } else {
            TransferError::network("timed out waiting for file stream")
        }
    }

    /// Notes how a file has ended. One that has failed is never done.
    pub fn join(&mut self, task: Joined) -> (result: Result<(), TransferError>)
        requires
            old(self).wf(),
        ensures
            final(self).wf(),
            crate::error::outcome(result) == joined_as(TransferDirection::Receiving, task),
            final(self)@ == (ReceiveScheduleModel {
                running: still_running(old(self)@.running, TransferDirection::Receiving, task),
                ..old(self)@
            }),
    {
        let result = ended(TransferDirection::Receiving, task);
        if result.is_ok() && self.running > 0 {
            self.running -= 1;
        }
        result
    }
}

/// When all files are done, every file that was offered has been received, and
/// just once.
pub proof fn finished_schedule_received_every_file(schedule: ReceiveScheduleModel)
    requires
        schedule.sound(),
        schedule.step() == ScheduleStep::Done,
        forall|left: int, right: int|
            0 <= left < right < schedule.files.len() ==> (#[trigger] schedule.files[left]).file_id
                != (#[trigger] schedule.files[right]).file_id,
    ensures
        schedule.received.no_duplicates(),
        forall|place: int|
            0 <= place < schedule.files.len() ==> schedule.received.contains(
                (#[trigger] schedule.files[place]).file_id,
            ),
{
    let ids = schedule.files.map_values(|file: ManifestModel| file.file_id);
    assert forall|left: int, right: int|
        0 <= left < ids.len() && 0 <= right < ids.len() && left != right implies ids[left]
        != ids[right] by {
        if left < right {
            assert(schedule.files[left].file_id != schedule.files[right].file_id);
        } else {
            assert(schedule.files[right].file_id != schedule.files[left].file_id);
        }
    }
    ids.unique_seq_to_set();
    schedule.received.unique_seq_to_set();
    assert forall|id: u64| schedule.received.to_set().contains(id) implies ids.to_set().contains(
        id,
    ) by {
        let place = choose|place: int|
            0 <= place < schedule.received.len() && schedule.received[place] == id;
        manifest_place_is_there(schedule.files, schedule.received[place]);
        let found = manifest_place(schedule.files, id)->0;
        assert(ids[found] == id);
    }
    vstd::set_lib::lemma_subset_equality(schedule.received.to_set(), ids.to_set());
    assert forall|place: int| 0 <= place < schedule.files.len() implies schedule.received.contains(
        (#[trigger] schedule.files[place]).file_id,
    ) by {
        assert(ids[place] == schedule.files[place].file_id);
        assert(ids.to_set().contains(ids[place]));
        assert(schedule.received.to_set().contains(ids[place]));
    }
}

/// Files are begun one after the other while fewer than four are on their way;
/// otherwise one of them has to end first, and all is done when each was begun
/// and none is on its way.
pub proof fn four_files_are_on_their_way_at_most(total: nat, begun: nat, running: nat)
    requires
        begun <= total <= usize::MAX,
    ensures
        scheduled(total, begun, running) matches ScheduleStep::Begin(place) ==> place == begun
            && begun < total && running < 4,
        begun < total && running < 4 ==> scheduled(total, begun, running) is Begin,
        running >= 4 ==> scheduled(total, begun, running) == ScheduleStep::Join,
        begun == total && running > 0 ==> scheduled(total, begun, running) == ScheduleStep::Join,
        scheduled(total, begun, running) == ScheduleStep::Done <==> begun == total && running == 0,
{
}

/// A file counts as done only when it has ended well, and then once. One that
/// took too long, or whose task broke down, fails as the network does, and one
/// that was not there is a wrong state.
pub proof fn only_a_good_end_counts(
    running: usize,
    direction: TransferDirection,
    joined: Joined,
)
    ensures
        joined_as(direction, joined) is Ok <==> joined matches Joined::Ended(Ok(_)),
        joined matches Joined::Ended(Ok(_)) && running > 0 ==> still_running(
            running,
            direction,
            joined,
        ) == running - 1,
        !(joined matches Joined::Ended(Ok(_))) ==> still_running(running, direction, joined)
            == running,
        joined matches Joined::Ended(Err(error)) ==> joined_as(direction, joined) == Err::<(), _>(
            error@,
        ),
        joined is TimedOut ==> (joined_as(direction, joined) matches Err(error) && error
            is Network),
        joined is Nothing ==> (joined_as(direction, joined) matches Err(error) && error
            is InvalidState),
        joined matches Joined::Crashed(reason) ==> (joined_as(direction, joined) matches Err(error)
            && error is Network && reason@.is_suffix_of(error->Network_0)),
{
    if let Joined::Crashed(reason) = joined {
        let front = "transfer task failed: "@;
        assert((front + reason@).subrange(
            front.len() as int,
            (front + reason@).len() as int,
        ) =~= reason@);
    }
}

/// A file is let in exactly where it was offered, was not begun yet, and the
/// request for it shows the authorization that was given. It is then the file
/// with that number, it counts as begun, its authorization is used up, and the
/// rest of the schedule is as it was.
pub proof fn only_an_authorized_file_is_let_in(
    schedule: ReceiveScheduleModel,
    open: OpenModel,
    now_ms: i64,
)
    requires
        schedule.sound(),
        schedule.running < 4,
    ensures
        schedule.opened(open, now_ms) is Ok <==> {
            &&& exists|place: int|
                0 <= place < schedule.files.len() && (#[trigger] schedule.files[place]).file_id
                    == open.file_id
            &&& !schedule.received.contains(open.file_id)
            &&& redeemable(schedule.grants, open, schedule.transfer_id, now_ms)
        },
        schedule.opened(open, now_ms) matches Ok((after, file)) ==> {
            &&& file.file_id == open.file_id
            &&& schedule.files.contains(file)
            &&& after.files == schedule.files
            &&& after.transfer_id == schedule.transfer_id
            &&& after.received == schedule.received.push(open.file_id)
            &&& after.running == schedule.running + 1
            &&& !redeemable(after.grants, open, after.transfer_id, now_ms)
            &&& forall|other: u64|
                other != open.file_id ==> (#[trigger] after.grants.contains_key(other)
                    <==> schedule.grants.contains_key(other)) && (schedule.grants.contains_key(
                    other,
                ) ==> after.grants[other] == schedule.grants[other])
        },
{
    manifest_place_is_there(schedule.files, open.file_id);
    if let Some(place) = manifest_place(schedule.files, open.file_id) {
        assert(schedule.files[place].file_id == open.file_id);
        assert(schedule.files.contains(schedule.files[place]));
    }
}

} // verus!

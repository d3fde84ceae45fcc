//! Transfers: their status, their files and the progress of both.

use super::peer::{NearbyPeer, PeerModel};
use crate::error::{ErrorModel, TransferError};
use crate::text::joined;
use vstd::prelude::*;
use vstd::string::*;

verus! {

#[derive(Debug, Clone, Copy, PartialEq, Eq, Structural)]
pub enum TransferDirection {
    Sending,
    Receiving,
}

#[derive(Debug, Clone, Copy, PartialEq, Eq, Structural)]
pub enum TransferStatus {
    Preparing,
    AwaitingApproval,
    Connecting,
    Transferring,
    Paused,
    Completed,
    Rejected,
    Cancelled,
    Failed,
}

impl TransferStatus {
    /// Whether a transfer in this status is over.
    pub open spec fn over(self) -> bool {
        self == TransferStatus::Completed || self == TransferStatus::Rejected || self
            == TransferStatus::Cancelled || self == TransferStatus::Failed
    }

    /// Whether progress may be recorded in this status.
    pub open spec fn active(self) -> bool {
        self == TransferStatus::Preparing || self == TransferStatus::Transferring || self
            == TransferStatus::Paused
    }

    /// Whether `next` may follow this status. A status may always be repeated.
    pub open spec fn may_become(self, next: TransferStatus) -> bool {
        ||| self == next
        ||| match self {
            TransferStatus::Preparing => next == TransferStatus::Connecting || next
                == TransferStatus::Cancelled || next == TransferStatus::Failed,
            TransferStatus::AwaitingApproval => next == TransferStatus::Connecting || next
                == TransferStatus::Rejected || next == TransferStatus::Cancelled || next
                == TransferStatus::Failed,
            TransferStatus::Connecting => next == TransferStatus::Transferring || next
                == TransferStatus::AwaitingApproval || next == TransferStatus::Cancelled || next
                == TransferStatus::Failed,
            TransferStatus::Transferring => next == TransferStatus::Paused || next
                == TransferStatus::Completed || next == TransferStatus::Cancelled || next
                == TransferStatus::Failed,
            TransferStatus::Paused => next == TransferStatus::Transferring || next
                == TransferStatus::Cancelled || next == TransferStatus::Failed,
            TransferStatus::Completed
            | TransferStatus::Rejected
            | TransferStatus::Cancelled
            | TransferStatus::Failed => false,
        }
    }

    /// The name of the status.
    pub open spec fn label(self) -> Seq<char> {
        match self {
            TransferStatus::Preparing => "Preparing"@,
            TransferStatus::AwaitingApproval => "AwaitingApproval"@,
            TransferStatus::Connecting => "Connecting"@,
            TransferStatus::Transferring => "Transferring"@,
            TransferStatus::Paused => "Paused"@,
            TransferStatus::Completed => "Completed"@,
            TransferStatus::Rejected => "Rejected"@,
            TransferStatus::Cancelled => "Cancelled"@,
            TransferStatus::Failed => "Failed"@,
        }
    }

    #[must_use]
    pub fn terminal(self) -> (terminal: bool)
        ensures
            terminal == self.over(),
    {
        matches!(
            self,
            TransferStatus::Completed | TransferStatus::Rejected | TransferStatus::Cancelled | TransferStatus::Failed
        )
    }

    fn name(self) -> (name: &'static str)
        ensures
            name@ == self.label(),
    {
        match self {
            TransferStatus::Preparing => "Preparing",
            TransferStatus::AwaitingApproval => "AwaitingApproval",
            TransferStatus::Connecting => "Connecting",
            TransferStatus::Transferring => "Transferring",
            TransferStatus::Paused => "Paused",
            TransferStatus::Completed => "Completed",
            TransferStatus::Rejected => "Rejected",
            TransferStatus::Cancelled => "Cancelled",
            TransferStatus::Failed => "Failed",
        }
    }
}

/// A transfer that is over stays as it ended.
pub proof fn terminal_status_is_final(status: TransferStatus, next: TransferStatus)
    requires
        status.over(),
        status.may_become(next),
    ensures
        next == status,
{
}

/// A transfer completes only out of `Transferring`, and reaches `Transferring`
/// only by way of `Connecting` or from a pause: approval cannot be skipped.
pub proof fn completion_follows_transferring(status: TransferStatus)
    ensures
        status.may_become(TransferStatus::Completed) ==> status == TransferStatus::Transferring
            || status == TransferStatus::Completed,
        status.may_become(TransferStatus::Transferring) ==> status == TransferStatus::Connecting
            || status == TransferStatus::Paused || status == TransferStatus::Transferring,
{
}

/// Every transfer that is not over can still be cancelled or fail.
pub proof fn live_transfer_can_stop(status: TransferStatus)
    requires
        !status.over(),
    ensures
        status.may_become(TransferStatus::Cancelled),
        status.may_become(TransferStatus::Failed),
{
}

#[derive(Debug, Clone, Copy, PartialEq, Eq, Structural)]
pub enum FileKind {
    Image,
    Pdf,
    Archive,
    File,
}

/// One file of a transfer.
#[derive(Debug, PartialEq, Eq)]
pub struct TransferFileView {
    pub id: u64,
    pub name: String,
    pub relative_path: String,
    /// Where the received file was finally stored, under its possibly changed name.
    pub local_path: Option<String>,
    pub receive_directory: Option<String>,
    pub size: u64,
    pub media_type: String,
    pub kind: FileKind,
    pub thumbnail_data_url: Option<String>,
    pub completed_bytes: u64,
}

/// The mathematical value of a [`TransferFileView`].
pub struct FileModel {
    pub id: u64,
    pub name: Seq<char>,
    pub relative_path: Seq<char>,
    pub local_path: Option<Seq<char>>,
    pub receive_directory: Option<Seq<char>>,
    pub size: u64,
    pub media_type: Seq<char>,
    pub kind: FileKind,
    pub thumbnail_data_url: Option<Seq<char>>,
    pub completed_bytes: u64,
}

/// The text that an optional string holds.
pub open spec fn optional_text(text: Option<String>) -> Option<Seq<char>> {
    match text {
        Some(text) => Some(text@),
        None => None,
    }
}

impl View for TransferFileView {
    type V = FileModel;

    open spec fn view(&self) -> FileModel {
        FileModel {
            id: self.id,
            name: self.name@,
            relative_path: self.relative_path@,
            local_path: optional_text(self.local_path),
            receive_directory: optional_text(self.receive_directory),
            size: self.size,
            media_type: self.media_type@,
            kind: self.kind,
            thumbnail_data_url: optional_text(self.thumbnail_data_url),
            completed_bytes: self.completed_bytes,
        }
    }
}

impl Clone for TransferFileView {
    fn clone(&self) -> (copy: Self)
        ensures
            copy@ == self@,
    {
        TransferFileView {
            id: self.id,
            name: self.name.clone(),
            relative_path: self.relative_path.clone(),
            local_path: self.local_path.clone(),
            receive_directory: self.receive_directory.clone(),
            size: self.size,
            media_type: self.media_type.clone(),
            kind: self.kind,
            thumbnail_data_url: self.thumbnail_data_url.clone(),
            completed_bytes: self.completed_bytes,
        }
    }
}

/// A transfer as it is shown and stored.
#[derive(Debug, PartialEq, Eq)]
pub struct TransferView {
    pub id: String,
    pub wire_id: u64,
    pub peer_id: String,
    pub peer_name: String,
    pub direction: TransferDirection,
    pub status: TransferStatus,
    pub files: Vec<TransferFileView>,
    pub total_bytes: u64,
    pub completed_bytes: u64,
    pub speed_bytes_per_second: u64,
    pub remaining_seconds: Option<u64>,
    pub error_message: Option<String>,
    pub created_at_ms: i64,
    pub updated_at_ms: i64,
}

/// The mathematical value of a [`TransferView`].
pub struct TransferModel {
    pub id: Seq<char>,
    pub wire_id: u64,
    pub peer_id: Seq<char>,
    pub peer_name: Seq<char>,
    pub direction: TransferDirection,
    pub status: TransferStatus,
    pub files: Seq<FileModel>,
    pub total_bytes: u64,
    pub completed_bytes: u64,
    pub speed_bytes_per_second: u64,
    pub remaining_seconds: Option<u64>,
    pub error_message: Option<Seq<char>>,
    pub created_at_ms: i64,
    pub updated_at_ms: i64,
}

/// The values of a list of files.
pub open spec fn file_models(files: Seq<TransferFileView>) -> Seq<FileModel> {
    files.map_values(|file: TransferFileView| file@)
}

impl View for TransferView {
    type V = TransferModel;

    open spec fn view(&self) -> TransferModel {
        TransferModel {
            id: self.id@,
            wire_id: self.wire_id,
            peer_id: self.peer_id@,
            peer_name: self.peer_name@,
            direction: self.direction,
            status: self.status,
            files: file_models(self.files@),
            total_bytes: self.total_bytes,
            completed_bytes: self.completed_bytes,
            speed_bytes_per_second: self.speed_bytes_per_second,
            remaining_seconds: self.remaining_seconds,
            error_message: optional_text(self.error_message),
            created_at_ms: self.created_at_ms,
            updated_at_ms: self.updated_at_ms,
        }
    }
}

impl Clone for TransferView {
    fn clone(&self) -> (copy: Self)
        ensures
            copy@ == self@,
    {
        let copy = TransferView {
            id: self.id.clone(),
            wire_id: self.wire_id,
            peer_id: self.peer_id.clone(),
            peer_name: self.peer_name.clone(),
            direction: self.direction,
            status: self.status,
            files: self.files.clone(),
            total_bytes: self.total_bytes,
            completed_bytes: self.completed_bytes,
            speed_bytes_per_second: self.speed_bytes_per_second,
            remaining_seconds: self.remaining_seconds,
            error_message: self.error_message.clone(),
            created_at_ms: self.created_at_ms,
            updated_at_ms: self.updated_at_ms,
        };
        assert(copy@.files =~= self@.files);
        copy
    }
}

/// The place of the first file with that id.
pub open spec fn first_file(files: Seq<FileModel>, id: u64) -> Option<int>
    decreases files.len(),
{
    if files.len() == 0 {
        None
    } else {
        match first_file(files.drop_last(), id) {
            Some(place) => Some(place),
            None => if files.last().id == id {
                Some(files.len() - 1)
            } else {
                None
            },
        }
    }
}

/// The place of the file that an id means: files are numbered from one in
/// order, and only where that slot holds another id is the list searched.
pub open spec fn file_place(files: Seq<FileModel>, id: u64) -> Option<int> {
    let slot = if id == 0 {
        0
    } else {
        id - 1
    };
    if slot < files.len() && files[slot].id == id {
        Some(slot)
    } else {
        first_file(files, id)
    }
}

/// The bytes that all files together have.
pub open spec fn sizes_total(files: Seq<FileModel>) -> int
    decreases files.len(),
{
    if files.len() == 0 {
        0
    } else {
        sizes_total(files.drop_last()) + files.last().size
    }
}

/// The bytes that all files together have completed.
pub open spec fn completed_total(files: Seq<FileModel>) -> int
    decreases files.len(),
{
    if files.len() == 0 {
        0
    } else {
        completed_total(files.drop_last()) + files.last().completed_bytes
    }
}

impl TransferModel {
    /// The transfer after a change of status.
    pub open spec fn transitioned(self, next: TransferStatus, now_ms: i64) -> Result<
        TransferModel,
        ErrorModel,
    > {
        if self.status.may_become(next) {
            Ok(TransferModel { status: next, updated_at_ms: now_ms, ..self })
        } else {
            Err(
                ErrorModel::InvalidState(
                    "cannot transition "@ + self.status.label() + " to "@ + next.label(),
                ),
            )
        }
    }

    /// The transfer after a file's progress, and whether that file is finished.
    pub open spec fn progressed(self, file_id: u64, completed: u64, now_ms: i64) -> Result<
        (TransferModel, bool),
        ErrorModel,
    > {
        if !self.status.active() {
            Err(ErrorModel::InvalidState("transfer is not active"@))
        } else {
            match file_place(self.files, file_id) {
                None => Err(ErrorModel::Invalid("unknown file id"@)),
                Some(place) => {
                    let file = self.files[place];
                    if completed < file.completed_bytes || completed > file.size {
                        Err(ErrorModel::Invalid("invalid file progress"@))
                    } else {
                        Ok(
                            (
                                TransferModel {
                                    completed_bytes: (self.completed_bytes + completed
                                        - file.completed_bytes) as u64,
                                    files: self.files.update(
                                        place,
                                        FileModel { completed_bytes: completed, ..file },
                                    ),
                                    updated_at_ms: now_ms,
                                    ..self
                                },
                                completed == file.size,
                            ),
                        )
                    }
                },
            }
        }
    }

    /// Whether the completed bytes after a file's progress can be counted.
    pub open spec fn progress_fits(self, file_id: u64, completed: u64) -> bool {
        self.status.active() && file_place(self.files, file_id) is Some ==> {
            let file = self.files[file_place(self.files, file_id)->0];
            file.completed_bytes <= completed <= file.size ==> self.completed_bytes + completed
                - file.completed_bytes <= u64::MAX
        }
    }

    /// The books of the transfer balance: the totals are those of its files,
    /// and no file has completed more than it holds.
    pub open spec fn accounted(self) -> bool {
        &&& self.total_bytes == sizes_total(self.files)
        &&& self.completed_bytes == completed_total(self.files)
        &&& forall|place: int|
            0 <= place < self.files.len() ==> (#[trigger] self.files[place]).completed_bytes
                <= self.files[place].size
    }
}

/// What [`first_file`] finds, and what it means that it finds nothing.
pub proof fn first_file_is_first(files: Seq<FileModel>, id: u64)
    ensures
        match first_file(files, id) {
            Some(place) => {
                &&& 0 <= place < files.len()
                &&& files[place].id == id
                &&& forall|earlier: int|
                    0 <= earlier < place ==> (#[trigger] files[earlier]).id != id
            },
            None => forall|place: int|
                0 <= place < files.len() ==> (#[trigger] files[place]).id != id,
        },
    decreases files.len(),
{
    if files.len() > 0 {
        let shorter = files.drop_last();
        first_file_is_first(shorter, id);
        assert forall|place: int| 0 <= place < shorter.len() implies shorter[place]
            == #[trigger] files[place] by {}
    }
}

proof fn totals_after_update(files: Seq<FileModel>, place: int, file: FileModel)
    requires
        0 <= place < files.len(),
    ensures
        sizes_total(files.update(place, file)) == sizes_total(files) - files[place].size
            + file.size,
        completed_total(files.update(place, file)) == completed_total(files)
            - files[place].completed_bytes + file.completed_bytes,
    decreases files.len(),
{
    let updated = files.update(place, file);
    if place == files.len() - 1 {
        assert(updated.drop_last() =~= files.drop_last());
    } else {
        totals_after_update(files.drop_last(), place, file);
        assert(updated.drop_last() =~= files.drop_last().update(place, file));
    }
}

proof fn completed_within_sizes(files: Seq<FileModel>)
    requires
        forall|place: int|
            0 <= place < files.len() ==> (#[trigger] files[place]).completed_bytes
                <= files[place].size,
    ensures
        0 <= completed_total(files) <= sizes_total(files),
    decreases files.len(),
{
    if files.len() > 0 {
        assert forall|place: int| 0 <= place < files.drop_last().len() implies (
        #[trigger] files.drop_last()[place]).completed_bytes <= files.drop_last()[place].size by {
            assert(files.drop_last()[place] == files[place]);
        }
        completed_within_sizes(files.drop_last());
        assert(files.last() == files[files.len() - 1]);
    }
}

/// A transfer whose books balance has completed its total exactly when it has
/// completed every file.
pub proof fn totals_meet_with_every_file(transfer: TransferModel)
    requires
        transfer.accounted(),
    ensures
        transfer.completed_bytes == transfer.total_bytes <==> forall|place: int|
            0 <= place < transfer.files.len() ==> (
            #[trigger] transfer.files[place]).completed_bytes == transfer.files[place].size,
{
    equal_totals_are_equal_everywhere(transfer.files);
}

proof fn equal_totals_are_equal_everywhere(files: Seq<FileModel>)
    requires
        forall|place: int|
            0 <= place < files.len() ==> (#[trigger] files[place]).completed_bytes
                <= files[place].size,
    ensures
        completed_total(files) == sizes_total(files) <==> forall|place: int|
            0 <= place < files.len() ==> (#[trigger] files[place]).completed_bytes
                == files[place].size,
    decreases files.len(),
{
    if files.len() > 0 {
        let front = files.drop_last();
        assert forall|place: int| 0 <= place < front.len() implies #[trigger] front[place]
            == files[place] by {}
        completed_within_sizes(front);
        equal_totals_are_equal_everywhere(front);
        assert(files.last() == files[files.len() - 1]);
        if completed_total(files) == sizes_total(files) {
            assert forall|place: int| 0 <= place < files.len() implies (
            #[trigger] files[place]).completed_bytes == files[place].size by {
                if place < front.len() {
                    assert(front[place].completed_bytes == front[place].size);
                }
            }
        } else if forall|place: int|
            0 <= place < files.len() ==> (#[trigger] files[place]).completed_bytes
                == files[place].size {
            assert forall|place: int| 0 <= place < front.len() implies (
            #[trigger] front[place]).completed_bytes == front[place].size by {
                assert(files[place].completed_bytes == files[place].size);
            }
        }
    }
}

/// A transfer whose books balance never completes more than its total.
pub proof fn completed_never_exceeds_total(transfer: TransferModel)
    requires
        transfer.accounted(),
    ensures
        transfer.completed_bytes <= transfer.total_bytes,
{
    completed_within_sizes(transfer.files);
}

/// Where the books balance, progress can be counted, and they balance again
/// afterwards; the completed bytes never go back.
pub proof fn progress_keeps_the_books(
    transfer: TransferModel,
    file_id: u64,
    completed: u64,
    now_ms: i64,
)
    requires
        transfer.accounted(),
    ensures
        transfer.progress_fits(file_id, completed),
        transfer.progressed(file_id, completed, now_ms) matches Ok((after, finished)) ==> {
            &&& after.accounted()
            &&& after.completed_bytes >= transfer.completed_bytes
            &&& after.completed_bytes <= after.total_bytes
            &&& after.total_bytes == transfer.total_bytes
        },
{
    first_file_is_first(transfer.files, file_id);
    if transfer.status.active() && file_place(transfer.files, file_id) is Some {
        let place = file_place(transfer.files, file_id)->0;
        let file = transfer.files[place];
        if file.completed_bytes <= completed <= file.size {
            let updated = FileModel { completed_bytes: completed, ..file };
            let files = transfer.files.update(place, updated);
            totals_after_update(transfer.files, place, updated);
            assert forall|other: int| 0 <= other < files.len() implies (
            #[trigger] files[other]).completed_bytes <= files[other].size by {
                if other != place {
                    assert(files[other] == transfer.files[other]);
                }
            }
            completed_within_sizes(files);
        }
    }
}

/// A change of status leaves the books alone.
pub proof fn transition_keeps_the_books(
    transfer: TransferModel,
    next: TransferStatus,
    now_ms: i64,
)
    requires
        transfer.accounted(),
    ensures
        transfer.transitioned(next, now_ms) matches Ok(after) ==> after.accounted(),
{
}

impl TransferView {
    /// Moves the transfer to `next`, if that status may follow the present one.
    pub fn transition(&mut self, next: TransferStatus, now_ms: i64) -> (result: Result<
        (),
        TransferError,
    >)
        ensures
            match result {
                Ok(()) => old(self)@.transitioned(next, now_ms) == Ok::<_, ErrorModel>(
                    final(self)@,
                ),
                Err(error) => {
                    &&& old(self)@.transitioned(next, now_ms) == Err::<TransferModel, _>(error@)
                    &&& *final(self) == *old(self)
                },
            },
    {
        let allowed = matches!(
            (self.status, next),
            (TransferStatus::Preparing, TransferStatus::Connecting)
                | (TransferStatus::Preparing, TransferStatus::Cancelled)
                | (TransferStatus::Preparing, TransferStatus::Failed)
                | (TransferStatus::AwaitingApproval, TransferStatus::Connecting)
                | (TransferStatus::AwaitingApproval, TransferStatus::Rejected)
                | (TransferStatus::AwaitingApproval, TransferStatus::Cancelled)
                | (TransferStatus::AwaitingApproval, TransferStatus::Failed)
                | (TransferStatus::Connecting, TransferStatus::Transferring)
                | (TransferStatus::Connecting, TransferStatus::AwaitingApproval)
                | (TransferStatus::Connecting, TransferStatus::Cancelled)
                | (TransferStatus::Connecting, TransferStatus::Failed)
                | (TransferStatus::Transferring, TransferStatus::Paused)
                | (TransferStatus::Transferring, TransferStatus::Completed)
                | (TransferStatus::Transferring, TransferStatus::Cancelled)
                | (TransferStatus::Transferring, TransferStatus::Failed)
                | (TransferStatus::Paused, TransferStatus::Transferring)
                | (TransferStatus::Paused, TransferStatus::Cancelled)
                | (TransferStatus::Paused, TransferStatus::Failed)
        );
        if !allowed && self.status != next {
            let text = joined("cannot transition ", self.status.name()).concat(" to ").concat(
                next.name(),
            );
            return Err(TransferError::InvalidState(text));
        }
        self.status = next;
        self.updated_at_ms = now_ms;
        Ok(())
    }

    /// The place of the file that an id means.
    pub(crate) fn find_file(&self, file_id: u64) -> (place: Option<usize>)
        ensures
            match place {
                Some(place) => file_place(self@.files, file_id) == Some(place as int) && place
                    < self.files@.len(),
                None => file_place(self@.files, file_id) is None,
            },
    {
        let slot = if file_id == 0 {
            0
        } else {
            file_id - 1
        };
        if slot < self.files.len() as u64 {
            let slot = slot as usize;
            if self.files[slot].id == file_id {
                return Some(slot);
            }
        }
        let mut place: usize = 0;
        while place < self.files.len()
            invariant
                place <= self.files@.len(),
                file_place(self@.files, file_id) == first_file(self@.files, file_id),
                first_file(self@.files.take(place as int), file_id) is None,
            decreases self.files@.len() - place,
        {
            proof {
                assert(self@.files.take(place + 1).drop_last() =~= self@.files.take(place as int));
                assert(self@.files.take(place + 1).last() == self.files@[place as int]@);
            }
            if self.files[place].id == file_id {
                proof {
                    first_file_extends(self@.files, file_id, place + 1);
                }
                return Some(place);
            }
            place += 1;
        }
        proof {
            assert(self@.files.take(self@.files.len() as int) =~= self@.files);
        }
        None
    }

    /// Records that a file has completed that many bytes, and says whether the
    /// file is finished.
    pub fn record_progress(&mut self, file_id: u64, completed: u64, now_ms: i64) -> (result: Result<
        bool,
        TransferError,
    >)
        requires
            old(self)@.progress_fits(file_id, completed),
        ensures
            match result {
                Ok(finished) => old(self)@.progressed(file_id, completed, now_ms) == Ok::<
                    _,
                    ErrorModel,
                >((final(self)@, finished)),
                Err(error) => {
                    &&& old(self)@.progressed(file_id, completed, now_ms) == Err::<
                        (TransferModel, bool),
                        _,
                    >(error@)
                    &&& *final(self) == *old(self)
                },
            },
    {
        if !matches!(
            self.status,
            TransferStatus::Preparing | TransferStatus::Transferring | TransferStatus::Paused
        ) {
            return Err(TransferError::invalid_state("transfer is not active"));
        }
        let place = match self.find_file(file_id) {
            Some(place) => place,
            None => {
                return Err(TransferError::invalid("unknown file id"));
            },
        };
        let before = self.files[place].completed_bytes;
        let size = self.files[place].size;
        if completed < before || completed > size {
            return Err(TransferError::invalid("invalid file progress"));
        }
        self.completed_bytes = self.completed_bytes + (completed - before);
        self.files[place].completed_bytes = completed;
        self.updated_at_ms = now_ms;
        assert(self@.files =~= old(self)@.files.update(
            place as int,
            FileModel { completed_bytes: completed, ..old(self)@.files[place as int] },
        ));
        Ok(completed == size)
    }
}

/// What is found first in a front part of the list is found first in the whole.
pub(crate) proof fn first_file_extends(files: Seq<FileModel>, id: u64, length: int)
    requires
        0 <= length <= files.len(),
        first_file(files.take(length), id) is Some,
    ensures
        first_file(files, id) == first_file(files.take(length), id),
    decreases files.len(),
{
    if length == files.len() {
        assert(files.take(length) =~= files);
    } else {
        assert(files.drop_last().take(length) =~= files.take(length));
        first_file_extends(files.drop_last(), id, length);
    }
}

/// Everything a view of the service shows.
#[derive(Debug, PartialEq, Eq, Default)]
pub struct TransferSnapshot {
    pub revision: u64,
    pub device_id: String,
    pub device_name: String,
    pub receive_directory: String,
    pub discoverable: bool,
    pub peers: Vec<NearbyPeer>,
    pub transfers: Vec<TransferView>,
}

/// The mathematical value of a [`TransferSnapshot`].
pub struct SnapshotModel {
    pub revision: u64,
    pub device_id: Seq<char>,
    pub device_name: Seq<char>,
    pub receive_directory: Seq<char>,
    pub discoverable: bool,
    pub peers: Seq<PeerModel>,
    pub transfers: Seq<TransferModel>,
}

/// The values of a list of peers.
pub open spec fn peer_models(peers: Seq<NearbyPeer>) -> Seq<PeerModel> {
    peers.map_values(|peer: NearbyPeer| peer@)
}

/// The values of a list of transfers.
pub open spec fn transfer_models(transfers: Seq<TransferView>) -> Seq<TransferModel> {
    transfers.map_values(|transfer: TransferView| transfer@)
}

impl View for TransferSnapshot {
    type V = SnapshotModel;

    open spec fn view(&self) -> SnapshotModel {
        SnapshotModel {
            revision: self.revision,
            device_id: self.device_id@,
            device_name: self.device_name@,
            receive_directory: self.receive_directory@,
            discoverable: self.discoverable,
            peers: peer_models(self.peers@),
            transfers: transfer_models(self.transfers@),
        }
    }
}

impl Clone for TransferSnapshot {
    fn clone(&self) -> (copy: Self)
        ensures
            copy@ == self@,
    {
        let copy = TransferSnapshot {
            revision: self.revision,
            device_id: self.device_id.clone(),
            device_name: self.device_name.clone(),
            receive_directory: self.receive_directory.clone(),
            discoverable: self.discoverable,
            peers: self.peers.clone(),
            transfers: self.transfers.clone(),
        };
        assert(copy@.peers =~= self@.peers);
        assert(copy@.transfers =~= self@.transfers);
        copy
    }
}

/// The completed bytes of one file.
#[derive(Debug, Clone, Copy, PartialEq, Eq, Structural)]
pub struct TransferFileProgress {
    pub id: u64,
    pub completed_bytes: u64,
}

/// What changed in one transfer since the last event about it.
#[derive(Debug, PartialEq, Eq)]
pub struct TransferProgress {
    pub revision: u64,
    pub base_revision: u64,
    pub transfer_id: String,
    pub completed_bytes: u64,
    pub speed_bytes_per_second: u64,
    pub remaining_seconds: Option<u64>,
    pub updated_at_ms: i64,
    pub files: Vec<TransferFileProgress>,
}

/// The mathematical value of a [`TransferProgress`].
pub struct ProgressModel {
    pub revision: u64,
    pub base_revision: u64,
    pub transfer_id: Seq<char>,
    pub completed_bytes: u64,
    pub speed_bytes_per_second: u64,
    pub remaining_seconds: Option<u64>,
    pub updated_at_ms: i64,
    pub files: Seq<TransferFileProgress>,
}

impl View for TransferProgress {
    type V = ProgressModel;

    open spec fn view(&self) -> ProgressModel {
        ProgressModel {
            revision: self.revision,
            base_revision: self.base_revision,
            transfer_id: self.transfer_id@,
            completed_bytes: self.completed_bytes,
            speed_bytes_per_second: self.speed_bytes_per_second,
            remaining_seconds: self.remaining_seconds,
            updated_at_ms: self.updated_at_ms,
            files: self.files@,
        }
    }
}

/// What a subscriber is told.
#[derive(Debug, PartialEq, Eq)]
pub enum TransferEvent {
    Snapshot { snapshot: TransferSnapshot, base_revision: u64 },
    Progress(TransferProgress),
    Error { message: String },
}

/// The mathematical value of a [`TransferEvent`].
pub enum EventModel {
    Snapshot { snapshot: SnapshotModel, base_revision: u64 },
    Progress(ProgressModel),
    Error { message: Seq<char> },
}

impl View for TransferEvent {
    type V = EventModel;

    open spec fn view(&self) -> EventModel {
        match self {
            TransferEvent::Snapshot { snapshot, base_revision } => EventModel::Snapshot {
                snapshot: snapshot@,
                base_revision: *base_revision,
            },
            TransferEvent::Progress(progress) => EventModel::Progress(progress@),
            TransferEvent::Error { message } => EventModel::Error { message: message@ },
        }
    }
}

/// A transfer is over exactly when no other status can follow.
pub proof fn over_means_nothing_follows(status: TransferStatus)
    ensures
        status.over() <==> forall|next: TransferStatus|
            status.may_become(next) ==> next == status,
{
    if !status.over() {
        assert(status.may_become(TransferStatus::Cancelled));
    }
}

/// From where each status is reached: a transfer is never prepared again, asks
/// for approval after it has connected, connects once it is prepared or
/// approved, moves files once it is connected or goes on after a pause, pauses
/// only while it moves files, is rejected only while it asks, and is cancelled
/// or fails at any time before it is over.
pub proof fn statuses_follow_their_causes(status: TransferStatus)
    ensures
        status.may_become(TransferStatus::Preparing) <==> status == TransferStatus::Preparing,
        status.may_become(TransferStatus::AwaitingApproval) <==> status
            == TransferStatus::Connecting || status == TransferStatus::AwaitingApproval,
        status.may_become(TransferStatus::Connecting) <==> status == TransferStatus::Preparing
            || status == TransferStatus::AwaitingApproval || status == TransferStatus::Connecting,
        status.may_become(TransferStatus::Transferring) <==> status == TransferStatus::Connecting
            || status == TransferStatus::Paused || status == TransferStatus::Transferring,
        status.may_become(TransferStatus::Paused) <==> status == TransferStatus::Transferring
            || status == TransferStatus::Paused,
        status.may_become(TransferStatus::Completed) <==> status == TransferStatus::Transferring
            || status == TransferStatus::Completed,
        status.may_become(TransferStatus::Rejected) <==> status == TransferStatus::AwaitingApproval
            || status == TransferStatus::Rejected,
        status.may_become(TransferStatus::Cancelled) <==> status != TransferStatus::Completed
            && status != TransferStatus::Rejected && status != TransferStatus::Failed,
        status.may_become(TransferStatus::Failed) <==> status != TransferStatus::Completed
            && status != TransferStatus::Rejected && status != TransferStatus::Cancelled,
{
}

/// A change of status sets the status and the time of the change, and nothing
/// else; and it is refused only where the status cannot follow.
pub proof fn transition_changes_the_status_alone(
    transfer: TransferModel,
    next: TransferStatus,
    now_ms: i64,
)
    ensures
        transfer.transitioned(next, now_ms) is Ok <==> transfer.status.may_become(next),
        transfer.transitioned(next, now_ms) matches Ok(after) ==> {
            &&& after.status == next
            &&& after.updated_at_ms == now_ms
            &&& (TransferModel {
                status: transfer.status,
                updated_at_ms: transfer.updated_at_ms,
                ..after
            }) == transfer
        },
        transfer.transitioned(next, now_ms) matches Err(error) ==> error
            == ErrorModel::InvalidState(
            "cannot transition "@ + transfer.status.label() + " to "@ + next.label(),
        ),
{
}

/// Each status is called by its own name.
pub proof fn statuses_have_names()
    ensures
        TransferStatus::Preparing.label() == "Preparing"@,
        TransferStatus::AwaitingApproval.label() == "AwaitingApproval"@,
        TransferStatus::Connecting.label() == "Connecting"@,
        TransferStatus::Transferring.label() == "Transferring"@,
        TransferStatus::Paused.label() == "Paused"@,
        TransferStatus::Completed.label() == "Completed"@,
        TransferStatus::Rejected.label() == "Rejected"@,
        TransferStatus::Cancelled.label() == "Cancelled"@,
        TransferStatus::Failed.label() == "Failed"@,
        forall|status: TransferStatus, other: TransferStatus|
            #[trigger] status.label() == #[trigger] other.label() ==> status == other,
{
    reveal_strlit("Preparing");
    reveal_strlit("AwaitingApproval");
    reveal_strlit("Connecting");
    reveal_strlit("Transferring");
    reveal_strlit("Paused");
    reveal_strlit("Completed");
    reveal_strlit("Rejected");
    reveal_strlit("Cancelled");
    reveal_strlit("Failed");
    assert("Preparing"@[1] == 'r');
    assert("Paused"@[1] == 'a');
    assert("Connecting"@[1] == 'o' && "Connecting"@[2] == 'n');
    assert("Completed"@[1] == 'o' && "Completed"@[2] == 'm');
    assert("Cancelled"@[1] == 'a');
    assert("Preparing"@[0] == 'P' && "Paused"@[0] == 'P');
    assert("Connecting"@[0] == 'C' && "Completed"@[0] == 'C' && "Cancelled"@[0] == 'C');
    assert("AwaitingApproval"@[0] == 'A' && "Transferring"@[0] == 'T' && "Rejected"@[0] == 'R'
        && "Failed"@[0] == 'F');
}

/// Progress is noted in the one entry with the number of the file and added to
/// the count of the whole transfer. It is taken while the transfer is prepared,
/// moves files or is paused, where it does not go back and does not exceed the
/// size of the file; the file is finished when all of it is completed.
pub proof fn progress_reaches_its_file_alone(
    transfer: TransferModel,
    file_id: u64,
    completed: u64,
    now_ms: i64,
)
    requires
        transfer.accounted(),
    ensures
        transfer.progressed(file_id, completed, now_ms) matches Ok((after, finished)) ==> {
            &&& transfer.status == TransferStatus::Preparing || transfer.status
                == TransferStatus::Transferring || transfer.status == TransferStatus::Paused
            &&& after.files.len() == transfer.files.len()
            &&& after.updated_at_ms == now_ms
            &&& (TransferModel {
                files: transfer.files,
                completed_bytes: transfer.completed_bytes,
                updated_at_ms: transfer.updated_at_ms,
                ..after
            }) == transfer
            &&& exists|place: int|
                {
                    &&& 0 <= place < transfer.files.len()
                    &&& (#[trigger] transfer.files[place]).id == file_id
                    &&& transfer.files[place].completed_bytes <= completed
                        <= transfer.files[place].size
                    &&& finished == (completed == transfer.files[place].size)
                    &&& after.files[place].completed_bytes == completed
                    &&& (FileModel {
                        completed_bytes: transfer.files[place].completed_bytes,
                        ..after.files[place]
                    }) == transfer.files[place]
                    &&& after.completed_bytes - transfer.completed_bytes == completed
                        - transfer.files[place].completed_bytes
                    &&& forall|other: int|
                        0 <= other < transfer.files.len() && other != place
                            ==> #[trigger] after.files[other] == transfer.files[other]
                }
        },
        forall|place: int|
            {
                &&& 0 <= place < transfer.files.len()
                &&& (#[trigger] transfer.files[place]).id == file_id
                &&& transfer.files[place].completed_bytes <= completed <= transfer.files[place].size
                &&& transfer.status == TransferStatus::Preparing || transfer.status
                    == TransferStatus::Transferring || transfer.status == TransferStatus::Paused
                &&& forall|other: int|
                    0 <= other < transfer.files.len() && other != place ==> (
                    #[trigger] transfer.files[other]).id != file_id
            } ==> transfer.progressed(file_id, completed, now_ms) is Ok,
{
    first_file_is_first(transfer.files, file_id);
    progress_keeps_the_books(transfer, file_id, completed, now_ms);
    if let Ok((after, finished)) = transfer.progressed(file_id, completed, now_ms) {
        let place = file_place(transfer.files, file_id)->0;
        assert(transfer.files[place].id == file_id);
    }
    assert forall|place: int|
        {
            &&& 0 <= place < transfer.files.len()
            &&& (#[trigger] transfer.files[place]).id == file_id
            &&& transfer.files[place].completed_bytes <= completed <= transfer.files[place].size
            &&& transfer.status == TransferStatus::Preparing || transfer.status
                == TransferStatus::Transferring || transfer.status == TransferStatus::Paused
            &&& forall|other: int|
                0 <= other < transfer.files.len() && other != place ==> (
                #[trigger] transfer.files[other]).id != file_id
        } implies transfer.progressed(file_id, completed, now_ms) is Ok by {
        if let Some(found) = file_place(transfer.files, file_id) {
            assert(transfer.files[found].id == file_id);
            assert(found == place);
        }
    }
}

/// A file adds its size to that of all files, and what it has completed to what
/// all have completed.
pub proof fn each_file_counts_once(files: Seq<FileModel>, file: FileModel)
    ensures
        sizes_total(Seq::empty()) == 0,
        completed_total(Seq::empty()) == 0,
        sizes_total(files.push(file)) - sizes_total(files) == file.size,
        completed_total(files.push(file)) - completed_total(files) == file.completed_bytes,
{
    assert(files.push(file).drop_last() =~= files);
}

} // verus!

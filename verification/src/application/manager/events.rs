//! What the events tell: someone who holds what was shown in full and takes in
//! every progress event sees what the service sees.

use super::{first_transfer, marked, ManagerModel};
use crate::domain::transfer::{
    file_place, FileModel, ProgressModel, SnapshotModel, TransferModel,
};
use crate::domain::TransferFileProgress;
use vstd::prelude::*;

verus! {

/// The completed bytes that a list tells of a file, if it tells any.
pub open spec fn told_of(list: Seq<TransferFileProgress>, id: u64) -> Option<u64>
    decreases list.len(),
{
    if list.len() == 0 {
        None
    } else if list[0].id == id {
        Some(list[0].completed_bytes)
    } else {
        told_of(list.skip(1), id)
    }
}

/// A file as one sees it who is told a list.
pub open spec fn seen_file(file: FileModel, list: Seq<TransferFileProgress>) -> FileModel {
    match told_of(list, file.id) {
        Some(completed_bytes) => FileModel { completed_bytes, ..file },
        None => file,
    }
}

/// Files as one sees them who is told a list.
pub open spec fn seen_files(files: Seq<FileModel>, list: Seq<TransferFileProgress>) -> Seq<
    FileModel,
> {
    files.map_values(|file: FileModel| seen_file(file, list))
}

/// What someone sees after a progress event, who saw `shown` before.
pub open spec fn applied(shown: SnapshotModel, progress: ProgressModel) -> SnapshotModel {
    let transfers = match first_transfer(shown.transfers, progress.transfer_id) {
        Some(place) => shown.transfers.update(
            place,
            TransferModel {
                completed_bytes: progress.completed_bytes,
                speed_bytes_per_second: progress.speed_bytes_per_second,
                remaining_seconds: progress.remaining_seconds,
                updated_at_ms: progress.updated_at_ms,
                files: seen_files(shown.transfers[place].files, progress.files),
                ..shown.transfers[place]
            },
        ),
        None => shown.transfers,
    };
    SnapshotModel { revision: progress.revision, transfers, ..shown }
}

impl ManagerModel {
    /// The files of a transfer that have moved since its progress was told.
    pub open spec fn untold(self, id: Seq<char>) -> Seq<TransferFileProgress> {
        if self.emissions.contains_key(id) {
            self.emissions[id].dirty
        } else {
            Seq::empty()
        }
    }
}

/// Whether someone who sees a transfer as `shown` lags behind `actual` by what
/// has not been told, and by no more.
pub open spec fn lags_by(
    shown: TransferModel,
    actual: TransferModel,
    untold: Seq<TransferFileProgress>,
) -> bool {
    &&& actual == (TransferModel {
        completed_bytes: actual.completed_bytes,
        speed_bytes_per_second: actual.speed_bytes_per_second,
        remaining_seconds: actual.remaining_seconds,
        updated_at_ms: actual.updated_at_ms,
        files: seen_files(shown.files, untold),
        ..shown
    })
    &&& untold.len() == 0 ==> shown == actual
}

/// Whether someone who sees `shown` sees what the service sees, up to the
/// progress that has not been told yet.
pub open spec fn in_step(manager: ManagerModel, shown: SnapshotModel) -> bool {
    &&& manager.state == (SnapshotModel { transfers: manager.state.transfers, ..shown })
    &&& shown.transfers.len() == manager.state.transfers.len()
    &&& forall|place: int|
        0 <= place < shown.transfers.len() ==> lags_by(
            #[trigger] shown.transfers[place],
            manager.state.transfers[place],
            manager.untold(manager.state.transfers[place].id),
        )
}

/// No two transfers have the same identifier.
pub open spec fn distinct_transfers(transfers: Seq<TransferModel>) -> bool {
    forall|left: int, right: int|
        0 <= left < right < transfers.len() ==> (#[trigger] transfers[left]).id != (
        #[trigger] transfers[right]).id
}

/// No two files of a transfer have the same number.
pub open spec fn distinct_files(files: Seq<FileModel>) -> bool {
    forall|left: int, right: int|
        0 <= left < right < files.len() ==> (#[trigger] files[left]).id != (
        #[trigger] files[right]).id
}

proof fn marked_tells(
    dirty: Seq<TransferFileProgress>,
    file_id: u64,
    completed: u64,
    other: u64,
)
    ensures
        told_of(marked(dirty, file_id, completed), other) == (if other == file_id {
            Some(completed)
        } else {
            told_of(dirty, other)
        }),
        marked(dirty, file_id, completed).len() > 0,
    decreases dirty.len(),
{
    reveal_with_fuel(told_of, 2);
    let entry = TransferFileProgress { id: file_id, completed_bytes: completed };
    if dirty.len() == 0 {
        assert(seq![entry].skip(1) =~= Seq::empty());
    } else if dirty[0].id == file_id {
        assert((seq![entry] + dirty.skip(1)).skip(1) =~= dirty.skip(1));
    } else {
        marked_tells(dirty.skip(1), file_id, completed, other);
        let rest = marked(dirty.skip(1), file_id, completed);
        assert((seq![dirty[0]] + rest).skip(1) =~= rest);
    }
}

/// Someone who has just been shown everything, while nothing is left to tell,
/// is in step.
pub proof fn full_view_is_in_step(manager: ManagerModel)
    requires
        forall|id: Seq<char>| #[trigger] manager.untold(id) == Seq::<TransferFileProgress>::empty(),
    ensures
        in_step(manager, manager.state),
{
    assert forall|place: int| 0 <= place < manager.state.transfers.len() implies lags_by(
        #[trigger] manager.state.transfers[place],
        manager.state.transfers[place],
        manager.untold(manager.state.transfers[place].id),
    ) by {
        let files = manager.state.transfers[place].files;
        assert(seen_files(files, Seq::empty()) =~= files);
    }
}

/// Someone who is in step stays so while progress is recorded: where nothing
/// is told, without doing anything, and where an event is told, by taking it
/// in. An event brings its transfer fully up to date, and follows on the
/// revision before it.
pub proof fn progress_events_keep_in_step(
    manager: ManagerModel,
    shown: SnapshotModel,
    id: Seq<char>,
    file_id: u64,
    completed: u64,
    now: u64,
    now_ms: i64,
    speed: spec_fn(u64) -> u64,
)
    requires
        in_step(manager, shown),
        distinct_transfers(manager.state.transfers),
        forall|place: int|
            0 <= place < manager.state.transfers.len() ==> distinct_files(
                (#[trigger] manager.state.transfers[place]).files,
            ),
    ensures
        manager.progressed(id, file_id, completed, now, now_ms, speed) matches Ok((after, told))
            ==> match told {
            None => in_step(after, shown),
            Some(progress) => {
                &&& in_step(after, applied(shown, progress))
                &&& progress.base_revision == manager.base_revision
                &&& progress.revision == super::next_revision(shown.revision)
                &&& first_transfer(after.state.transfers, id) matches Some(place)
                    && applied(shown, progress).transfers[place] == after.state.transfers[place]
            },
        },
{
    super::first_transfer_is_first(manager.state.transfers, id);
    if let Ok((after, told)) = manager.progressed(id, file_id, completed, now, now_ms, speed) {
        let place = first_transfer(manager.state.transfers, id)->0;
        let actual = manager.state.transfers[place];
        let moved = after.state.transfers[place];
        let seen = shown.transfers[place];
        let before = manager.untold(id);
        let dirty = marked(before, file_id, completed);
        assert(lags_by(seen, actual, before));
        assert(distinct_files(actual.files));
        crate::domain::transfer::first_file_is_first(actual.files, file_id);
        let slot = file_place(actual.files, file_id)->0;
        assert(actual.files[slot].id == file_id);
        assert(moved.files == actual.files.update(
            slot,
            FileModel { completed_bytes: completed, ..actual.files[slot] },
        ));
        assert forall|file: int| 0 <= file < seen.files.len() implies seen_file(
            #[trigger] seen.files[file],
            dirty,
        ) == moved.files[file] by {
            assert(seen_files(seen.files, before)[file] == actual.files[file]);
            assert(seen.files[file].id == actual.files[file].id);
            marked_tells(before, file_id, completed, seen.files[file].id);
            if seen.files[file].id == file_id {
                if file < slot {
                    assert(actual.files[file].id != actual.files[slot].id);
                } else if slot < file {
                    assert(actual.files[slot].id != actual.files[file].id);
                }
            }
        }
        marked_tells(before, file_id, completed, file_id);
        assert(seen_files(seen.files, dirty) =~= moved.files);
        assert forall|other: int| 0 <= other < manager.state.transfers.len() && other
            != place implies manager.state.transfers[other].id != id && (
        #[trigger] after.state.transfers[other]) == manager.state.transfers[other] by {
            if other < place {
                assert(manager.state.transfers[other].id != manager.state.transfers[place].id);
            } else {
                assert(manager.state.transfers[place].id != manager.state.transfers[other].id);
            }
        }
        assert(moved.id == id);
        super::first_transfer_is_first(after.state.transfers, id);
        let found = first_transfer(after.state.transfers, id)->0;
        assert(found == place) by {
            if found != place {
                assert(after.state.transfers[found].id == id);
                assert(after.state.transfers[place].id == id);
            }
        }
        match told {
            None => {
                assert(after.untold(id) == dirty);
                assert forall|other: int| 0 <= other < shown.transfers.len() implies lags_by(
                    #[trigger] shown.transfers[other],
                    after.state.transfers[other],
                    after.untold(after.state.transfers[other].id),
                ) by {
                    if other != place {
                        assert(lags_by(
                            shown.transfers[other],
                            manager.state.transfers[other],
                            manager.untold(manager.state.transfers[other].id),
                        ));
                        assert(after.state.transfers[other] == manager.state.transfers[other]);
                    }
                }
            },
            Some(progress) => {
                assert(after.untold(id) == Seq::<TransferFileProgress>::empty());
                assert forall|other: int| 0 <= other < shown.transfers.len() implies (
                #[trigger] shown.transfers[other]).id == manager.state.transfers[other].id by {
                    assert(lags_by(
                        shown.transfers[other],
                        manager.state.transfers[other],
                        manager.untold(manager.state.transfers[other].id),
                    ));
                }
                super::first_transfer_is_first(shown.transfers, id);
                let listed = first_transfer(shown.transfers, id)->0;
                assert(shown.transfers[place].id == id);
                assert(listed == place) by {
                    if listed != place {
                        assert(shown.transfers[listed].id == id);
                        assert(after.state.transfers[listed] == manager.state.transfers[listed]);
                    }
                }
                let view = applied(shown, progress);
                assert(view.transfers[place] == moved);
                assert forall|other: int| 0 <= other < view.transfers.len() implies lags_by(
                    #[trigger] view.transfers[other],
                    after.state.transfers[other],
                    after.untold(after.state.transfers[other].id),
                ) by {
                    if other != place {
                        assert(view.transfers[other] == shown.transfers[other]);
                        assert(lags_by(
                            shown.transfers[other],
                            manager.state.transfers[other],
                            manager.untold(manager.state.transfers[other].id),
                        ));
                        assert(after.state.transfers[other] == manager.state.transfers[other]);
                    } else {
                        assert(seen_files(moved.files, Seq::empty()) =~= moved.files);
                    }
                }
            },
        }
    }
}

/// Once a transfer is over, or has failed, nothing is left to tell of its
/// progress: the view in full that follows has it all.
pub proof fn ended_transfers_have_nothing_untold(
    manager: ManagerModel,
    id: Seq<char>,
    status: crate::domain::TransferStatus,
    message: Seq<char>,
    now_ms: i64,
)
    requires
        status.over(),
    ensures
        manager.transitioned(id, status, now_ms).0.untold(id)
            == Seq::<TransferFileProgress>::empty(),
        manager.failed(id, message, now_ms).untold(id) == Seq::<TransferFileProgress>::empty(),
{
}

} // verus!

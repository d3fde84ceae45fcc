//! The history of transfers: what is kept of it, what is written down, and
//! what is made of it at the next start.

use crate::domain::transfer::{file_models, transfer_models, FileModel, TransferModel};
use crate::domain::{TransferFileView, TransferStatus, TransferView};
use crate::error::TransferError;
use crate::order::sort_stably;
use crate::text::joined;
use vstd::prelude::*;
use vstd::string::*;

verus! {

/// How many transfers that are over are kept.
pub const MAX_TERMINAL_HISTORY: usize = 200;

/// How many transfers are written down.
pub const MAX_STORED_TRANSFERS: usize = 200;

/// How many of the transfers are over.
pub open spec fn over_count(transfers: Seq<TransferModel>) -> nat
    decreases transfers.len(),
{
    if transfers.len() == 0 {
        0
    } else {
        over_count(transfers.drop_last()) + (if transfers.last().status.over() {
            1nat
        } else {
            0nat
        })
    }
}

/// The transfers that are kept: all that are still going on, and of those that
/// are over the ones that stand first.
pub open spec fn pruned(transfers: Seq<TransferModel>) -> Seq<TransferModel>
    decreases transfers.len(),
{
    if transfers.len() == 0 {
        Seq::empty()
    } else {
        let before = pruned(transfers.drop_last());
        if transfers.last().status.over() && over_count(transfers) > MAX_TERMINAL_HISTORY {
            before
        } else {
            before.push(transfers.last())
        }
    }
}

/// Drops the transfers that are over and stand behind as many as are kept.
pub fn prune_transfer_history(transfers: &mut Vec<TransferView>)
    ensures
        transfer_models(final(transfers)@) == pruned(transfer_models(old(transfers)@)),
{
    let ghost given = transfer_models(transfers@);
    let count = transfers.len();
    let mut seen: usize = 0;
    let mut kept: usize = 0;
    let mut terminal_count: usize = 0;
    assert(given.take(0) =~= Seq::empty());
    while seen < count
        invariant
            kept <= seen <= count,
            given.len() == count,
            transfers@.len() == kept + (count - seen),
            terminal_count == over_count(given.take(seen as int)),
            terminal_count <= seen,
            transfer_models(transfers@).take(kept as int) == pruned(given.take(seen as int)),
            transfer_models(transfers@).skip(kept as int) == given.skip(seen as int),
        decreases count - seen,
    {
        let ghost before = transfer_models(transfers@);
        let ghost next = given.take(seen + 1);
        proof {
            assert(next.drop_last() =~= given.take(seen as int));
            assert(before.skip(kept as int)[0] == given.skip(seen as int)[0]);
            assert(next.last() == transfers@[kept as int]@);
            assert(given.skip(seen + 1) =~= given.skip(seen as int).skip(1));
        }
        let terminal = transfers[kept].status.terminal();
        if terminal {
            terminal_count += 1;
        }
        if terminal && terminal_count > MAX_TERMINAL_HISTORY {
            let _ = transfers.remove(kept);
            proof {
                assert(transfer_models(transfers@) =~= before.remove(kept as int));
                assert(transfer_models(transfers@).take(kept as int) =~= before.take(kept as int));
                assert(transfer_models(transfers@).skip(kept as int) =~= before.skip(
                    kept as int,
                ).skip(1));
            }
        } else {
            proof {
                assert(before.take(kept + 1) =~= before.take(kept as int).push(before[kept as int]));
                assert(before.skip(kept + 1) =~= before.skip(kept as int).skip(1));
            }
            kept += 1;
        }
        seen += 1;
    }
    proof {
        assert(given.take(count as int) =~= given);
        assert(transfer_models(transfers@).take(kept as int) =~= transfer_models(transfers@));
    }
}

/// Pruning keeps every transfer that is going on, keeps at most so many that
/// are over, adds nothing, and changes a short history not at all.
pub proof fn pruning_keeps_what_is_live(transfers: Seq<TransferModel>)
    ensures
        forall|transfer: TransferModel|
            transfers.contains(transfer) && !transfer.status.over() ==> #[trigger] pruned(
                transfers,
            ).contains(transfer),
        forall|transfer: TransferModel| #[trigger]
            pruned(transfers).contains(transfer) ==> transfers.contains(transfer),
        over_count(pruned(transfers)) == (if over_count(transfers) <= MAX_TERMINAL_HISTORY {
            over_count(transfers)
        } else {
            MAX_TERMINAL_HISTORY as nat
        }),
        pruned(transfers).len() <= transfers.len(),
        over_count(transfers) <= MAX_TERMINAL_HISTORY ==> pruned(transfers) == transfers,
    decreases transfers.len(),
{
    let kept = pruned(transfers);
    if transfers.len() > 0 {
        let front = transfers.drop_last();
        let last = transfers.last();
        pruning_keeps_what_is_live(front);
        assert(front.push(last) =~= transfers);
        assert(pruned(front).push(last).drop_last() =~= pruned(front));
        assert forall|transfer: TransferModel|
            transfers.contains(transfer) && !transfer.status.over() implies #[trigger] pruned(
            transfers,
        ).contains(transfer) by {
            if transfer == last {
                assert(kept.last() == last);
                assert(kept[kept.len() - 1] == last);
            } else {
                let place = choose|place: int|
                    0 <= place < transfers.len() && transfers[place] == transfer;
                assert(front[place] == transfer);
                assert(front.contains(transfer));
                assert(pruned(front).contains(transfer));
                let other = choose|other: int|
                    0 <= other < pruned(front).len() && pruned(front)[other] == transfer;
                assert(kept[other] == transfer);
            }
        }
        assert forall|transfer: TransferModel| #[trigger]
            pruned(transfers).contains(transfer) implies transfers.contains(transfer) by {
            let place = choose|place: int| 0 <= place < kept.len() && kept[place] == transfer;
            if place < pruned(front).len() {
                assert(pruned(front)[place] == transfer);
                assert(pruned(front).contains(transfer));
                let other = choose|other: int|
                    0 <= other < front.len() && front[other] == transfer;
                assert(transfers[other] == transfer);
            } else {
                assert(transfers[transfers.len() - 1] == transfer);
            }
        }
    }
}

/// Pruning what has been pruned changes nothing.
pub proof fn pruning_is_idempotent(transfers: Seq<TransferModel>)
    ensures
        pruned(pruned(transfers)) == pruned(transfers),
{
    pruning_keeps_what_is_live(transfers);
    pruning_keeps_what_is_live(pruned(transfers));
}

/// A file without its preview.
pub open spec fn without_preview(file: FileModel) -> FileModel {
    FileModel { thumbnail_data_url: None, ..file }
}

/// A transfer without the previews of its files.
pub open spec fn without_previews(transfer: TransferModel) -> TransferModel {
    TransferModel {
        files: transfer.files.map_values(|file: FileModel| without_preview(file)),
        ..transfer
    }
}

/// Whether no file of a transfer carries a preview.
pub open spec fn free_of_previews(transfer: TransferModel) -> bool {
    forall|place: int|
        0 <= place < transfer.files.len() ==> (
        #[trigger] transfer.files[place]).thumbnail_data_url is None
}

fn drop_previews(files: &mut Vec<TransferFileView>)
    ensures
        file_models(final(files)@) == file_models(old(files)@).map_values(
            |file: FileModel| without_preview(file),
        ),
{
    let ghost given = file_models(files@);
    let ghost wanted = given.map_values(|file: FileModel| without_preview(file));
    let mut index: usize = 0;
    while index < files.len()
        invariant
            index <= files@.len() == given.len(),
            wanted == given.map_values(|file: FileModel| without_preview(file)),
            forall|place: int| 0 <= place < index ==> (#[trigger] files@[place])@ == wanted[place],
            forall|place: int|
                index <= place < files@.len() ==> (#[trigger] files@[place])@ == given[place],
        decreases files@.len() - index,
    {
        assert(files@[index as int]@ == given[index as int]);
        files[index].thumbnail_data_url = None;
        index += 1;
    }
    assert(file_models(files@) =~= wanted);
}

/// A transfer as it is written down: without what holds only while it goes on,
/// and without previews.
pub open spec fn persistent(transfer: TransferModel) -> TransferModel {
    TransferModel {
        speed_bytes_per_second: 0,
        remaining_seconds: None,
        ..without_previews(transfer)
    }
}

fn persistent_view(transfer: &TransferView) -> (result: TransferView)
    ensures
        result@ == persistent(transfer@),
{
    let mut result = transfer.clone();
    result.speed_bytes_per_second = 0;
    result.remaining_seconds = None;
    drop_previews(&mut result.files);
    result
}

/// The transfers as they are written down.
pub fn persistent_history(transfers: &Vec<TransferView>) -> (result: Vec<TransferView>)
    ensures
        transfer_models(result@) == transfer_models(transfers@).map_values(
            |transfer: TransferModel| persistent(transfer),
        ),
{
    persistent_front(transfers, transfers.len())
}

fn persistent_front(transfers: &Vec<TransferView>, count: usize) -> (result: Vec<TransferView>)
    requires
        count <= transfers@.len(),
    ensures
        transfer_models(result@) == transfer_models(transfers@).take(count as int).map_values(
            |transfer: TransferModel| persistent(transfer),
        ),
{
    let mut result: Vec<TransferView> = Vec::new();
    let mut index: usize = 0;
    while index < count
        invariant
            index <= count <= transfers@.len(),
            result@.len() == index,
            forall|place: int|
                0 <= place < index ==> (#[trigger] result@[place])@ == persistent(
                    transfers@[place]@,
                ),
        decreases count - index,
    {
        result.push(persistent_view(&transfers[index]));
        index += 1;
    }
    assert(transfer_models(result@) =~= transfer_models(transfers@).take(count as int).map_values(
        |transfer: TransferModel| persistent(transfer),
    ));
    result
}

/// The front part of a list, at most so long.
pub open spec fn at_most<T>(list: Seq<T>, count: usize) -> Seq<T> {
    if list.len() <= count {
        list
    } else {
        list.take(count as int)
    }
}

/// The part of the history that is written down.
pub open spec fn stored(transfers: Seq<TransferModel>) -> Seq<TransferModel> {
    at_most(transfers, MAX_STORED_TRANSFERS).map_values(
        |transfer: TransferModel| persistent(transfer),
    )
}

/// The part of the history that is written down.
pub fn stored_history(transfers: &Vec<TransferView>) -> (result: Vec<TransferView>)
    ensures
        transfer_models(result@) == stored(transfer_models(transfers@)),
{
    let count = if transfers.len() <= MAX_STORED_TRANSFERS {
        transfers.len()
    } else {
        MAX_STORED_TRANSFERS
    };
    assert(transfer_models(transfers@).take(count as int) =~= at_most(
        transfer_models(transfers@),
        MAX_STORED_TRANSFERS,
    ));
    persistent_front(transfers, count)
}

/// A transfer as it is taken up again: without previews, and as failed where
/// it was still going on.
pub open spec fn taken_up(transfer: TransferModel) -> TransferModel {
    let bare = without_previews(transfer);
    if transfer.status.over() {
        bare
    } else {
        TransferModel {
            status: TransferStatus::Failed,
            error_message: Some("transfer was still in progress when the application exited"@),
            ..bare
        }
    }
}

/// Whether one transfer changed later than another.
pub open spec fn later(one: TransferModel, other: TransferModel) -> bool {
    one.updated_at_ms > other.updated_at_ms
}

/// The history that is taken up again from what was written down: the last
/// changed transfers, latest first.
pub open spec fn restored(transfers: Seq<TransferModel>) -> Seq<TransferModel> {
    at_most(
        crate::order::stably_sorted(
            transfers.map_values(|transfer: TransferModel| taken_up(transfer)),
            |one: TransferModel, other: TransferModel| later(one, other),
        ),
        MAX_STORED_TRANSFERS,
    )
}

/// Takes up the history that was written down.
pub fn restore_history(transfers: Vec<TransferView>) -> (result: Vec<TransferView>)
    ensures
        transfer_models(result@) == restored(transfer_models(transfers@)),
{
    let mut result = transfers;
    let ghost given = transfer_models(transfers@);
    let ghost wanted = given.map_values(|transfer: TransferModel| taken_up(transfer));
    let mut index: usize = 0;
    while index < result.len()
        invariant
            index <= result@.len() == given.len(),
            wanted == given.map_values(|transfer: TransferModel| taken_up(transfer)),
            forall|place: int| 0 <= place < index ==> (#[trigger] result@[place])@ == wanted[place],
            forall|place: int|
                index <= place < result@.len() ==> (#[trigger] result@[place])@ == given[place],
        decreases result@.len() - index,
    {
        assert(result@[index as int]@ == given[index as int]);
        let mut transfer = result[index].clone();
        drop_previews(&mut transfer.files);
        if !transfer.status.terminal() {
            transfer.status = TransferStatus::Failed;
            transfer.error_message = Some(
                "transfer was still in progress when the application exited".to_owned(),
            );
        }
        result.set(index, transfer);
        index += 1;
    }
    assert(transfer_models(result@) =~= wanted);
    let ghost unsorted = result@;
    let newer = |one: &TransferView, other: &TransferView| -> (newer: bool)
        ensures
            newer == later(one@, other@),
        { one.updated_at_ms > other.updated_at_ms };
    sort_stably(&mut result, newer);
    proof {
        let before = |one: TransferView, other: TransferView| later(one@, other@);
        assert(crate::order::decides(newer, before));
        crate::order::sorting_commutes_with_values(
            unsorted,
            before,
            |transfer: TransferView| transfer@,
            |one: TransferModel, other: TransferModel| later(one, other),
        );
    }
    let ghost sorted = transfer_models(result@);
    if result.len() > MAX_STORED_TRANSFERS {
        result.truncate(MAX_STORED_TRANSFERS);
    }
    assert(transfer_models(result@) =~= at_most(sorted, MAX_STORED_TRANSFERS));
    result
}

/// What is written down is bounded and carries no preview.
pub proof fn stored_history_is_bounded(transfers: Seq<TransferModel>)
    ensures
        stored(transfers).len() <= MAX_STORED_TRANSFERS,
        forall|place: int|
            0 <= place < stored(transfers).len() ==> free_of_previews(
                #[trigger] stored(transfers)[place],
            ),
{
}

/// What is taken up again is bounded, latest first, carries no preview, and
/// holds no transfer as going on.
pub proof fn restored_history_is_settled(transfers: Seq<TransferModel>)
    ensures
        restored(transfers).len() <= MAX_STORED_TRANSFERS,
        forall|place: int|
            0 <= place < restored(transfers).len() ==> {
                &&& (#[trigger] restored(transfers)[place]).status.over()
                &&& free_of_previews(restored(transfers)[place])
            },
        forall|left: int, right: int|
            0 <= left < right < restored(transfers).len() ==> (
            #[trigger] restored(transfers)[left]).updated_at_ms >= (
            #[trigger] restored(transfers)[right]).updated_at_ms,
{
    let before = |one: TransferModel, other: TransferModel| later(one, other);
    let list = transfers.map_values(|transfer: TransferModel| taken_up(transfer));
    let sorted = crate::order::stably_sorted(list, before);
    assert(crate::order::strict_weak_order(before));
    crate::order::sorting_is_stable(list, before);
    assert forall|place: int| 0 <= place < sorted.len() implies {
        &&& (#[trigger] sorted[place]).status.over()
        &&& free_of_previews(sorted[place])
    } by {
        broadcast use vstd::seq_lib::group_to_multiset_ensures;

        assert(sorted.contains(sorted[place]));
        assert(sorted.to_multiset().count(sorted[place]) > 0);
        assert(list.to_multiset().count(sorted[place]) > 0);
        assert(list.contains(sorted[place]));
        let other = choose|other: int| 0 <= other < list.len() && list[other] == sorted[place];
        assert(list[other] == taken_up(transfers[other]));
    }
    assert forall|left: int, right: int| 0 <= left < right < sorted.len() implies (
    #[trigger] sorted[left]).updated_at_ms >= (#[trigger] sorted[right]).updated_at_ms by {
        assert(!before(sorted[right], sorted[left]));
    }
}

/// What is done about the history after a wait: whether it is written down, and
/// whether that was the last time.
#[derive(Debug, Clone, Copy, PartialEq, Eq, Structural)]
pub struct HistoryStep {
    pub save: bool,
    pub quit: bool,
}

/// What is done about the history after a wait that ended because of a change,
/// or because the service stops: what waits to be written down is written down
/// first in any case.
pub fn history_step(stop: bool, stopping: bool, waiting: bool) -> (step: HistoryStep)
    ensures
        step == (HistoryStep { save: waiting, quit: stop || stopping }),
{
    HistoryStep { save: waiting, quit: stop || stopping }
}

/// What is told when the history could not be written down.
pub fn save_failure(error: &TransferError) -> (message: String)
    ensures
        message@ == "failed to save transfer history: "@ + error@.message(),
{
    joined("failed to save transfer history: ", error.message().as_str())
}

proof fn sorting_keeps_every_item(list: Seq<TransferModel>)
    ensures
        ({
            let sorted = crate::order::stably_sorted(
                list,
                |one: TransferModel, other: TransferModel| later(one, other),
            );
            &&& sorted.len() == list.len()
            &&& forall|transfer: TransferModel| #[trigger]
                sorted.contains(transfer) <==> list.contains(transfer)
        }),
{
    broadcast use vstd::seq_lib::group_to_multiset_ensures;

    let before = |one: TransferModel, other: TransferModel| later(one, other);
    let sorted = crate::order::stably_sorted(list, before);
    assert(crate::order::strict_weak_order(before));
    crate::order::sorting_is_stable(list, before);
    assert forall|transfer: TransferModel| #[trigger]
        sorted.contains(transfer) <==> list.contains(transfer) by {
        assert(sorted.contains(transfer) <==> sorted.to_multiset().count(transfer) > 0);
        assert(list.contains(transfer) <==> list.to_multiset().count(transfer) > 0);
    }
}

/// Whether two records are of the same file, all but its preview.
pub open spec fn same_file(one: FileModel, other: FileModel) -> bool {
    &&& one.id == other.id
    &&& one.name == other.name
    &&& one.relative_path == other.relative_path
    &&& one.local_path == other.local_path
    &&& one.receive_directory == other.receive_directory
    &&& one.size == other.size
    &&& one.media_type == other.media_type
    &&& one.kind == other.kind
    &&& one.completed_bytes == other.completed_bytes
}

/// Whether two records are of the same transfer with the same files, whatever
/// became of it.
pub open spec fn same_transfer(one: TransferModel, other: TransferModel) -> bool {
    &&& one.id == other.id
    &&& one.wire_id == other.wire_id
    &&& one.peer_id == other.peer_id
    &&& one.peer_name == other.peer_name
    &&& one.direction == other.direction
    &&& one.total_bytes == other.total_bytes
    &&& one.completed_bytes == other.completed_bytes
    &&& one.created_at_ms == other.created_at_ms
    &&& one.updated_at_ms == other.updated_at_ms
    &&& one.files.len() == other.files.len()
    &&& forall|place: int|
        0 <= place < one.files.len() ==> same_file(#[trigger] one.files[place], other.files[place])
}

/// Whether a record is what is left of a transfer after a restart: the same
/// transfer, as it ended where it was over, and failed where it was going on.
pub open spec fn survives_as(written: TransferModel, taken: TransferModel) -> bool {
    &&& same_transfer(written, taken)
    &&& match written.status {
        TransferStatus::Completed
        | TransferStatus::Rejected
        | TransferStatus::Cancelled
        | TransferStatus::Failed => taken.status == written.status && taken.error_message
            == written.error_message,
        _ => taken.status == TransferStatus::Failed && taken.error_message is Some,
    }
}

proof fn taken_up_transfer_survives(transfer: TransferModel)
    ensures
        survives_as(transfer, taken_up(transfer)),
{
}

/// Every transfer that was written down is taken up again where there are at
/// most 200 of them, and 200 where there are more.
pub proof fn every_stored_transfer_is_taken_up(transfers: Seq<TransferModel>)
    ensures
        transfers.len() <= 200 ==> restored(transfers).len() == transfers.len(),
        transfers.len() > 200 ==> restored(transfers).len() == 200,
        transfers.len() <= 200 ==> forall|place: int|
            0 <= place < transfers.len() ==> exists|taken: TransferModel| #[trigger]
                restored(transfers).contains(taken) && survives_as(
                    #[trigger] transfers[place],
                    taken,
                ),
{
    let list = transfers.map_values(|transfer: TransferModel| taken_up(transfer));
    sorting_keeps_every_item(list);
    if transfers.len() <= 200 {
        assert forall|place: int| 0 <= place < transfers.len() implies exists|taken: TransferModel|
            #[trigger]
            restored(transfers).contains(taken) && survives_as(#[trigger] transfers[place], taken) by {
            taken_up_transfer_survives(transfers[place]);
            assert(list[place] == taken_up(transfers[place]));
            assert(list.contains(list[place]));
            assert(restored(transfers).contains(list[place]));
        }
    }
}

/// Nothing is taken up again but what was written down.
pub proof fn only_stored_transfers_are_taken_up(transfers: Seq<TransferModel>, taken: TransferModel)
    requires
        restored(transfers).contains(taken),
    ensures
        exists|place: int|
            0 <= place < transfers.len() && survives_as(#[trigger] transfers[place], taken),
{
    let list = transfers.map_values(|transfer: TransferModel| taken_up(transfer));
    let sorted = crate::order::stably_sorted(
        list,
        |one: TransferModel, other: TransferModel| later(one, other),
    );
    sorting_keeps_every_item(list);
    let spot = choose|spot: int|
        0 <= spot < restored(transfers).len() && restored(transfers)[spot] == taken;
    assert(sorted[spot] == taken);
    assert(sorted.contains(taken));
    assert(list.contains(taken));
    let place = choose|place: int| 0 <= place < list.len() && list[place] == taken;
    taken_up_transfer_survives(transfers[place]);
    assert(survives_as(transfers[place], taken));
}

/// What is written down is the front of the history: each transfer with its
/// status and message, all of its files, and nothing that holds only while it
/// goes on.
pub proof fn written_history_is_the_history(transfers: Seq<TransferModel>)
    ensures
        stored(transfers).len() == (if transfers.len() <= 200 {
            transfers.len() as int
        } else {
            200
        }),
        forall|place: int|
            0 <= place < stored(transfers).len() ==> {
                let written = #[trigger] stored(transfers)[place];
                &&& same_transfer(transfers[place], written)
                &&& written.status == transfers[place].status
                &&& written.error_message == transfers[place].error_message
                &&& written.speed_bytes_per_second == 0
                &&& written.remaining_seconds is None
                &&& forall|file: int|
                    0 <= file < written.files.len() ==> (
                    #[trigger] written.files[file]).thumbnail_data_url is None
            },
{
    assert forall|place: int| 0 <= place < stored(transfers).len() implies {
        let written = #[trigger] stored(transfers)[place];
        &&& same_transfer(transfers[place], written)
        &&& written.status == transfers[place].status
        &&& written.error_message == transfers[place].error_message
        &&& written.speed_bytes_per_second == 0
        &&& written.remaining_seconds is None
        &&& forall|file: int|
            0 <= file < written.files.len() ==> (
            #[trigger] written.files[file]).thumbnail_data_url is None
    } by {
        assert(stored(transfers)[place] == persistent(transfers[place]));
    }
}

/// The history that a restart finds in what was written down is the front of
/// the history that was there: each transfer survives.
pub proof fn history_survives_a_restart(transfers: Seq<TransferModel>, place: int)
    requires
        0 <= place < transfers.len(),
        place < 200,
    ensures
        exists|taken: TransferModel| #[trigger]
            restored(stored(transfers)).contains(taken) && survives_as(transfers[place], taken),
{
    written_history_is_the_history(transfers);
    every_stored_transfer_is_taken_up(stored(transfers));
    let written = stored(transfers)[place];
    let taken = choose|taken: TransferModel| #[trigger]
        restored(stored(transfers)).contains(taken) && survives_as(written, taken);
    assert forall|file: int| 0 <= file < transfers[place].files.len() implies same_file(
        #[trigger] transfers[place].files[file],
        taken.files[file],
    ) by {
        assert(same_file(written.files[file], taken.files[file]));
        assert(same_file(transfers[place].files[file], written.files[file]));
    }
    assert(survives_as(transfers[place], taken));
}

/// A transfer that goes on counts as not over, one that is over counts once.
pub proof fn each_end_counts_once(transfers: Seq<TransferModel>, transfer: TransferModel)
    ensures
        over_count(Seq::empty()) == 0,
        over_count(transfers.push(transfer)) - over_count(transfers) == (if transfer.status.over() {
            1int
        } else {
            0
        }),
{
    assert(transfers.push(transfer).drop_last() =~= transfers);
}

/// Pruning keeps the order of what it keeps, drops nothing while at most 200
/// transfers are over, and drops of those that are over the last ones: none
/// that is dropped stands before one that is over and is kept.
pub proof fn pruning_drops_the_last(transfers: Seq<TransferModel>, transfer: TransferModel)
    ensures
        pruned(transfers.push(transfer)) == (if transfer.status.over() && over_count(transfers)
            >= 200 {
            pruned(transfers)
        } else {
            pruned(transfers).push(transfer)
        }),
        pruned(Seq::empty()) == Seq::<TransferModel>::empty(),
{
    assert(transfers.push(transfer).drop_last() =~= transfers);
}

} // verus!

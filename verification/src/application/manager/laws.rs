//! What holds of the service as a whole: what a restart brings back, and what
//! each change of a transfer does and leaves alone.

use super::{
    booked, failed_for, first_transfer, first_transfer_is_first, initial,
    initial_transfers, marked, rewound, CancelRoute, IdentityModel, ManagerModel,
};
use crate::application::config::ConfigModel;
use crate::application::control::ReceiveDecision;
use crate::domain::transfer::{FileModel, TransferFileProgress, TransferModel};
use crate::domain::{ReceivePolicy, TransferStatus};
use crate::error::ErrorModel;
use vstd::prelude::*;

verus! {

proof fn no_more_ends_than_transfers(transfers: Seq<TransferModel>)
    ensures
        crate::application::history::over_count(transfers) <= transfers.len(),
    decreases transfers.len(),
{
    if transfers.len() > 0 {
        no_more_ends_than_transfers(transfers.drop_last());
    }
}

proof fn nothing_restored_is_pruned(stored: Seq<TransferModel>)
    ensures
        initial_transfers(stored) == crate::application::history::restored(stored),
{
    let restored = crate::application::history::restored(stored);
    crate::application::history::restored_history_is_settled(stored);
    crate::application::history::pruning_keeps_what_is_live(restored);
    no_more_ends_than_transfers(restored);
}

/// After a start the service lists every transfer that was written down, up to
/// 200 of them, the last changed first: the same transfer with the same files,
/// as it ended where it was over, and failed where it was still going on.
pub proof fn restart_lists_the_history(
    config: ConfigModel,
    chosen: Option<Seq<char>>,
    policies: Map<Seq<char>, ReceivePolicy>,
    stored: Seq<TransferModel>,
)
    ensures
        ({
            let listed = initial(config, chosen, policies, stored).state.transfers;
            &&& listed.len() == (if stored.len() <= 200 {
                stored.len() as int
            } else {
                200
            })
            &&& stored.len() <= 200 ==> forall|place: int|
                0 <= place < stored.len() ==> exists|taken: TransferModel| #[trigger]
                    listed.contains(taken) && crate::application::history::survives_as(
                        #[trigger] stored[place],
                        taken,
                    )
            &&& forall|left: int, right: int|
                0 <= left < right < listed.len() ==> (#[trigger] listed[left]).updated_at_ms >= (
                #[trigger] listed[right]).updated_at_ms
        }),
{
    nothing_restored_is_pruned(stored);
    crate::application::history::every_stored_transfer_is_taken_up(stored);
    crate::application::history::restored_history_is_settled(stored);
}

/// After a start the service lists no transfer but those that were written down.
pub proof fn restart_lists_only_the_history(
    config: ConfigModel,
    chosen: Option<Seq<char>>,
    policies: Map<Seq<char>, ReceivePolicy>,
    stored: Seq<TransferModel>,
    taken: TransferModel,
)
    requires
        initial(config, chosen, policies, stored).state.transfers.contains(taken),
    ensures
        exists|place: int|
            0 <= place < stored.len() && crate::application::history::survives_as(
                #[trigger] stored[place],
                taken,
            ),
{
    nothing_restored_is_pruned(stored);
    crate::application::history::only_stored_transfers_are_taken_up(stored, taken);
}

/// What is written down at a change is what a start lists again.
pub proof fn written_changes_survive_a_restart(
    manager: ManagerModel,
    id: Seq<char>,
    change: spec_fn(TransferModel) -> Result<TransferModel, ErrorModel>,
    config: ConfigModel,
    chosen: Option<Seq<char>>,
    policies: Map<Seq<char>, ReceivePolicy>,
)
    ensures
        manager.changed(id, change) matches Ok(after) ==> after.history matches Some(written)
            && written.len() == after.state.transfers.len() && (written.len() <= 200 ==> forall|
            place: int,
        |
            0 <= place < after.state.transfers.len() ==> exists|taken: TransferModel| #[trigger]
                initial(config, chosen, policies, written).state.transfers.contains(taken)
                    && crate::application::history::survives_as(
                    #[trigger] after.state.transfers[place],
                    taken,
                )),
{
    if let Ok(after) = manager.changed(id, change) {
        let written = after.history->0;
        let listed = initial(config, chosen, policies, written).state.transfers;
        restart_lists_the_history(config, chosen, policies, written);
        if written.len() <= 200 {
            assert forall|place: int| 0 <= place < after.state.transfers.len() implies exists|
                taken: TransferModel,
            | #[trigger]
                listed.contains(taken) && crate::application::history::survives_as(
                    #[trigger] after.state.transfers[place],
                    taken,
                ) by {
                let transfer = after.state.transfers[place];
                assert(written[place] == crate::application::history::persistent(transfer));
                let taken = choose|taken: TransferModel| #[trigger]
                    listed.contains(taken) && crate::application::history::survives_as(written[place], taken);
                assert forall|file: int| 0 <= file < transfer.files.len() implies crate::application::history::same_file(
                    #[trigger] transfer.files[file],
                    taken.files[file],
                ) by {
                    assert(crate::application::history::same_file(
                        written[place].files[file],
                        taken.files[file],
                    ));
                }
                assert(crate::application::history::survives_as(transfer, taken));
            }
        }
    }
}

/// A service starts under the setup that it is given, with the receive directory
/// that was chosen before, with the policies that were stored, to be found by
/// others, and with nothing going on.
pub proof fn start_follows_the_setup(
    config: ConfigModel,
    chosen: Option<Seq<char>>,
    policies: Map<Seq<char>, ReceivePolicy>,
    stored: Seq<TransferModel>,
)
    ensures
        ({
            let manager = initial(config, chosen, policies, stored);
            &&& chosen matches Some(directory) ==> manager.config.receive_directory == directory
                && manager.state.receive_directory == directory
            &&& chosen is None ==> manager.config.receive_directory == config.receive_directory
                && manager.state.receive_directory == config.receive_directory
            &&& manager.config.device_name == config.device_name
            &&& manager.state.device_name == config.device_name
            &&& manager.config.config_directory == config.config_directory
            &&& manager.config.listen_port == config.listen_port
            &&& manager.config.platform == config.platform
            &&& manager.config.model == config.model
            &&& manager.policies == policies
            &&& manager.state.discoverable
            &&& manager.state.peers.len() == 0
            &&& manager.identity is None
            &&& !manager.started
            &&& !manager.stopping
            &&& manager.running == 0
            &&& manager.jobs.dom() == Set::<Seq<char>>::empty()
            &&& manager.pending.dom() == Set::<Seq<char>>::empty()
        }),
{
}

/// A service that is started shows the identity and the name under which it
/// was, keeps the first identity that it ever had, and changes nothing when it
/// runs already.
pub proof fn start_shows_the_identity(
    manager: ManagerModel,
    identity: IdentityModel,
    device_name: Seq<char>,
)
    ensures
        ({
            let after = manager.starting(identity, device_name);
            &&& after.started
            &&& manager.started ==> after == manager
            &&& !manager.started ==> after.state.device_id == identity.device_id
                && after.state.device_name == device_name
            &&& !manager.started && manager.identity is None ==> after.device_id()
                == identity.device_id && after.public_key() == identity.public_key
                && after.certificate() == identity.certificate_sha256
            &&& manager.identity is Some ==> after.identity == manager.identity
            &&& after.state.transfers == manager.state.transfers
            &&& after.state.peers == manager.state.peers
            &&& after.policies == manager.policies
            &&& after.config == manager.config
        }),
{
}

/// A service that was told to stop takes on no job any more, and every job that
/// runs is cancelled.
pub proof fn stopping_cancels_every_job(manager: ManagerModel)
    ensures
        manager.stopped().stopping,
        !manager.stopped().has_room(),
        manager.stopped().jobs.dom() == manager.jobs.dom(),
        forall|id: Seq<char>| #[trigger]
            manager.jobs.contains_key(id) ==> manager.stopped().jobs[id].cancelled,
        manager.stopped().state == manager.state,
        manager.stopped().history == manager.history,
{
    assert(manager.stopped().jobs.dom() =~= manager.jobs.dom());
}

/// There is room for a job while fewer than sixteen run and the service is not
/// told to stop.
pub proof fn sixteen_jobs_may_run(manager: ManagerModel)
    ensures
        manager.has_room() <==> manager.running < 16 && !manager.stopping,
{
}

/// A change of a transfer is one of the first with that identifier, and leaves
/// the rest of the service as it was, but for what is shown and written down; it
/// is refused where there is no such transfer, or where the change itself is.
pub proof fn change_meets_the_first_with_its_identifier(
    manager: ManagerModel,
    id: Seq<char>,
    change: spec_fn(TransferModel) -> Result<TransferModel, ErrorModel>,
)
    ensures
        match manager.changed(id, change) {
            Ok(after) => {
                &&& exists|place: int|
                    0 <= place < manager.state.transfers.len() && (
                    #[trigger] manager.state.transfers[place]).id == id && change(
                        manager.state.transfers[place],
                    ) is Ok
                &&& after.state.peers == manager.state.peers
                &&& after.jobs == manager.jobs
                &&& after.pending == manager.pending
                &&& after.policies == manager.policies
                &&& after.config == manager.config
                &&& after.running == manager.running
                &&& manager.state.revision < u64::MAX ==> after.state.revision
                    == manager.state.revision + 1
                &&& after.base_revision == after.state.revision
            },
            Err(error) => {
                ||| error == ErrorModel::TransferNotFound(id) && forall|place: int|
                    0 <= place < manager.state.transfers.len() ==> (
                    #[trigger] manager.state.transfers[place]).id != id
                ||| exists|place: int|
                    0 <= place < manager.state.transfers.len() && (
                    #[trigger] manager.state.transfers[place]).id == id && change(
                        manager.state.transfers[place],
                    ) == Err::<TransferModel, _>(error)
            },
        },
{
    let transfers = manager.state.transfers;
    first_transfer_is_first(transfers, id);
    if let Some(place) = first_transfer(transfers, id) {
        assert(transfers[place].id == id);
    }
}

/// A changed transfer stays in its place, and every other one stays as it was,
/// while at most 200 are over.
pub proof fn changed_transfer_keeps_its_place(
    manager: ManagerModel,
    id: Seq<char>,
    change: spec_fn(TransferModel) -> Result<TransferModel, ErrorModel>,
    place: int,
    changed: TransferModel,
)
    requires
        0 <= place < manager.state.transfers.len(),
        manager.state.transfers[place].id == id,
        forall|earlier: int|
            0 <= earlier < place ==> (#[trigger] manager.state.transfers[earlier]).id != id,
        change(manager.state.transfers[place]) == Ok::<_, ErrorModel>(changed),
        crate::application::history::over_count(manager.state.transfers.update(place, changed))
            <= 200,
    ensures
        manager.changed(id, change) matches Ok(after) && after.state.transfers
            == manager.state.transfers.update(place, changed),
{
    first_transfer_is_first(manager.state.transfers, id);
    crate::application::history::pruning_keeps_what_is_live(
        manager.state.transfers.update(place, changed),
    );
}

/// However many transfers are over, a change loses none that goes on: neither
/// the changed one nor another.
pub proof fn change_loses_nothing_live(
    manager: ManagerModel,
    id: Seq<char>,
    change: spec_fn(TransferModel) -> Result<TransferModel, ErrorModel>,
    place: int,
    changed: TransferModel,
    other: int,
)
    requires
        0 <= place < manager.state.transfers.len(),
        manager.state.transfers[place].id == id,
        forall|earlier: int|
            0 <= earlier < place ==> (#[trigger] manager.state.transfers[earlier]).id != id,
        change(manager.state.transfers[place]) == Ok::<_, ErrorModel>(changed),
        0 <= other < manager.state.transfers.len(),
    ensures
        manager.changed(id, change) matches Ok(after) && {
            &&& !changed.status.over() ==> after.state.transfers.contains(changed)
            &&& other != place && !manager.state.transfers[other].status.over()
                ==> after.state.transfers.contains(manager.state.transfers[other])
        },
{
    first_transfer_is_first(manager.state.transfers, id);
    let updated = manager.state.transfers.update(place, changed);
    crate::application::history::pruning_keeps_what_is_live(updated);
    assert(updated[place] == changed);
    assert(updated.contains(changed));
    if other != place {
        assert(updated[other] == manager.state.transfers[other]);
        assert(updated.contains(updated[other]));
    }
}

/// A new transfer stands in front, behind it all that were there, as far as the
/// history is kept; none that goes on is lost.
pub proof fn new_transfer_comes_first(manager: ManagerModel, transfer: TransferModel)
    requires
        !transfer.status.over(),
    ensures
        ({
            let after = manager.pushed(transfer);
            &&& after.state.transfers.len() > 0
            &&& after.state.transfers[0] == transfer
            &&& forall|place: int|
                0 <= place < manager.state.transfers.len() && !(
                #[trigger] manager.state.transfers[place]).status.over()
                    ==> after.state.transfers.contains(manager.state.transfers[place])
            &&& crate::application::history::over_count(seq![transfer] + manager.state.transfers) <= 200
                ==> after.state.transfers == seq![transfer] + manager.state.transfers
            &&& manager.state.revision < u64::MAX ==> after.state.revision
                == manager.state.revision + 1
            &&& after.base_revision == after.state.revision
        }),
{
    let transfers = manager.state.transfers;
    let all = transfers.insert(0, transfer);
    assert(all =~= seq![transfer] + transfers);
    crate::application::history::pruning_keeps_what_is_live(all);
    first_stays_first(all);
    assert forall|place: int| 0 <= place < transfers.len() && !(
    #[trigger] transfers[place]).status.over() implies crate::application::history::pruned(all).contains(
        transfers[place],
    ) by {
        assert(all[place + 1] == transfers[place]);
        assert(all.contains(transfers[place]));
    }
}

proof fn first_stays_first(transfers: Seq<TransferModel>)
    requires
        transfers.len() > 0,
        !transfers[0].status.over(),
    ensures
        crate::application::history::pruned(transfers).len() > 0,
        crate::application::history::pruned(transfers)[0] == transfers[0],
    decreases transfers.len(),
{
    if transfers.len() > 1 {
        assert(transfers.drop_last()[0] == transfers[0]);
        first_stays_first(transfers.drop_last());
    } else {
        assert(transfers.last() == transfers[0]);
        assert(crate::application::history::pruned(transfers.drop_last()).len() == 0);
    }
}

/// A transfer that fails is listed as failed for that reason from then on, unless
/// it was over; nothing is left to tell of its progress.
pub proof fn failure_is_noted(
    manager: ManagerModel,
    id: Seq<char>,
    message: Seq<char>,
    now_ms: i64,
    place: int,
)
    requires
        0 <= place < manager.state.transfers.len(),
        manager.state.transfers[place].id == id,
        forall|earlier: int|
            0 <= earlier < place ==> (#[trigger] manager.state.transfers[earlier]).id != id,
        crate::application::history::over_count(manager.state.transfers) < 200,
    ensures
        ({
            let before = manager.state.transfers[place];
            let after = manager.failed(id, message, now_ms);
            let failed = after.state.transfers[place];
            &&& after.state.transfers.len() == manager.state.transfers.len()
            &&& !after.emissions.contains_key(id)
            &&& before.status.over() ==> failed == before
            &&& !before.status.over() ==> {
                &&& failed.status == TransferStatus::Failed
                &&& failed.error_message == Some(message)
                &&& failed.updated_at_ms == now_ms
                &&& (TransferModel {
                    status: before.status,
                    error_message: before.error_message,
                    updated_at_ms: before.updated_at_ms,
                    ..failed
                }) == before
            }
            &&& forall|other: int|
                0 <= other < manager.state.transfers.len() && other != place
                    ==> #[trigger] after.state.transfers[other] == manager.state.transfers[other]
        }),
{
    let transfers = manager.state.transfers;
    first_transfer_is_first(transfers, id);
    let updated = transfers.update(place, failed_for(transfers[place], message, now_ms));
    ends_after_update(transfers, place, updated[place]);
    crate::application::history::pruning_keeps_what_is_live(updated);
}

pub(crate) proof fn ends_after_update(transfers: Seq<TransferModel>, place: int, transfer: TransferModel)
    requires
        0 <= place < transfers.len(),
    ensures
        crate::application::history::over_count(transfers.update(place, transfer)) <= crate::application::history::over_count(
            transfers,
        ) + 1,
        transfers[place].status.over() || !transfer.status.over()
            ==> crate::application::history::over_count(transfers.update(place, transfer))
            <= crate::application::history::over_count(transfers),
    decreases transfers.len(),
{
    let updated = transfers.update(place, transfer);
    if place == transfers.len() - 1 {
        assert(updated.drop_last() =~= transfers.drop_last());
    } else {
        assert(updated.drop_last() =~= transfers.drop_last().update(place, transfer));
        ends_after_update(transfers.drop_last(), place, transfer);
    }
}

/// What cancelling does: whoever waits for a decision on the transfer waits no
/// more, otherwise its job is cancelled; and a transfer that goes on is listed
/// as cancelled, the others as they were.
pub proof fn cancelling_ends_the_transfer(
    manager: ManagerModel,
    id: Seq<char>,
    now_ms: i64,
    place: int,
)
    requires
        0 <= place < manager.state.transfers.len(),
        manager.state.transfers[place].id == id,
        forall|earlier: int|
            0 <= earlier < place ==> (#[trigger] manager.state.transfers[earlier]).id != id,
        !manager.state.transfers[place].status.over(),
        crate::application::history::over_count(manager.state.transfers) < 200,
    ensures
        ({
            let (after, outcome) = manager.cancelled(id, now_ms);
            let before = manager.state.transfers[place];
            let ended = after.state.transfers[place];
            &&& outcome is Ok
            &&& !after.pending.contains_key(id)
            &&& manager.pending.contains_key(id) ==> manager.cancel_route(id) == (
            CancelRoute::Decision(
                ReceiveDecision { accept: false, automatic_receive: false, cancelled: true },
            ))
            &&& !manager.pending.contains_key(id) && manager.jobs.contains_key(id)
                ==> after.jobs[id].cancelled && manager.cancel_route(id) == CancelRoute::Job
            &&& !manager.pending.contains_key(id) && !manager.jobs.contains_key(id)
                ==> manager.cancel_route(id) == CancelRoute::Nobody
            &&& !after.emissions.contains_key(id)
            &&& after.state.transfers.len() == manager.state.transfers.len()
            &&& ended.status == TransferStatus::Cancelled
            &&& ended.updated_at_ms == now_ms
            &&& (TransferModel {
                status: before.status,
                updated_at_ms: before.updated_at_ms,
                ..ended
            }) == before
            &&& forall|other: int|
                0 <= other < manager.state.transfers.len() && other != place
                    ==> #[trigger] after.state.transfers[other] == manager.state.transfers[other]
            &&& forall|other: Seq<char>|
                other != id && #[trigger] manager.jobs.contains_key(other)
                    ==> after.jobs.contains_key(other) && after.jobs[other] == manager.jobs[other]
            &&& forall|other: Seq<char>|
                other != id && #[trigger] manager.pending.contains_key(other)
                    ==> after.pending.contains_key(other)
        }),
{
    let transfers = manager.state.transfers;
    first_transfer_is_first(transfers, id);
    let updated = transfers.update(
        place,
        TransferModel {
            status: TransferStatus::Cancelled,
            updated_at_ms: now_ms,
            ..transfers[place]
        },
    );
    ends_after_update(transfers, place, updated[place]);
    crate::application::history::pruning_keeps_what_is_live(updated);
}

/// A pause stops the job and is shown; it is refused where no job runs, and
/// where the transfer does not move files.
pub proof fn pausing_stops_the_job(
    manager: ManagerModel,
    id: Seq<char>,
    now_ms: i64,
    place: int,
)
    requires
        0 <= place < manager.state.transfers.len(),
        manager.state.transfers[place].id == id,
        forall|earlier: int|
            0 <= earlier < place ==> (#[trigger] manager.state.transfers[earlier]).id != id,
        crate::application::history::over_count(manager.state.transfers) <= 200,
    ensures
        ({
            let (after, outcome) = manager.paused(id, now_ms);
            let before = manager.state.transfers[place];
            &&& outcome is Ok <==> manager.jobs.contains_key(id) && (before.status
                == TransferStatus::Transferring || before.status == TransferStatus::Paused)
            &&& manager.jobs.contains_key(id) ==> after.jobs.contains_key(id)
                && after.jobs[id].paused && after.jobs[id].cancelled == manager.jobs[id].cancelled
            &&& !manager.jobs.contains_key(id) ==> after == manager && outcome == Err::<(), _>(
                ErrorModel::TransferNotFound(id),
            )
            &&& outcome is Ok ==> {
                &&& after.state.transfers.len() == manager.state.transfers.len()
                &&& after.state.transfers[place].status == TransferStatus::Paused
                &&& after.state.transfers[place].completed_bytes == before.completed_bytes
                &&& after.state.transfers[place].files == before.files
                &&& forall|other: int|
                    0 <= other < manager.state.transfers.len() && other != place
                        ==> #[trigger] after.state.transfers[other]
                        == manager.state.transfers[other]
            }
        }),
{
    let transfers = manager.state.transfers;
    first_transfer_is_first(transfers, id);
    let updated = transfers.update(
        place,
        TransferModel { status: TransferStatus::Paused, updated_at_ms: now_ms, ..transfers[place] },
    );
    ends_after_update(transfers, place, updated[place]);
    crate::application::history::pruning_keeps_what_is_live(updated);
}

/// What is noted of a file that has moved stands in the list under its number,
/// once, and what is noted of the others stays.
pub proof fn moved_file_is_marked(
    dirty: Seq<TransferFileProgress>,
    file_id: u64,
    completed: u64,
)
    ensures
        marked(dirty, file_id, completed).contains(
            TransferFileProgress { id: file_id, completed_bytes: completed },
        ),
        forall|entry: TransferFileProgress|
            #![trigger marked(dirty, file_id, completed).contains(entry)]
            #![trigger dirty.contains(entry)]
            entry.id != file_id ==> (marked(dirty, file_id, completed).contains(entry)
                <==> dirty.contains(entry)),
        (forall|left: int, right: int|
            0 <= left < right < dirty.len() ==> (#[trigger] dirty[left]).id != (
            #[trigger] dirty[right]).id) ==> forall|entry: TransferFileProgress|
            entry.id == file_id && #[trigger] marked(dirty, file_id, completed).contains(entry)
                ==> entry.completed_bytes == completed,
    decreases dirty.len(),
{
    let entry = TransferFileProgress { id: file_id, completed_bytes: completed };
    let after = marked(dirty, file_id, completed);
    if dirty.len() == 0 {
        assert(after[0] == entry);
    } else if dirty[0].id == file_id {
        let rest = dirty.skip(1);
        assert(after[0] == entry);
        assert forall|other: TransferFileProgress| other.id != file_id implies (after.contains(
            other,
        ) <==> dirty.contains(other)) by {
            if after.contains(other) {
                let spot = choose|spot: int| 0 <= spot < after.len() && after[spot] == other;
                assert(dirty[spot] == other);
            }
            if dirty.contains(other) {
                let spot = choose|spot: int| 0 <= spot < dirty.len() && dirty[spot] == other;
                assert(after[spot] == other);
            }
        }
        if forall|left: int, right: int|
            0 <= left < right < dirty.len() ==> (#[trigger] dirty[left]).id != (
            #[trigger] dirty[right]).id {
            assert forall|other: TransferFileProgress|
                other.id == file_id && #[trigger] after.contains(
                    other,
                ) implies other.completed_bytes == completed by {
                let spot = choose|spot: int| 0 <= spot < after.len() && after[spot] == other;
                if spot > 0 {
                    assert(dirty[0].id != dirty[spot].id);
                }
            }
        }
    } else {
        let rest = dirty.skip(1);
        let later = marked(rest, file_id, completed);
        moved_file_is_marked(rest, file_id, completed);
        let spot = choose|spot: int| 0 <= spot < later.len() && later[spot] == entry;
        assert(after[spot + 1] == entry);
        assert forall|other: TransferFileProgress| other.id != file_id implies (after.contains(
            other,
        ) <==> dirty.contains(other)) by {
            if after.contains(other) {
                let spot = choose|spot: int| 0 <= spot < after.len() && after[spot] == other;
                if spot > 0 {
                    assert(later[spot - 1] == other);
                    assert(later.contains(other));
                    let source = choose|source: int|
                        0 <= source < rest.len() && rest[source] == other;
                    assert(dirty[source + 1] == other);
                } else {
                    assert(dirty[0] == other);
                }
            }
            if dirty.contains(other) {
                let spot = choose|spot: int| 0 <= spot < dirty.len() && dirty[spot] == other;
                if spot > 0 {
                    assert(rest[spot - 1] == other);
                    assert(rest.contains(other));
                    assert(later.contains(other));
                    let target = choose|target: int|
                        0 <= target < later.len() && later[target] == other;
                    assert(after[target + 1] == other);
                } else {
                    assert(after[0] == other);
                }
            }
        }
        if forall|left: int, right: int|
            0 <= left < right < dirty.len() ==> (#[trigger] dirty[left]).id != (
            #[trigger] dirty[right]).id {
            assert forall|left: int, right: int| 0 <= left < right < rest.len() implies (
            #[trigger] rest[left]).id != (#[trigger] rest[right]).id by {
                assert(dirty[left + 1].id != dirty[right + 1].id);
            }
            assert forall|other: TransferFileProgress|
                other.id == file_id && #[trigger] after.contains(
                    other,
                ) implies other.completed_bytes == completed by {
                let spot = choose|spot: int| 0 <= spot < after.len() && after[spot] == other;
                if spot > 0 {
                    assert(later[spot - 1] == other);
                    assert(later.contains(other));
                }
            }
        }
    }
}

proof fn quotient_covers(rest: u64, speed: u64)
    requires
        speed > 0,
    ensures
        (rest / speed) * speed <= rest,
        rest < (rest / speed + 1) * speed,
{
    let seconds = rest / speed;
    vstd::arithmetic::div_mod::lemma_fundamental_div_mod(rest as int, speed as int);
    vstd::arithmetic::div_mod::lemma_mod_bound(rest as int, speed as int);
    assert(seconds * speed == speed * seconds) by (nonlinear_arith);
    assert((seconds + 1) * speed == seconds * speed + speed) by (nonlinear_arith);
}

/// Progress is noted in the first transfer with that identifier, whose file and
/// count move on, and in no other. The speed shown is that of the completed
/// bytes; at a speed above zero the seconds left are as many as it takes for the
/// bytes that are not completed yet, and at none there is no telling. What is
/// told says the same, as of a new revision, with the file that has moved.
pub proof fn progress_is_shown_and_told(
    manager: ManagerModel,
    id: Seq<char>,
    file_id: u64,
    completed: u64,
    now: u64,
    now_ms: i64,
    speed: spec_fn(u64) -> u64,
)
    requires
        manager.sound(),
    ensures
        manager.progressed(id, file_id, completed, now, now_ms, speed) matches Ok((after, told))
            ==> exists|place: int|
            {
                let before = manager.state.transfers[place];
                let moved = after.state.transfers[place];
                &&& 0 <= place < manager.state.transfers.len()
                &&& (#[trigger] manager.state.transfers[place]).id == id
                &&& before.progressed(file_id, completed, now_ms) matches Ok((counted, _)) && (
                TransferModel {
                    speed_bytes_per_second: counted.speed_bytes_per_second,
                    remaining_seconds: counted.remaining_seconds,
                    ..moved
                }) == counted
                &&& moved.total_bytes == before.total_bytes
                &&& moved.completed_bytes <= moved.total_bytes
                &&& moved.speed_bytes_per_second == speed(moved.completed_bytes)
                &&& match moved.remaining_seconds {
                    Some(seconds) => {
                        &&& moved.speed_bytes_per_second > 0
                        &&& seconds * moved.speed_bytes_per_second <= moved.total_bytes
                            - moved.completed_bytes
                        &&& moved.total_bytes - moved.completed_bytes < (seconds + 1)
                            * moved.speed_bytes_per_second
                    },
                    None => moved.speed_bytes_per_second == 0,
                }
                &&& after.state.transfers.len() == manager.state.transfers.len()
                &&& forall|other: int|
                    0 <= other < manager.state.transfers.len() && other != place
                        ==> #[trigger] after.state.transfers[other]
                        == manager.state.transfers[other]
                &&& after.base_revision == manager.base_revision
                &&& match told {
                    Some(progress) => {
                        &&& progress.transfer_id == id
                        &&& progress.completed_bytes == moved.completed_bytes
                        &&& progress.speed_bytes_per_second == moved.speed_bytes_per_second
                        &&& progress.remaining_seconds == moved.remaining_seconds
                        &&& progress.updated_at_ms == now_ms
                        &&& progress.base_revision == manager.base_revision
                        &&& progress.revision == after.state.revision
                        &&& manager.state.revision < u64::MAX ==> progress.revision
                            == manager.state.revision + 1
                        &&& progress.files.contains(
                            TransferFileProgress { id: file_id, completed_bytes: completed },
                        )
                    },
                    None => after.state.revision == manager.state.revision,
                }
            },
{
    if let Ok((after, told)) = manager.progressed(id, file_id, completed, now, now_ms, speed) {
        first_transfer_is_first(manager.state.transfers, id);
        let place = first_transfer(manager.state.transfers, id)->0;
        let before = manager.state.transfers[place];
        assert(booked(before));
        crate::domain::transfer::progress_keeps_the_books(before, file_id, completed, now_ms);
        crate::domain::transfer::progress_reaches_its_file_alone(
            before,
            file_id,
            completed,
            now_ms,
        );
        let (counted, finished) = before.progressed(file_id, completed, now_ms)->Ok_0;
        let rate = speed(counted.completed_bytes);
        if rate > 0 {
            quotient_covers((counted.total_bytes - counted.completed_bytes) as u64, rate);
        }
        let dirty = if manager.emissions.contains_key(id) {
            manager.emissions[id].dirty
        } else {
            Seq::empty()
        };
        moved_file_is_marked(dirty, file_id, completed);
        assert(manager.state.transfers[place].id == id);
    }
}

/// Of one transfer progress is told at once the first time and whenever a file
/// is finished, and otherwise not until a tenth of a second after it was told
/// last; what is not told is kept for the next time.
pub proof fn progress_is_told_in_measure(
    manager: ManagerModel,
    id: Seq<char>,
    file_id: u64,
    completed: u64,
    now: u64,
    now_ms: i64,
    speed: spec_fn(u64) -> u64,
)
    ensures
        manager.progressed(id, file_id, completed, now, now_ms, speed) matches Ok((after, told))
            ==> {
            &&& !manager.emissions.contains_key(id) ==> told is Some
            &&& after.emissions.contains_key(id)
            &&& told is Some ==> after.emissions[id].last == Some(now)
                && after.emissions[id].dirty.len() == 0
            &&& manager.emissions.contains_key(id) && manager.emissions[id].last is None
                ==> told is Some
            &&& told is None ==> {
                &&& manager.emissions.contains_key(id)
                &&& manager.emissions[id].last matches Some(last) && now < last + 100
                &&& after.emissions[id].last == manager.emissions[id].last
                &&& after.emissions[id].dirty.contains(
                    TransferFileProgress { id: file_id, completed_bytes: completed },
                )
                &&& forall|entry: TransferFileProgress|
                    entry.id != file_id && #[trigger] manager.emissions[id].dirty.contains(entry)
                        ==> after.emissions[id].dirty.contains(entry)
            }
            &&& (manager.emissions.contains_key(id) && (manager.emissions[id].last matches Some(
                last,
            ) && now >= last + 100)) ==> told is Some
            &&& (told is Some && manager.emissions.contains_key(id)) ==> (forall|
                entry: TransferFileProgress,
            |
                entry.id != file_id && #[trigger] manager.emissions[id].dirty.contains(entry)
                    ==> told->0.files.contains(entry))
            &&& forall|place: int|
                {
                    &&& 0 <= place < manager.state.transfers.len()
                    &&& (#[trigger] manager.state.transfers[place]).id == id
                    &&& forall|other: int|
                        0 <= other < manager.state.transfers.len() && other != place ==> (
                        #[trigger] manager.state.transfers[other]).id != id
                    &&& manager.state.transfers[place].progressed(
                        file_id,
                        completed,
                        now_ms,
                    ) matches Ok((_, finished)) && finished
                } ==> told is Some
            &&& forall|other: Seq<char>|
                other != id && #[trigger] manager.emissions.contains_key(other)
                    ==> after.emissions.contains_key(other) && after.emissions[other]
                    == manager.emissions[other]
        },
{
    first_transfer_is_first(manager.state.transfers, id);
    let dirty = if manager.emissions.contains_key(id) {
        manager.emissions[id].dirty
    } else {
        Seq::empty()
    };
    moved_file_is_marked(dirty, file_id, completed);
}

/// A transfer that is rewound has completed nothing, in none of its files, and
/// is otherwise the same.
pub proof fn rewinding_forgets_the_progress_alone(transfer: TransferModel)
    ensures
        ({
            let after = rewound(transfer);
            &&& after.completed_bytes == 0
            &&& after.speed_bytes_per_second == 0
            &&& after.remaining_seconds is None
            &&& after.files.len() == transfer.files.len()
            &&& forall|place: int|
                0 <= place < transfer.files.len() ==> (
                #[trigger] after.files[place]).completed_bytes == 0 && (FileModel {
                    completed_bytes: transfer.files[place].completed_bytes,
                    ..after.files[place]
                }) == transfer.files[place]
            &&& (TransferModel {
                files: transfer.files,
                completed_bytes: transfer.completed_bytes,
                speed_bytes_per_second: transfer.speed_bytes_per_second,
                remaining_seconds: transfer.remaining_seconds,
                ..after
            }) == transfer
        }),
{
}

/// A change of status that may follow is made: the transfer stands in its place
/// with the new status as of now, otherwise as it was, and so do all others.
/// One that may not follow is refused and leaves the list as it was. Where the
/// transfer is over then, nothing is left to tell of its progress.
pub proof fn a_status_that_may_follow_is_shown(
    manager: ManagerModel,
    id: Seq<char>,
    status: TransferStatus,
    now_ms: i64,
    place: int,
)
    requires
        0 <= place < manager.state.transfers.len(),
        manager.state.transfers[place].id == id,
        forall|earlier: int|
            0 <= earlier < place ==> (#[trigger] manager.state.transfers[earlier]).id != id,
        crate::application::history::over_count(manager.state.transfers) < 200,
    ensures
        ({
            let before = manager.state.transfers[place];
            let (after, outcome) = manager.transitioned(id, status, now_ms);
            let shown = after.state.transfers[place];
            &&& outcome is Ok <==> before.status.may_become(status)
            &&& outcome is Err ==> after.state == manager.state
            &&& outcome is Ok ==> {
                &&& shown.status == status
                &&& shown.updated_at_ms == now_ms
                &&& (TransferModel {
                    status: before.status,
                    updated_at_ms: before.updated_at_ms,
                    ..shown
                }) == before
            }
            &&& after.state.transfers.len() == manager.state.transfers.len()
            &&& forall|other: int|
                0 <= other < manager.state.transfers.len() && other != place
                    ==> #[trigger] after.state.transfers[other] == manager.state.transfers[other]
            &&& status.over() ==> !after.emissions.contains_key(id)
            &&& after.jobs == manager.jobs
            &&& after.pending == manager.pending
            &&& after.policies == manager.policies
            &&& after.running == manager.running
            &&& after.identity == manager.identity
        }),
{
    let transfers = manager.state.transfers;
    first_transfer_is_first(transfers, id);
    if transfers[place].status.may_become(status) {
        let updated = transfers.update(
            place,
            TransferModel { status, updated_at_ms: now_ms, ..transfers[place] },
        );
        ends_after_update(transfers, place, updated[place]);
        crate::application::history::pruning_keeps_what_is_live(updated);
    }
}

} // verus!

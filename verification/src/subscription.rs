//! A consumer's place in the stream of events.

use crate::application::manager::{ManagerModel, TransferManager};
use crate::domain::transfer::{EventModel, ProgressModel, SnapshotModel};
use crate::domain::{TransferEvent, TransferProgress};
use crate::text::decimal_text;
use vstd::prelude::*;
use vstd::string::*;

verus! {

/// Each consumer owns a cursor. A slow consumer recovers from the current state
/// instead of taking in progress whose basis it has missed.
#[derive(Debug, Clone, Copy, PartialEq, Eq, Structural)]
pub struct TransferSubscription {
    pub initialized: bool,
    pub revision: u64,
    pub base_revision: u64,
}

/// What reaches a consumer.
#[derive(Debug, PartialEq, Eq)]
pub enum Signal {
    /// The service has been told to stop.
    Stopping,
    /// Everything has been shown anew.
    Shown,
    /// Nothing will be shown any more.
    ViewsClosed,
    /// Progress has been told.
    Told(TransferProgress),
    /// Progress was told that this consumer has missed.
    Missed,
    /// No progress will be told any more.
    ProgressClosed,
    /// Something went wrong.
    Diagnostic(String),
    /// So many things went wrong that this consumer has missed.
    DiagnosticsDropped(u64),
    /// Nothing will be said to go wrong any more.
    DiagnosticsClosed,
}

/// What comes of a signal.
#[derive(Debug, PartialEq, Eq)]
pub enum Notice {
    /// Nothing: the consumer goes on waiting.
    Pending,
    /// An event.
    Event(TransferEvent),
    /// There are no more events.
    Ended,
}

/// The mathematical value of a [`Signal`].
pub enum SignalModel {
    Stopping,
    Shown,
    ViewsClosed,
    Told(ProgressModel),
    Missed,
    ProgressClosed,
    Diagnostic(Seq<char>),
    DiagnosticsDropped(u64),
    DiagnosticsClosed,
}

impl View for Signal {
    type V = SignalModel;

    open spec fn view(&self) -> SignalModel {
        match self {
            Signal::Stopping => SignalModel::Stopping,
            Signal::Shown => SignalModel::Shown,
            Signal::ViewsClosed => SignalModel::ViewsClosed,
            Signal::Told(progress) => SignalModel::Told(progress@),
            Signal::Missed => SignalModel::Missed,
            Signal::ProgressClosed => SignalModel::ProgressClosed,
            Signal::Diagnostic(message) => SignalModel::Diagnostic(message@),
            Signal::DiagnosticsDropped(count) => SignalModel::DiagnosticsDropped(*count),
            Signal::DiagnosticsClosed => SignalModel::DiagnosticsClosed,
        }
    }
}

/// The mathematical value of a [`Notice`].
pub enum NoticeModel {
    Pending,
    Event(EventModel),
    Ended,
}

impl View for Notice {
    type V = NoticeModel;

    open spec fn view(&self) -> NoticeModel {
        match self {
            Notice::Pending => NoticeModel::Pending,
            Notice::Event(event) => NoticeModel::Event(event@),
            Notice::Ended => NoticeModel::Ended,
        }
    }
}

impl TransferSubscription {
    /// A consumer that has been told nothing yet.
    pub fn new() -> (subscription: TransferSubscription)
        ensures
            subscription == (TransferSubscription {
                initialized: false,
                revision: 0,
                base_revision: 0,
            }),
    {
        TransferSubscription { initialized: false, revision: 0, base_revision: 0 }
    }

    /// The cursor and the event when everything is taken anew.
    pub open spec fn rebased(self, manager: ManagerModel) -> (TransferSubscription, NoticeModel) {
        (
            TransferSubscription {
                initialized: true,
                revision: manager.state.revision,
                base_revision: manager.base_revision,
            },
            NoticeModel::Event(
                EventModel::Snapshot {
                    snapshot: manager.state,
                    base_revision: manager.base_revision,
                },
            ),
        )
    }

    /// The cursor and what comes of asking for an event, before anything
    /// reaches the consumer.
    pub open spec fn asked(self, manager: ManagerModel) -> (TransferSubscription, NoticeModel) {
        if manager.stopping {
            (self, NoticeModel::Ended)
        } else if !self.initialized {
            self.rebased(manager)
        } else {
            (self, NoticeModel::Pending)
        }
    }

    /// The cursor and what comes of a signal. Progress that is known already is
    /// passed over, progress that follows on what is known is an event, and any
    /// other progress calls for the current state.
    pub open spec fn noticed(self, manager: ManagerModel, signal: SignalModel) -> (
        TransferSubscription,
        NoticeModel,
    ) {
        match signal {
            SignalModel::Stopping => (self, NoticeModel::Ended),
            SignalModel::Shown => self.rebased(manager),
            SignalModel::ViewsClosed => (self, NoticeModel::Ended),
            SignalModel::Told(progress) => if progress.revision <= self.revision {
                (self, NoticeModel::Pending)
            } else if progress.base_revision == self.base_revision && progress.revision
                == self.revision + 1 {
                (
                    TransferSubscription { revision: progress.revision, ..self },
                    NoticeModel::Event(EventModel::Progress(progress)),
                )
            } else {
                self.rebased(manager)
            },
            SignalModel::Missed => self.rebased(manager),
            SignalModel::ProgressClosed => (self, NoticeModel::Ended),
            SignalModel::Diagnostic(message) => (
                self,
                NoticeModel::Event(EventModel::Error { message }),
            ),
            SignalModel::DiagnosticsDropped(count) => (
                self,
                NoticeModel::Event(
                    EventModel::Error {
                        message: crate::text::decimal(count as nat)
                            + " transfer diagnostics were dropped"@,
                    },
                ),
            ),
            SignalModel::DiagnosticsClosed => (self, NoticeModel::Ended),
        }
    }

    fn baseline(&mut self, manager: &TransferManager) -> (notice: Notice)
        ensures
            (*final(self), notice@) == old(self).rebased(manager@),
    {
        let (snapshot, base_revision) = manager.event_baseline();
        self.initialized = true;
        self.revision = snapshot.revision;
        self.base_revision = base_revision;
        Notice::Event(TransferEvent::Snapshot { snapshot, base_revision })
    }

    /// Asks for an event, before waiting for a signal.
    pub fn ask(&mut self, manager: &TransferManager) -> (notice: Notice)
        ensures
            (*final(self), notice@) == old(self).asked(manager@),
    {
        if manager.is_stopping() {
            return Notice::Ended;
        }
        if !self.initialized {
            return self.baseline(manager);
        }
        Notice::Pending
    }

    /// Takes in a signal.
    pub fn next(&mut self, manager: &TransferManager, signal: Signal) -> (notice: Notice)
        ensures
            (*final(self), notice@) == old(self).noticed(manager@, signal@),
    {
        match signal {
            Signal::Stopping | Signal::ViewsClosed | Signal::ProgressClosed
            | Signal::DiagnosticsClosed => Notice::Ended,
            Signal::Shown | Signal::Missed => self.baseline(manager),
            Signal::Told(progress) => {
                if progress.revision <= self.revision {
                    return Notice::Pending;
                }
                if progress.base_revision == self.base_revision && progress.revision
                    == self.revision + 1 {
                    self.revision = progress.revision;
                    return Notice::Event(TransferEvent::Progress(progress));
                }
                self.baseline(manager)
            },
            Signal::Diagnostic(message) => Notice::Event(TransferEvent::Error { message }),
            Signal::DiagnosticsDropped(count) => Notice::Event(
                TransferEvent::Error {
                    message: decimal_text(count).concat(" transfer diagnostics were dropped"),
                },
            ),
        }
    }
}

/// The revision and the basis of what a consumer sees after an event.
pub open spec fn seen_after(event: EventModel, revision: u64, base_revision: u64) -> (u64, u64) {
    match event {
        EventModel::Snapshot { snapshot, base_revision } => (snapshot.revision, base_revision),
        EventModel::Progress(progress) => (progress.revision, base_revision),
        EventModel::Error { .. } => (revision, base_revision),
    }
}

/// The events that a consumer gets are without a gap: progress comes only where
/// it follows directly on what the consumer sees, on the same basis, and the
/// cursor always stands where the consumer's view does.
pub proof fn delivered_progress_is_contiguous(
    cursor: TransferSubscription,
    manager: ManagerModel,
    signal: SignalModel,
)
    ensures
        cursor.noticed(manager, signal).1 matches NoticeModel::Event(event) ==> {
            let after = cursor.noticed(manager, signal).0;
            &&& (after.revision, after.base_revision) == seen_after(
                event,
                cursor.revision,
                cursor.base_revision,
            )
            &&& event matches EventModel::Progress(progress) ==> progress.revision
                == cursor.revision + 1 && progress.base_revision == cursor.base_revision
        },
        cursor.noticed(manager, signal).1 matches NoticeModel::Pending ==> cursor.noticed(
            manager,
            signal,
        ).0 == cursor,
{
}

/// A consumer that has missed progress is shown the current state.
pub proof fn missed_progress_is_recovered(
    cursor: TransferSubscription,
    manager: ManagerModel,
    progress: ProgressModel,
)
    requires
        progress.revision > cursor.revision + 1 || (progress.revision > cursor.revision
            && progress.base_revision != cursor.base_revision),
    ensures
        cursor.noticed(manager, SignalModel::Told(progress)) == cursor.rebased(manager),
        cursor.noticed(manager, SignalModel::Missed) == cursor.rebased(manager),
{
}

/// A consumer that sees what the service saw, and then gets the event that a
/// recorded progress tells, sees what the service sees.
pub proof fn consumer_stays_in_step(
    cursor: TransferSubscription,
    manager: ManagerModel,
    shown: SnapshotModel,
    id: Seq<char>,
    file_id: u64,
    completed: u64,
    now: u64,
    now_ms: i64,
    speed: spec_fn(u64) -> u64,
)
    requires
        crate::application::manager::events::in_step(manager, shown),
        cursor.revision == shown.revision,
        cursor.base_revision == manager.base_revision,
        shown.revision < u64::MAX,
        crate::application::manager::events::distinct_transfers(manager.state.transfers),
        forall|place: int|
            0 <= place < manager.state.transfers.len()
                ==> crate::application::manager::events::distinct_files(
                (#[trigger] manager.state.transfers[place]).files,
            ),
    ensures
        manager.progressed(id, file_id, completed, now, now_ms, speed) matches Ok(
            (after, Some(progress)),
        ) ==> {
            let (moved, notice) = cursor.noticed(after, SignalModel::Told(progress));
            &&& notice == NoticeModel::Event(EventModel::Progress(progress))
            &&& crate::application::manager::events::in_step(
                after,
                crate::application::manager::events::applied(shown, progress),
            )
            &&& moved.revision == after.state.revision
            &&& moved.base_revision == after.base_revision
        },
{
    crate::application::manager::events::progress_events_keep_in_step(
        manager,
        shown,
        id,
        file_id,
        completed,
        now,
        now_ms,
        speed,
    );
}

/// What a consumer gets when it asks: nothing any more once the service stops,
/// everything that is shown the first time, and then what reaches it.
pub proof fn the_first_event_shows_everything(
    cursor: TransferSubscription,
    manager: ManagerModel,
)
    ensures
        manager.stopping ==> cursor.asked(manager).1 == NoticeModel::Ended,
        !manager.stopping && !cursor.initialized ==> cursor.asked(manager).1 == NoticeModel::Event(
            EventModel::Snapshot {
                snapshot: manager.state,
                base_revision: manager.base_revision,
            },
        ) && cursor.asked(manager).0.initialized && cursor.asked(manager).0.revision
            == manager.state.revision && cursor.asked(manager).0.base_revision
            == manager.base_revision,
        !manager.stopping && cursor.initialized ==> cursor.asked(manager) == (
            cursor,
            NoticeModel::Pending,
        ),
        !manager.stopping ==> cursor.asked(manager).0.asked(manager).1 == NoticeModel::Pending,
{
}

/// Progress that follows on what a consumer has seen reaches it as it was told,
/// progress that it has seen does not, and whatever it may have missed is made
/// up for by everything that is shown. What went wrong is passed on.
pub proof fn signals_reach_the_consumer(
    cursor: TransferSubscription,
    manager: ManagerModel,
    progress: ProgressModel,
    message: Seq<char>,
    count: u64,
)
    ensures
        progress.base_revision == cursor.base_revision && progress.revision == cursor.revision + 1
            ==> cursor.noticed(manager, SignalModel::Told(progress)).1 == NoticeModel::Event(
            EventModel::Progress(progress),
        ),
        progress.revision <= cursor.revision ==> cursor.noticed(
            manager,
            SignalModel::Told(progress),
        ) == (cursor, NoticeModel::Pending),
        cursor.noticed(manager, SignalModel::Shown).1 == NoticeModel::Event(
            EventModel::Snapshot {
                snapshot: manager.state,
                base_revision: manager.base_revision,
            },
        ),
        cursor.noticed(manager, SignalModel::Missed).1 == cursor.noticed(
            manager,
            SignalModel::Shown,
        ).1,
        cursor.noticed(manager, SignalModel::Diagnostic(message)) == (
            cursor,
            NoticeModel::Event(EventModel::Error { message }),
        ),
        cursor.noticed(manager, SignalModel::DiagnosticsDropped(count)).1 == NoticeModel::Event(
            EventModel::Error {
                message: crate::text::decimal(count as nat) + " transfer diagnostics were dropped"@,
            },
        ),
        cursor.noticed(manager, SignalModel::Stopping).1 == NoticeModel::Ended,
        cursor.noticed(manager, SignalModel::ViewsClosed).1 == NoticeModel::Ended,
        cursor.noticed(manager, SignalModel::ProgressClosed).1 == NoticeModel::Ended,
        cursor.noticed(manager, SignalModel::DiagnosticsClosed).1 == NoticeModel::Ended,
{
}

} // verus!

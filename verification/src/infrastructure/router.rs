//! Which of the streams that a session accepts goes where.

use super::grants::FileStreamOpen;
use crate::application::manager::{ManagerModel, TransferManager};
use crate::error::{ErrorModel, TransferError};
use crate::text::same_text;
use std::collections::{HashMap, HashSet};
use vstd::prelude::*;
use vstd::std_specs::hash::*;
use vstd::string::*;

verus! {

/// The code with which a stream is closed when its transfer is cancelled.
pub const TRANSFER_CANCELLED_CLOSE_CODE: u32 = 0x4152;

/// The code with which a stream is closed for any other reason.
pub const FAILED_STREAM_CODE: u32 = 0x4153;

/// How many files of one transfer are on their way at once.
pub const FILE_STREAM_CONCURRENCY: usize = 4;

/// The head of a stream that a session has accepted.
#[derive(Debug, PartialEq, Eq)]
pub struct StreamHead {
    /// What the stream is for.
    pub feature_id: String,
    /// Whether its version can be spoken.
    pub compatible: bool,
    pub operation: String,
    /// Whether nothing came with the head.
    pub bare: bool,
    /// What came with the head, read as the request to send a file, if it is
    /// one.
    pub open: Option<FileStreamOpen>,
}

/// Where a stream goes.
#[derive(Debug, Clone, Copy, PartialEq, Eq, Structural)]
pub enum Route {
    /// It is closed with that code.
    Reject(u32),
    /// It brings an offer; room was taken for the job.
    Offer,
    /// It brings a file of the transfer with that number.
    File(u64),
}

/// The transfers of one session that receive files, each with the number of its
/// streams that wait to be taken.
pub struct SessionRouter {
    routes: HashMap<u64, usize>,
}

impl View for SessionRouter {
    type V = Map<u64, usize>;

    closed spec fn view(&self) -> Map<u64, usize> {
        self.routes@
    }
}

/// Where a stream goes, given the transfers that receive files and whether
/// there is room for a job.
pub open spec fn routed(routes: Map<u64, usize>, head: StreamHead, room: bool) -> Route {
    if head.feature_id@ != "arcrelay.transfer"@ || !head.compatible {
        Route::Reject(FAILED_STREAM_CODE)
    } else if head.operation@ == "offer"@ && head.bare {
        if room {
            Route::Offer
        } else {
            Route::Reject(FAILED_STREAM_CODE)
        }
    } else if head.operation@ == "file"@ {
        match head.open {
            Some(open) => if routes.contains_key(open.transfer_id) && routes[open.transfer_id]
                < FILE_STREAM_CONCURRENCY {
                Route::File(open.transfer_id)
            } else {
                Route::Reject(FAILED_STREAM_CODE)
            },
            None => Route::Reject(FAILED_STREAM_CODE),
        }
    } else {
        Route::Reject(FAILED_STREAM_CODE)
    }
}

/// The transfers that receive files after a stream went somewhere.
pub open spec fn after_routing(routes: Map<u64, usize>, route: Route) -> Map<u64, usize> {
    match route {
        Route::File(id) => routes.insert(id, (routes[id] + 1) as usize),
        _ => routes,
    }
}

impl SessionRouter {
    /// A session in which no transfer receives files.
    pub fn new() -> (router: SessionRouter)
        ensures
            router@ == Map::<u64, usize>::empty(),
    {
        broadcast use group_hash_axioms;

        SessionRouter { routes: HashMap::new() }
    }

    /// Lets a transfer receive files, unless one with that number does.
    pub fn register(&mut self, id: u64) -> (result: Result<(), TransferError>)
        ensures
            match result {
                Ok(_) => !old(self)@.contains_key(id) && final(self)@ == old(self)@.insert(
                    id,
                    0usize,
                ),
                Err(error) => {
                    &&& old(self)@.contains_key(id)
                    &&& final(self)@ == old(self)@
                    &&& error@ == ErrorModel::Invalid("duplicate active transfer id"@)
                },
            },
    {
        broadcast use group_hash_axioms;

        if self.routes.contains_key(&id) {
            return Err(TransferError::invalid("duplicate active transfer id"));
        }
        let _ = self.routes.insert(id, 0);
        Ok(())
    }

    /// Ends that a transfer receives files.
    pub fn unregister(&mut self, id: u64)
        ensures
            final(self)@ == old(self)@.remove(id),
    {
        broadcast use group_hash_axioms;

        let _ = self.routes.remove(&id);
    }

    /// Notes that a waiting stream of a transfer was taken.
    pub fn take(&mut self, id: u64)
        ensures
            final(self)@ == (if old(self)@.contains_key(id) && old(self)@[id] > 0 {
                old(self)@.insert(id, (old(self)@[id] - 1) as usize)
            } else {
                old(self)@
            }),
    {
        broadcast use group_hash_axioms;

        let waiting = match self.routes.get(&id) {
            Some(count) => *count,
            None => 0,
        };
        if waiting > 0 {
            let _ = self.routes.insert(id, waiting - 1);
        }
    }

    /// Decides where a stream goes, and takes room for a job where it brings an
    /// offer.
    pub fn route(&mut self, manager: &mut TransferManager, head: &StreamHead) -> (route: Route)
        requires
            old(manager).wf(),
        ensures
            final(manager).wf(),
            route == routed(old(self)@, *head, old(manager)@.has_room()),
            final(self)@ == after_routing(old(self)@, route),
            final(manager)@ == (if route == Route::Offer {
                ManagerModel { running: (old(manager)@.running + 1) as usize, ..old(manager)@ }
            } else {
                old(manager)@
            }),
    {
        broadcast use group_hash_axioms;

        if !same_text(head.feature_id.as_str(), "arcrelay.transfer") || !head.compatible {
            return Route::Reject(FAILED_STREAM_CODE);
        }
        if same_text(head.operation.as_str(), "offer") && head.bare {
            if manager.acquire_slot() {
                return Route::Offer;
            }
            return Route::Reject(FAILED_STREAM_CODE);
        }
        if same_text(head.operation.as_str(), "file") {
            if let Some(open) = &head.open {
                let waiting = match self.routes.get(&open.transfer_id) {
                    Some(count) => Some(*count),
                    None => None,
                };
                if let Some(count) = waiting {
                    if count < FILE_STREAM_CONCURRENCY {
                        let _ = self.routes.insert(open.transfer_id, count + 1);
                        return Route::File(open.transfer_id);
                    }
                }
            }
        }
        Route::Reject(FAILED_STREAM_CODE)
    }
}

/// A file goes to no transfer but one that receives files in this session, and
/// never to one whose streams pile up; everything else is closed with the code
/// for failure.
pub proof fn files_reach_only_open_transfers(
    routes: Map<u64, usize>,
    head: StreamHead,
    room: bool,
)
    ensures
        routed(routes, head, room) matches Route::File(id) ==> {
            &&& routes.contains_key(id)
            &&& after_routing(routes, Route::File(id))[id] <= FILE_STREAM_CONCURRENCY
            &&& head.open matches Some(open) && open.transfer_id == id
        },
        routed(routes, head, room) matches Route::Reject(code) ==> code == FAILED_STREAM_CODE,
        routed(routes, head, room) == Route::Offer ==> room,
{
}

/// The sessions that have a router, which accepts their streams.
pub struct RoutedSessions {
    sessions: HashSet<u64>,
}

impl View for RoutedSessions {
    type V = Set<u64>;

    closed spec fn view(&self) -> Set<u64> {
        self.sessions@
    }
}

impl RoutedSessions {
    /// No session has a router.
    pub fn new() -> (routed: RoutedSessions)
        ensures
            routed@ == Set::<u64>::empty(),
    {
        broadcast use group_hash_axioms;

        RoutedSessions { sessions: HashSet::new() }
    }

    /// Sees to it that a session has a router, and says whether it gets a new
    /// one: where it had none, or where the one that it had is no longer
    /// `alive`.
    pub fn ensure(&mut self, key: u64, alive: bool) -> (fresh: bool)
        ensures
            fresh == !(old(self)@.contains(key) && alive),
            final(self)@ == old(self)@.insert(key),
    {
        broadcast use group_hash_axioms;

        let known = self.sessions.contains(&key);
        let ghost before = self.sessions@;
        let _ = self.sessions.insert(key);
        assert(self.sessions@ =~= before.insert(key));
        !(known && alive)
    }

    /// Notes that the router of a session has ended.
    pub fn end(&mut self, key: u64)
        ensures
            final(self)@ == old(self)@.remove(key),
    {
        broadcast use group_hash_axioms;

        let _ = self.sessions.remove(&key);
    }
}

/// The code with which a stream is closed after an error.
pub open spec fn close_code(error: ErrorModel) -> u32 {
    if error == ErrorModel::Cancelled {
        TRANSFER_CANCELLED_CLOSE_CODE
    } else {
        FAILED_STREAM_CODE
    }
}

/// The code with which a stream is closed after an error.
pub fn stream_close_code(error: &TransferError) -> (code: u32)
    ensures
        code == close_code(error@),
{
    match error {
        TransferError::Cancelled => TRANSFER_CANCELLED_CLOSE_CODE,
        _ => FAILED_STREAM_CODE,
    }
}

/// What it means that a stream could not be read.
pub open spec fn read_failure(reset_code: Option<u64>, reason: Seq<char>) -> ErrorModel {
    if reset_code == Some(TRANSFER_CANCELLED_CLOSE_CODE as u64) {
        ErrorModel::Cancelled
    } else {
        ErrorModel::Network(reason)
    }
}

/// What it means that a stream could not be read: the code with which the other
/// side closed it, if it did, tells a cancelled transfer.
pub fn failed_read(reset_code: Option<u64>, reason: &str) -> (error: TransferError)
    ensures
        error@ == read_failure(reset_code, reason@),
{
    match reset_code {
        Some(code) => if code == TRANSFER_CANCELLED_CLOSE_CODE as u64 {
            TransferError::Cancelled
        } else {
            TransferError::network(reason)
        },
        None => TransferError::network(reason),
    }
}

/// A stream that is closed because its transfer was cancelled tells the other
/// side so, and any other closing tells a failure.
pub proof fn cancellation_crosses_the_wire(error: ErrorModel, reason: Seq<char>)
    ensures
        read_failure(Some(close_code(error) as u64), reason) == ErrorModel::Cancelled <==> error
            == ErrorModel::Cancelled,
{
}

/// What it means that the other side wrote on the control stream, or ended it,
/// while nothing was due.
pub fn unexpected_control() -> (error: TransferError)
    ensures
        error@ == ErrorModel::Network("transfer control stream ended unexpectedly"@),
{
    TransferError::network("transfer control stream ended unexpectedly")
}

/// What a session accepts: only streams of this feature in a version that can be
/// spoken; an offer wherever there is room for a job; and a file wherever its
/// transfer receives files and fewer than four of them wait.
pub proof fn streams_go_where_they_belong(
    routes: Map<u64, usize>,
    head: StreamHead,
    room: bool,
)
    ensures
        head.feature_id@ != "arcrelay.transfer"@ || !head.compatible ==> routed(routes, head, room)
            is Reject,
        head.feature_id@ == "arcrelay.transfer"@ && head.compatible && head.operation@ == "offer"@
            && head.bare ==> (routed(routes, head, room) == Route::Offer <==> room),
        routed(routes, head, room) == Route::Offer ==> head.operation@ == "offer"@ && head.bare,
        head.feature_id@ == "arcrelay.transfer"@ && head.compatible && head.operation@ == "file"@
            ==> (head.open matches Some(open) ==> (routed(routes, head, room) == Route::File(
            open.transfer_id,
        ) <==> routes.contains_key(open.transfer_id) && routes[open.transfer_id] < 4)),
        routed(routes, head, room) is File ==> head.operation@ == "file"@ && head.open is Some,
{
    reveal_strlit("offer");
    reveal_strlit("file");
    assert("offer"@.len() == 5 && "file"@.len() == 4);
}

/// A file that is accepted waits with those of its transfer, and no other
/// transfer is concerned.
pub proof fn an_accepted_file_waits_for_its_transfer(routes: Map<u64, usize>, id: u64, other: u64)
    requires
        routes.contains_key(id),
        routes[id] < 4,
    ensures
        after_routing(routes, Route::File(id)).contains_key(id),
        after_routing(routes, Route::File(id))[id] == routes[id] + 1,
        other != id ==> (after_routing(routes, Route::File(id)).contains_key(other)
            <==> routes.contains_key(other)),
        other != id && routes.contains_key(other) ==> after_routing(routes, Route::File(id))[other]
            == routes[other],
        after_routing(routes, Route::Offer) == routes,
{
}

/// The two codes with which a stream is closed are told apart, and the reason of
/// any other failure is kept.
pub proof fn close_codes_are_told_apart(error: ErrorModel, code: u64, reason: Seq<char>)
    ensures
        close_code(ErrorModel::Cancelled) == 0x4152,
        error != ErrorModel::Cancelled ==> close_code(error) == 0x4153,
        read_failure(Some(0x4152), reason) == ErrorModel::Cancelled,
        code != 0x4152 ==> read_failure(Some(code), reason) == ErrorModel::Network(reason),
        read_failure(None, reason) == ErrorModel::Network(reason),
{
}

} // verus!

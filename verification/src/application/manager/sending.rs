//! How a transfer to a peer is taken on, and the changes that sending and
//! receiving make to a transfer on its way.

use super::peers::first_peer;
use super::{booked, first_transfer, rewound, ManagerModel, TransferManager, MAX_RUNNING_JOBS};
use crate::application::control::JobControl;
use crate::domain::peer::PeerModel;
use crate::domain::transfer::{completed_total, file_models, sizes_total, FileModel, TransferModel};
use crate::domain::{
    NearbyPeer, TransferDirection, TransferFileView, TransferStatus, TransferView,
};
use crate::error::{modeled, ErrorModel, TransferError};
use crate::infrastructure::encoding::{data_url, preview_data_url};
use crate::infrastructure::file_stream::{FileReceiver, FileStreamResult, ReceiveAction};
use crate::infrastructure::filesystem::{
    file_kind, file_name_of, kind_of_extension, media_type, media_type_of_extension, path_extension,
    MAX_FILE_COUNT,
};
use crate::infrastructure::identifiers::{draw_uuid, random_nonzero_u64, uuid_text};
use crate::infrastructure::preparation::{file_name, prepared_models, PreparedFile, PreparedModel};
use crate::text::{joined, texts};
use vstd::prelude::*;
use vstd::string::*;

verus! {

/// Whether `inspect` shows at each place what `looks` says: whether there is a
/// regular file, and no link to one.
pub open spec fn inspects_as<I: Fn(usize) -> Result<bool, TransferError>>(
    inspect: I,
    looks: spec_fn(int) -> Result<bool, ErrorModel>,
) -> bool {
    forall|place: usize, result: Result<bool, TransferError>| #[trigger]
        inspect.ensures((place,), result) ==> modeled(result) == looks(place as int)
}

/// Whether `measure` gives at each place the size that `sizes` says.
pub open spec fn sizes_as<M: Fn(usize) -> Result<u64, TransferError>>(
    measure: M,
    sizes: spec_fn(int) -> Result<u64, ErrorModel>,
) -> bool {
    forall|place: usize, result: Result<u64, TransferError>| #[trigger]
        measure.ensures((place,), result) ==> modeled(result) == sizes(place as int)
}

/// Whether every path leads to a regular file, or what is wrong with the first
/// one that does not.
pub open spec fn all_regular(
    paths: Seq<Seq<char>>,
    looks: spec_fn(int) -> Result<bool, ErrorModel>,
) -> Result<(), ErrorModel>
    decreases paths.len(),
{
    if paths.len() == 0 {
        Ok(())
    } else {
        match all_regular(paths.drop_last(), looks) {
            Err(error) => Err(error),
            Ok(_) => match looks(paths.len() - 1) {
                Err(error) => Err(error),
                Ok(regular) => if regular {
                    Ok(())
                } else {
                    Err(
                        ErrorModel::Invalid(
                            "not a regular file that can be sent: "@ + paths.last(),
                        ),
                    )
                },
            },
        }
    }
}

/// A file that is about to be sent.
pub open spec fn outgoing_file(id: u64, path: Seq<char>, name: Seq<char>, size: u64) -> FileModel {
    FileModel {
        id,
        name,
        relative_path: name,
        local_path: None,
        receive_directory: None,
        size,
        media_type: media_type_of_extension(path_extension(path)),
        kind: kind_of_extension(path_extension(path)),
        thumbnail_data_url: None,
        completed_bytes: 0,
    }
}

/// The files at paths as they are about to be sent, with their size in all; or
/// what is wrong with the first one that cannot be.
pub open spec fn listed_files(
    paths: Seq<Seq<char>>,
    sizes: spec_fn(int) -> Result<u64, ErrorModel>,
) -> Result<(Seq<FileModel>, u64), ErrorModel>
    decreases paths.len(),
{
    if paths.len() == 0 {
        Ok((Seq::empty(), 0))
    } else {
        match listed_files(paths.drop_last(), sizes) {
            Err(error) => Err(error),
            Ok((files, total)) => match sizes(paths.len() - 1) {
                Err(error) => Err(error),
                Ok(size) => if total + size > u64::MAX {
                    Err(ErrorModel::Invalid("transfer file is too large"@))
                } else {
                    match file_name_of(paths.last()) {
                        None => Err(
                            ErrorModel::Invalid("invalid file name: "@ + paths.last()),
                        ),
                        Some(name) => Ok(
                            (
                                files.push(
                                    outgoing_file(paths.len() as u64, paths.last(), name, size),
                                ),
                                (total + size) as u64,
                            ),
                        ),
                    }
                },
            },
        }
    }
}

/// A transfer to a peer at its very start.
pub open spec fn preparing_transfer(
    id: Seq<char>,
    wire_id: u64,
    peer: PeerModel,
    files: Seq<FileModel>,
    total: u64,
    now_ms: i64,
) -> TransferModel {
    TransferModel {
        id,
        wire_id,
        peer_id: peer.id,
        peer_name: peer.name,
        direction: TransferDirection::Sending,
        status: TransferStatus::Preparing,
        files,
        total_bytes: total,
        completed_bytes: 0,
        speed_bytes_per_second: 0,
        remaining_seconds: None,
        error_message: None,
        created_at_ms: now_ms,
        updated_at_ms: now_ms,
    }
}

/// A file with a preview, where one was made of it.
pub open spec fn with_preview(file: FileModel, prepared: Seq<PreparedModel>) -> FileModel {
    match first_prepared(prepared, file.id) {
        Some(place) => FileModel {
            thumbnail_data_url: match prepared[place].preview {
                Some(preview) => data_url(preview.media_type, preview.data),
                None => None,
            },
            ..file
        },
        None => file,
    }
}

/// The place of the first prepared file with that number.
pub open spec fn first_prepared(prepared: Seq<PreparedModel>, id: u64) -> Option<int>
    decreases prepared.len(),
{
    if prepared.len() == 0 {
        None
    } else {
        match first_prepared(prepared.drop_last(), id) {
            Some(place) => Some(place),
            None => if prepared.last().manifest.file_id == id {
                Some(prepared.len() - 1)
            } else {
                None
            },
        }
    }
}

/// A transfer with the previews of its files.
pub open spec fn illustrated(transfer: TransferModel, prepared: Seq<PreparedModel>) -> TransferModel {
    TransferModel {
        files: transfer.files.map_values(|file: FileModel| with_preview(file, prepared)),
        ..transfer
    }
}

/// The place of the file with that number in a received transfer.
pub open spec fn stored_file(
    transfer: TransferModel,
    file_id: u64,
    local_path: Seq<char>,
    directory: Seq<char>,
) -> Result<TransferModel, ErrorModel> {
    match crate::domain::transfer::first_file(transfer.files, file_id) {
        None => Err(ErrorModel::Invalid("received file record is missing"@)),
        Some(place) => Ok(
            TransferModel {
                files: transfer.files.update(
                    place,
                    FileModel {
                        local_path: Some(local_path),
                        receive_directory: Some(directory),
                        ..transfer.files[place]
                    },
                ),
                ..transfer
            },
        ),
    }
}

impl ManagerModel {
    /// What comes of a request to send the files at paths to a peer.
    pub open spec fn sending(
        self,
        id: Seq<char>,
        wire_id: u64,
        peer_id: Seq<char>,
        paths: Seq<Seq<char>>,
        looks: spec_fn(int) -> Result<bool, ErrorModel>,
        sizes: spec_fn(int) -> Result<u64, ErrorModel>,
        now_ms: i64,
    ) -> Result<(ManagerModel, PeerModel), ErrorModel> {
        if self.stopping {
            Err(ErrorModel::InvalidState("transfer runtime is stopping"@))
        } else if self.running >= MAX_RUNNING_JOBS {
            Err(ErrorModel::InvalidState("transfer capacity exhausted"@))
        } else if paths.len() == 0 {
            Err(ErrorModel::Invalid("select at least one file"@))
        } else if paths.len() > MAX_FILE_COUNT {
            Err(ErrorModel::Invalid("no more than 256 files can be sent at once"@))
        } else {
            match all_regular(paths, looks) {
                Err(error) => Err(error),
                Ok(_) => match first_peer(self.state.peers, peer_id) {
                    None => Err(ErrorModel::PeerNotFound(peer_id)),
                    Some(place) => match listed_files(paths, sizes) {
                        Err(error) => Err(error),
                        Ok((files, total)) => {
                            let peer = self.state.peers[place];
                            let transfer = preparing_transfer(
                                id,
                                wire_id,
                                peer,
                                files,
                                total,
                                now_ms,
                            );
                            let taken_on = self.pushed(transfer).with_job(
                                id,
                                (JobControl { paused: false, cancelled: false }),
                            );
                            Ok(
                                (
                                    ManagerModel {
                                        running: (self.running + 1) as usize,
                                        ..taken_on
                                    },
                                    peer,
                                ),
                            )
                        },
                    },
                },
            }
        }
    }

    /// The service after a job has ended, with an error or without: a job that
    /// was cancelled leaves its transfer cancelled, any other error leaves it
    /// failed.
    pub open spec fn ended(
        self,
        id: Seq<char>,
        outcome: Result<(), ErrorModel>,
        now_ms: i64,
    ) -> ManagerModel {
        let noted = match outcome {
            Ok(_) => self,
            Err(ErrorModel::Cancelled) => self.transitioned(
                id,
                TransferStatus::Cancelled,
                now_ms,
            ).0,
            Err(error) => self.failed(id, error.message(), now_ms),
        };
        ManagerModel {
            jobs: noted.jobs.remove(id),
            running: (if noted.running > 0 {
                noted.running - 1
            } else {
                0
            }) as usize,
            ..noted
        }
    }
}

fn check_paths<I: Fn(usize) -> Result<bool, TransferError>>(
    paths: &Vec<String>,
    inspect: I,
) -> (result: Result<(), TransferError>)
    requires
        forall|place: usize| place < paths@.len() ==> #[trigger] inspect.requires((place,)),
    ensures
        forall|looks: spec_fn(int) -> Result<bool, ErrorModel>| #[trigger]
            inspects_as(inspect, looks) ==> crate::error::outcome(result) == all_regular(
                texts(paths@),
                looks,
            ),
{
    let ghost listed = texts(paths@);
    let mut place: usize = 0;
    assert(listed.take(0) =~= Seq::empty());
    while place < paths.len()
        invariant
            place <= paths@.len(),
            listed == texts(paths@),
            forall|place: usize| place < paths@.len() ==> #[trigger] inspect.requires((place,)),
            forall|looks: spec_fn(int) -> Result<bool, ErrorModel>| #[trigger]
                inspects_as(inspect, looks) ==> all_regular(listed.take(place as int), looks)
                    is Ok,
        decreases paths@.len() - place,
    {
        let ghost next = listed.take(place + 1);
        proof {
            assert(next.drop_last() =~= listed.take(place as int));
            assert(next.last() == paths@[place as int]@);
        }
        let shown = inspect(place);
        proof {
            assert forall|looks: spec_fn(int) -> Result<bool, ErrorModel>| #[trigger]
                inspects_as(inspect, looks) implies modeled(shown) == looks(place as int) by {
                assert(inspect.ensures((place,), shown));
            }
            assert forall|looks: spec_fn(int) -> Result<bool, ErrorModel>| #[trigger]
                inspects_as(inspect, looks) && all_regular(next, looks) is Err implies all_regular(
                listed,
                looks,
            ) == all_regular(next, looks) by {
                first_irregular_decides(listed, looks, place + 1);
            }
        }
        match shown {
            Err(error) => {
                return Err(error);
            },
            Ok(regular) => {
                if !regular {
                    return Err(
                        TransferError::Invalid(
                            joined(
                                "not a regular file that can be sent: ",
                                paths[place].as_str(),
                            ),
                        ),
                    );
                }
            },
        }
        place += 1;
    }
    proof {
        assert(listed.take(listed.len() as int) =~= listed);
    }
    Ok(())
}

proof fn first_irregular_decides(
    paths: Seq<Seq<char>>,
    looks: spec_fn(int) -> Result<bool, ErrorModel>,
    length: int,
)
    requires
        0 <= length <= paths.len(),
        all_regular(paths.take(length), looks) is Err,
    ensures
        all_regular(paths, looks) == all_regular(paths.take(length), looks),
    decreases paths.len(),
{
    if length == paths.len() {
        assert(paths.take(length) =~= paths);
    } else {
        assert(paths.drop_last().take(length) =~= paths.take(length));
        first_irregular_decides(paths.drop_last(), looks, length);
    }
}

proof fn first_unlisted_decides(
    paths: Seq<Seq<char>>,
    sizes: spec_fn(int) -> Result<u64, ErrorModel>,
    length: int,
)
    requires
        0 <= length <= paths.len(),
        listed_files(paths.take(length), sizes) is Err,
    ensures
        listed_files(paths, sizes) == listed_files(paths.take(length), sizes),
    decreases paths.len(),
{
    if length == paths.len() {
        assert(paths.take(length) =~= paths);
    } else {
        assert(paths.drop_last().take(length) =~= paths.take(length));
        first_unlisted_decides(paths.drop_last(), sizes, length);
    }
}

/// What came of listing files.
pub open spec fn listing_outcome(
    result: Result<(Vec<TransferFileView>, u64), TransferError>,
) -> Result<(Seq<FileModel>, u64), ErrorModel> {
    match result {
        Ok((files, total)) => Ok((file_models(files@), total)),
        Err(error) => Err(error@),
    }
}

/// The files at paths as they are about to be sent, with their size in all.
pub fn list_files<M: Fn(usize) -> Result<u64, TransferError>>(
    paths: &Vec<String>,
    measure: M,
) -> (result: Result<(Vec<TransferFileView>, u64), TransferError>)
    requires
        forall|place: usize| place < paths@.len() ==> #[trigger] measure.requires((place,)),
        paths@.len() < u64::MAX,
    ensures
        forall|sizes: spec_fn(int) -> Result<u64, ErrorModel>| #[trigger]
            sizes_as(measure, sizes) ==> listing_outcome(result) == listed_files(
                texts(paths@),
                sizes,
            ),
        result matches Ok((files, total)) ==> {
            &&& total == sizes_total(file_models(files@))
            &&& forall|place: int|
                0 <= place < files@.len() ==> (#[trigger] file_models(
                    files@,
                )[place]).completed_bytes == 0
        },
{
    let ghost listed = texts(paths@);
    let mut files: Vec<TransferFileView> = Vec::new();
    let mut total: u64 = 0;
    let mut place: usize = 0;
    proof {
        assert(listed.take(0) =~= Seq::empty());
        assert(file_models(files@) =~= Seq::empty());
    }
    while place < paths.len()
        invariant
            place <= paths@.len() < u64::MAX,
            listed == texts(paths@),
            forall|place: usize| place < paths@.len() ==> #[trigger] measure.requires((place,)),
            total == sizes_total(file_models(files@)),
            forall|other: int|
                0 <= other < files@.len() ==> (#[trigger] file_models(
                    files@,
                )[other]).completed_bytes == 0,
            forall|sizes: spec_fn(int) -> Result<u64, ErrorModel>| #[trigger]
                sizes_as(measure, sizes) ==> listed_files(listed.take(place as int), sizes) == Ok::<
                    _,
                    ErrorModel,
                >((file_models(files@), total)),
        decreases paths@.len() - place,
    {
        let ghost next = listed.take(place + 1);
        let ghost before = file_models(files@);
        proof {
            assert(next.drop_last() =~= listed.take(place as int));
            assert(next.last() == paths@[place as int]@);
            assert(next.len() == place + 1);
        }
        let measured = measure(place);
        proof {
            assert forall|sizes: spec_fn(int) -> Result<u64, ErrorModel>| #[trigger]
                sizes_as(measure, sizes) implies modeled(measured) == sizes(place as int) by {
                assert(measure.ensures((place,), measured));
            }
            assert forall|sizes: spec_fn(int) -> Result<u64, ErrorModel>| #[trigger]
                sizes_as(measure, sizes) && listed_files(next, sizes) is Err implies listed_files(
                listed,
                sizes,
            ) == listed_files(next, sizes) by {
                first_unlisted_decides(listed, sizes, place + 1);
            }
        }
        let size = match measured {
            Ok(size) => size,
            Err(error) => {
                return Err(error);
            },
        };
        let sum = match total.checked_add(size) {
            Some(sum) => sum,
            None => {
                return Err(TransferError::invalid("transfer file is too large"));
            },
        };
        let path = paths[place].as_str();
        let name = match file_name(path) {
            Ok(name) => name,
            Err(error) => {
                return Err(error);
            },
        };
        let file = TransferFileView {
            id: place as u64 + 1,
            name: name.clone(),
            relative_path: name,
            local_path: None,
            receive_directory: None,
            size,
            media_type: media_type(path).to_owned(),
            kind: file_kind(path),
            thumbnail_data_url: None,
            completed_bytes: 0,
        };
        files.push(file);
        total = sum;
        proof {
            assert(file_models(files@) =~= before.push(file@));
            assert(before.push(file@).drop_last() =~= before);
        }
        place += 1;
    }
    proof {
        assert(listed.take(listed.len() as int) =~= listed);
    }
    Ok((files, total))
}

proof fn nothing_completed(files: Seq<FileModel>)
    requires
        forall|place: int|
            0 <= place < files.len() ==> (#[trigger] files[place]).completed_bytes == 0,
    ensures
        completed_total(files) == 0,
    decreases files.len(),
{
    if files.len() > 0 {
        let front = files.drop_last();
        assert forall|place: int| 0 <= place < front.len() implies (
        #[trigger] front[place]).completed_bytes == 0 by {
            assert(front[place] == files[place]);
        }
        nothing_completed(front);
        assert(files[files.len() - 1] == files.last());
    }
}

/// A transfer that is counted right and has moved nothing is in the books.
pub(crate) proof fn fresh_transfer_is_booked(transfer: TransferModel)
    requires
        transfer.total_bytes == sizes_total(transfer.files),
        transfer.completed_bytes == 0,
        forall|place: int|
            0 <= place < transfer.files.len() ==> (
            #[trigger] transfer.files[place]).completed_bytes == 0,
    ensures
        booked(transfer),
{
    nothing_completed(transfer.files);
}

proof fn sizes_total_of_alike(one: Seq<FileModel>, other: Seq<FileModel>)
    requires
        one.len() == other.len(),
        forall|place: int|
            0 <= place < one.len() ==> (#[trigger] one[place]).size == other[place].size,
    ensures
        sizes_total(one) == sizes_total(other),
    decreases one.len(),
{
    if one.len() > 0 {
        let left = one.drop_last();
        let right = other.drop_last();
        assert forall|place: int| 0 <= place < left.len() implies (#[trigger] left[place]).size
            == right[place].size by {
            assert(left[place] == one[place] && right[place] == other[place]);
        }
        sizes_total_of_alike(left, right);
        assert(one[one.len() - 1] == one.last());
    }
}

proof fn completed_total_of_alike(one: Seq<FileModel>, other: Seq<FileModel>)
    requires
        one.len() == other.len(),
        forall|place: int|
            0 <= place < one.len() ==> (#[trigger] one[place]).completed_bytes
                == other[place].completed_bytes,
    ensures
        completed_total(one) == completed_total(other),
    decreases one.len(),
{
    if one.len() > 0 {
        let left = one.drop_last();
        let right = other.drop_last();
        assert forall|place: int| 0 <= place < left.len() implies (
        #[trigger] left[place]).completed_bytes == right[place].completed_bytes by {
            assert(left[place] == one[place] && right[place] == other[place]);
        }
        completed_total_of_alike(left, right);
        assert(one[one.len() - 1] == one.last());
    }
}

/// A transfer stays in the books when its files change in nothing that is
/// counted.
proof fn alike_transfer_is_booked(transfer: TransferModel, files: Seq<FileModel>)
    requires
        booked(transfer),
        files.len() == transfer.files.len(),
        forall|place: int|
            0 <= place < files.len() ==> (#[trigger] files[place]).size
                == transfer.files[place].size && files[place].completed_bytes
                == transfer.files[place].completed_bytes,
    ensures
        booked(TransferModel { files, ..transfer }),
{
    sizes_total_of_alike(files, transfer.files);
    completed_total_of_alike(files, transfer.files);
    if transfer.accounted() {
        assert forall|place: int| 0 <= place < files.len() implies (
        #[trigger] files[place]).completed_bytes <= files[place].size by {
            assert(transfer.files[place].completed_bytes <= transfer.files[place].size);
        }
    }
}

/// What came of a request to send.
pub open spec fn sending_outcome(
    after: ManagerModel,
    result: Result<NearbyPeer, TransferError>,
) -> Result<(ManagerModel, PeerModel), ErrorModel> {
    match result {
        Ok(peer) => Ok((after, peer@)),
        Err(error) => Err(error@),
    }
}

impl TransferManager {
    /// Takes on a transfer of the files at paths to a peer, under an identifier
    /// and a number on the wire. `inspect` says whether the path at a place
    /// leads to a regular file, `measure` gives its size.
    pub fn send_files_as<
        I: Fn(usize) -> Result<bool, TransferError>,
        M: Fn(usize) -> Result<u64, TransferError>,
    >(
        &mut self,
        id: &str,
        wire_id: u64,
        peer_id: &str,
        paths: &Vec<String>,
        inspect: I,
        measure: M,
        now_ms: i64,
    ) -> (result: Result<NearbyPeer, TransferError>)
        requires
            old(self).wf(),
            forall|place: usize|
                place < paths@.len() <= MAX_FILE_COUNT ==> #[trigger] inspect.requires((place,)),
            forall|place: usize|
                place < paths@.len() <= MAX_FILE_COUNT ==> #[trigger] measure.requires((place,)),
        ensures
            final(self).wf(),
            result is Err ==> final(self)@ == old(self)@,
            forall|
                looks: spec_fn(int) -> Result<bool, ErrorModel>,
                sizes: spec_fn(int) -> Result<u64, ErrorModel>,
            | #[trigger]
                inspects_as(inspect, looks) && #[trigger] sizes_as(measure, sizes)
                    ==> sending_outcome(final(self)@, result) == old(self)@.sending(
                    id@,
                    wire_id,
                    peer_id@,
                    texts(paths@),
                    looks,
                    sizes,
                    now_ms,
                ),
    {
        if self.stopping {
            return Err(TransferError::invalid_state("transfer runtime is stopping"));
        }
        if self.running >= MAX_RUNNING_JOBS {
            return Err(TransferError::invalid_state("transfer capacity exhausted"));
        }
        if paths.len() == 0 {
            return Err(TransferError::invalid("select at least one file"));
        }
        if paths.len() > MAX_FILE_COUNT {
            return Err(TransferError::invalid("no more than 256 files can be sent at once"));
        }
        match check_paths(paths, inspect) {
            Ok(()) => {},
            Err(error) => {
                return Err(error);
            },
        }
        let peer = match self.peer(peer_id) {
            Ok(peer) => peer,
            Err(error) => {
                return Err(error);
            },
        };
        let (files, total_bytes) = match list_files(paths, measure) {
            Ok(listing) => listing,
            Err(error) => {
                return Err(error);
            },
        };
        let transfer = TransferView {
            id: id.to_owned(),
            wire_id,
            peer_id: peer.id.clone(),
            peer_name: peer.name.clone(),
            direction: TransferDirection::Sending,
            status: TransferStatus::Preparing,
            files,
            total_bytes,
            completed_bytes: 0,
            speed_bytes_per_second: 0,
            remaining_seconds: None,
            error_message: None,
            created_at_ms: now_ms,
            updated_at_ms: now_ms,
        };
        proof {
            fresh_transfer_is_booked(transfer@);
        }
        self.push_transfer(transfer);
        self.register_job(id);
        self.running = self.running + 1;
        Ok(peer)
    }

    /// Takes on a transfer of the files at paths to a peer, under a new
    /// identifier, which is handed out with the peer.
    pub fn send_files<
        I: Fn(usize) -> Result<bool, TransferError>,
        M: Fn(usize) -> Result<u64, TransferError>,
    >(
        &mut self,
        peer_id: &str,
        paths: &Vec<String>,
        inspect: I,
        measure: M,
        now_ms: i64,
    ) -> (result: Result<(String, NearbyPeer), TransferError>)
        requires
            old(self).wf(),
            forall|place: usize|
                place < paths@.len() <= MAX_FILE_COUNT ==> #[trigger] inspect.requires((place,)),
            forall|place: usize|
                place < paths@.len() <= MAX_FILE_COUNT ==> #[trigger] measure.requires((place,)),
        ensures
            final(self).wf(),
            result is Err ==> final(self)@ == old(self)@,
            exists|id: Seq<char>, wire_id: u64|
                {
                    &&& #[trigger] drawn(id, wire_id)
                    &&& result matches Ok((given, _)) ==> given@ == id
                    &&& forall|
                        looks: spec_fn(int) -> Result<bool, ErrorModel>,
                        sizes: spec_fn(int) -> Result<u64, ErrorModel>,
                    | #[trigger]
                        inspects_as(inspect, looks) && #[trigger] sizes_as(measure, sizes)
                            ==> sending_outcome(
                            final(self)@,
                            match result {
                                Ok((_, peer)) => Ok(peer),
                                Err(error) => Err(error),
                            },
                        ) == old(self)@.sending(
                            id,
                            wire_id,
                            peer_id@,
                            texts(paths@),
                            looks,
                            sizes,
                            now_ms,
                        )
                },
    {
        let id = draw_uuid();
        let wire_id = random_nonzero_u64();
        assert(drawn(id@, wire_id));
        match self.send_files_as(id.as_str(), wire_id, peer_id, paths, inspect, measure, now_ms) {
            Ok(peer) => Ok((id, peer)),
            Err(error) => Err(error),
        }
    }

    /// Notes how a job has ended, and makes room for another.
    pub fn finish_job(&mut self, id: &str, result: &Result<(), TransferError>, now_ms: i64)
        requires
            old(self).wf(),
        ensures
            final(self).wf(),
            final(self)@ == old(self)@.ended(id@, crate::error::outcome(*result), now_ms),
    {
        match result {
            Ok(_) => {},
            Err(TransferError::Cancelled) => {
                let _ = self.transition(id, TransferStatus::Cancelled, now_ms);
            },
            Err(error) => {
                self.fail_transfer(id, error.message().as_str(), now_ms);
            },
        }
        self.remove_job(id);
        self.release_slot();
    }

    /// The number on the wire of a transfer.
    pub fn wire_id(&self, id: &str) -> (result: Result<u64, TransferError>)
        ensures
            match result {
                Ok(wire_id) => first_transfer(self@.state.transfers, id@) matches Some(place)
                    && wire_id == self@.state.transfers[place].wire_id,
                Err(error) => first_transfer(self@.state.transfers, id@) is None && error@
                    == ErrorModel::TransferNotFound(id@),
            },
    {
        match self.find_transfer(id) {
            Some(place) => Ok(self.state.transfers[place].wire_id),
            None => Err(TransferError::TransferNotFound(id.to_owned())),
        }
    }

    /// Sets all counts of a transfer's progress back to the start.
    pub fn rewind(&mut self, id: &str) -> (result: Result<(), TransferError>)
        requires
            old(self).wf(),
        ensures
            final(self).wf(),
            match result {
                Ok(_) => old(self)@.changed(
                    id@,
                    |transfer: TransferModel| Ok(rewound(transfer)),
                ) == Ok::<_, ErrorModel>(final(self)@),
                Err(error) => {
                    &&& old(self)@.changed(
                        id@,
                        |transfer: TransferModel| Ok(rewound(transfer)),
                    ) == Err::<ManagerModel, _>(error@)
                    &&& final(self)@ == old(self)@
                },
            },
    {
        let ghost before = self@;
        let place = match self.find_transfer(id) {
            Some(place) => place,
            None => {
                return Err(TransferError::TransferNotFound(id.to_owned()));
            },
        };
        let mut transfer = self.state.transfers[place].clone();
        let ghost given = transfer@;
        let ghost wanted = rewound(given).files;
        let mut index: usize = 0;
        while index < transfer.files.len()
            invariant
                index <= transfer.files@.len() == given.files.len(),
                wanted == rewound(given).files,
                transfer@ == (TransferModel { files: file_models(transfer.files@), ..given }),
                forall|other: int|
                    0 <= other < index ==> (#[trigger] transfer.files@[other])@ == wanted[other],
                forall|other: int|
                    index <= other < transfer.files@.len() ==> (#[trigger] transfer.files@[other])@
                        == given.files[other],
            decreases transfer.files@.len() - index,
        {
            assert(transfer.files@[index as int]@ == given.files[index as int]);
            transfer.files[index].completed_bytes = 0;
            index += 1;
        }
        transfer.completed_bytes = 0;
        transfer.speed_bytes_per_second = 0;
        transfer.remaining_seconds = None;
        proof {
            assert(file_models(transfer.files@) =~= wanted);
            assert(transfer@ == rewound(given));
            assert(given == before.state.transfers[place as int]);
            assert(booked(given));
            if !given.status.over() {
                sizes_total_of_alike(wanted, given.files);
                fresh_transfer_is_booked(transfer@);
            }
        }
        self.state.transfers.set(place, transfer);
        proof {
            assert(self@.state.transfers =~= before.state.transfers.update(
                place as int,
                transfer@,
            ));
            assert(self@ == before.with_transfer(place as int, transfer@));
            self.one_changed(before, place as int);
        }
        self.settle();
        Ok(())
    }

    /// Shows the previews of files that are about to be sent.
    pub fn attach_previews(&mut self, id: &str, prepared: &Vec<PreparedFile>) -> (result: Result<
        (),
        TransferError,
    >)
        requires
            old(self).wf(),
        ensures
            final(self).wf(),
            match result {
                Ok(_) => old(self)@.changed(
                    id@,
                    |transfer: TransferModel|
                        Ok(illustrated(transfer, prepared_models(prepared@))),
                ) == Ok::<_, ErrorModel>(final(self)@),
                Err(error) => {
                    &&& old(self)@.changed(
                        id@,
                        |transfer: TransferModel|
                            Ok(illustrated(transfer, prepared_models(prepared@))),
                    ) == Err::<ManagerModel, _>(error@)
                    &&& final(self)@ == old(self)@
                },
            },
    {
        let ghost before = self@;
        let ghost models = prepared_models(prepared@);
        let place = match self.find_transfer(id) {
            Some(place) => place,
            None => {
                return Err(TransferError::TransferNotFound(id.to_owned()));
            },
        };
        let mut transfer = self.state.transfers[place].clone();
        let ghost given = transfer@;
        let ghost wanted = illustrated(given, models).files;
        let mut index: usize = 0;
        while index < transfer.files.len()
            invariant
                index <= transfer.files@.len() == given.files.len(),
                models == prepared_models(prepared@),
                wanted == illustrated(given, models).files,
                transfer@ == (TransferModel { files: file_models(transfer.files@), ..given }),
                forall|other: int|
                    0 <= other < index ==> (#[trigger] transfer.files@[other])@ == wanted[other],
                forall|other: int|
                    index <= other < transfer.files@.len() ==> (#[trigger] transfer.files@[other])@
                        == given.files[other],
            decreases transfer.files@.len() - index,
        {
            assert(transfer.files@[index as int]@ == given.files[index as int]);
            let mut file = transfer.files[index].clone();
            match find_prepared(prepared, file.id) {
                Some(found) => {
                    assert(models[found as int] == prepared@[found as int]@);
                    file.thumbnail_data_url = match &prepared[found].preview {
                        Some(preview) => preview_data_url(
                            preview.media_type.as_str(),
                            preview.data.as_slice(),
                        ),
                        None => None,
                    };
                },
                None => {},
            }
            assert(file@ == with_preview(given.files[index as int], models));
            transfer.files.set(index, file);
            index += 1;
        }
        proof {
            assert(file_models(transfer.files@) =~= wanted);
            assert(transfer@ == illustrated(given, models));
            assert(given == before.state.transfers[place as int]);
            assert(booked(given));
            alike_transfer_is_booked(given, wanted);
        }
        self.state.transfers.set(place, transfer);
        proof {
            assert(self@.state.transfers =~= before.state.transfers.update(
                place as int,
                transfer@,
            ));
            assert(self@ == before.with_transfer(place as int, transfer@));
            self.one_changed(before, place as int);
        }
        self.settle();
        Ok(())
    }

    /// Ends the receipt of a file that was found good. `claimed` is the name that
    /// was given to it in its directory, or why it got none, `parent` the text
    /// of that directory with the separator behind it, and `directory` the
    /// receive directory. Only a file with a name is noted as stored, and only
    /// one that is noted is reported to the sender.
    pub fn store_received(
        &mut self,
        id: &str,
        receiver: &FileReceiver,
        claimed: Result<String, TransferError>,
        parent: &str,
        directory: &str,
    ) -> (result: Result<FileStreamResult, TransferError>)
        requires
            old(self).wf(),
            receiver.wf(),
            receiver@.wants() == ReceiveAction::Store,
        ensures
            final(self).wf(),
            match claimed {
                Ok(name) => {
                    let noted = old(self)@.changed(
                        id@,
                        |transfer: TransferModel|
                            stored_file(
                                transfer,
                                receiver@.file_id,
                                parent@ + name@,
                                directory@,
                            ),
                    );
                    match result {
                        Ok(report) => noted == Ok::<_, ErrorModel>(final(self)@) && report@
                            == receiver@.report(),
                        Err(error) => noted == Err::<ManagerModel, _>(error@) && final(self)@
                            == old(self)@,
                    }
                },
                Err(failure) => crate::error::outcome(result) == Err::<(), _>(failure@)
                    && final(self)@ == old(self)@,
            },
    {
        let name = match claimed {
            Ok(name) => name,
            Err(failure) => {
                return Err(failure);
            },
        };
        let local_path = joined(parent, name.as_str());
        match self.record_stored_file(id, receiver.file_id(), local_path.as_str(), directory) {
            Ok(()) => Ok(receiver.report()),
            Err(error) => Err(error),
        }
    }

    /// Notes where a received file was finally stored.
    fn record_stored_file(
        &mut self,
        id: &str,
        file_id: u64,
        local_path: &str,
        directory: &str,
    ) -> (result: Result<(), TransferError>)
        requires
            old(self).wf(),
        ensures
            final(self).wf(),
            match result {
                Ok(_) => old(self)@.changed(
                    id@,
                    |transfer: TransferModel|
                        stored_file(transfer, file_id, local_path@, directory@),
                ) == Ok::<_, ErrorModel>(final(self)@),
                Err(error) => {
                    &&& old(self)@.changed(
                        id@,
                        |transfer: TransferModel|
                            stored_file(transfer, file_id, local_path@, directory@),
                    ) == Err::<ManagerModel, _>(error@)
                    &&& final(self)@ == old(self)@
                },
            },
    {
        let ghost before = self@;
        let place = match self.find_transfer(id) {
            Some(place) => place,
            None => {
                return Err(TransferError::TransferNotFound(id.to_owned()));
            },
        };
        let mut transfer = self.state.transfers[place].clone();
        let ghost given = transfer@;
        let found = match find_first_file(&transfer.files, file_id) {
            Some(found) => found,
            None => {
                return Err(TransferError::invalid("received file record is missing"));
            },
        };
        transfer.files[found].local_path = Some(local_path.to_owned());
        transfer.files[found].receive_directory = Some(directory.to_owned());
        proof {
            let files = transfer@.files;
            assert(files =~= given.files.update(
                found as int,
                FileModel {
                    local_path: Some(local_path@),
                    receive_directory: Some(directory@),
                    ..given.files[found as int]
                },
            ));
            assert(given == before.state.transfers[place as int]);
            assert(booked(given));
            alike_transfer_is_booked(given, files);
        }
        self.state.transfers.set(place, transfer);
        proof {
            assert(self@.state.transfers =~= before.state.transfers.update(
                place as int,
                transfer@,
            ));
            assert(self@ == before.with_transfer(place as int, transfer@));
            self.one_changed(before, place as int);
        }
        self.settle();
        Ok(())
    }
}

/// Whether an identifier and a number are as they are drawn for a transfer.
pub open spec fn drawn(id: Seq<char>, wire_id: u64) -> bool {
    uuid_text(id) && wire_id != 0
}

fn find_prepared(prepared: &Vec<PreparedFile>, id: u64) -> (place: Option<usize>)
    ensures
        match place {
            Some(place) => first_prepared(prepared_models(prepared@), id) == Some(place as int)
                && place < prepared@.len(),
            None => first_prepared(prepared_models(prepared@), id) is None,
        },
{
    let ghost models = prepared_models(prepared@);
    let mut place: usize = 0;
    assert(models.take(0) =~= Seq::empty());
    while place < prepared.len()
        invariant
            place <= prepared@.len(),
            models == prepared_models(prepared@),
            first_prepared(models.take(place as int), id) is None,
        decreases prepared@.len() - place,
    {
        proof {
            assert(models.take(place + 1).drop_last() =~= models.take(place as int));
            assert(models.take(place + 1).last() == prepared@[place as int]@);
        }
        if prepared[place].manifest.file_id == id {
            proof {
                first_prepared_extends(models, id, place + 1);
            }
            return Some(place);
        }
        place += 1;
    }
    assert(models.take(models.len() as int) =~= models);
    None
}

proof fn first_prepared_extends(prepared: Seq<PreparedModel>, id: u64, length: int)
    requires
        0 <= length <= prepared.len(),
        first_prepared(prepared.take(length), id) is Some,
    ensures
        first_prepared(prepared, id) == first_prepared(prepared.take(length), id),
    decreases prepared.len(),
{
    if length == prepared.len() {
        assert(prepared.take(length) =~= prepared);
    } else {
        assert(prepared.drop_last().take(length) =~= prepared.take(length));
        first_prepared_extends(prepared.drop_last(), id, length);
    }
}

fn find_first_file(files: &Vec<TransferFileView>, file_id: u64) -> (place: Option<usize>)
    ensures
        match place {
            Some(place) => crate::domain::transfer::first_file(file_models(files@), file_id)
                == Some(place as int) && place < files@.len(),
            None => crate::domain::transfer::first_file(file_models(files@), file_id) is None,
        },
{
    let ghost models = file_models(files@);
    let mut place: usize = 0;
    assert(models.take(0) =~= Seq::empty());
    while place < files.len()
        invariant
            place <= files@.len(),
            models == file_models(files@),
            crate::domain::transfer::first_file(models.take(place as int), file_id) is None,
        decreases files@.len() - place,
    {
        proof {
            assert(models.take(place + 1).drop_last() =~= models.take(place as int));
            assert(models.take(place + 1).last() == files@[place as int]@);
        }
        if files[place].id == file_id {
            proof {
                crate::domain::transfer::first_file_extends(models, file_id, place + 1);
            }
            return Some(place);
        }
        place += 1;
    }
    assert(models.take(models.len() as int) =~= models);
    None
}

/// A received file is recorded as stored in the entry with its number: that
/// entry holds where it was stored and is otherwise as it was, every entry with
/// another number is as it was, and so is the rest of the transfer. It is
/// refused exactly where no entry has that number.
pub proof fn stored_file_is_recorded_in_its_own_entry(
    transfer: TransferModel,
    file_id: u64,
    local_path: Seq<char>,
    directory: Seq<char>,
)
    ensures
        stored_file(transfer, file_id, local_path, directory) is Ok <==> exists|place: int|
            0 <= place < transfer.files.len() && (#[trigger] transfer.files[place]).id == file_id,
        stored_file(transfer, file_id, local_path, directory) matches Ok(after) ==> {
            &&& after.files.len() == transfer.files.len()
            &&& (TransferModel { files: transfer.files, ..after }) == transfer
            &&& forall|place: int|
                0 <= place < transfer.files.len() && (#[trigger] transfer.files[place]).id
                    != file_id ==> after.files[place] == transfer.files[place]
            &&& exists|place: int|
                {
                    &&& 0 <= place < transfer.files.len()
                    &&& (#[trigger] transfer.files[place]).id == file_id
                    &&& after.files[place].local_path == Some(local_path)
                    &&& after.files[place].receive_directory == Some(directory)
                    &&& (FileModel {
                        local_path: transfer.files[place].local_path,
                        receive_directory: transfer.files[place].receive_directory,
                        ..after.files[place]
                    }) == transfer.files[place]
                }
        },
{
    crate::domain::transfer::first_file_is_first(transfer.files, file_id);
    if let Some(place) = crate::domain::transfer::first_file(transfer.files, file_id) {
        assert(transfer.files[place].id == file_id);
    }
}

/// Where a file was stored stays known while other files of the transfer are
/// stored: each entry ends up with its own path.
pub proof fn stored_files_do_not_disturb_each_other(
    transfer: TransferModel,
    one: u64,
    one_path: Seq<char>,
    other: u64,
    other_path: Seq<char>,
    directory: Seq<char>,
    place: int,
)
    requires
        one != other,
        0 <= place < transfer.files.len(),
        transfer.files[place].id == one,
        forall|spot: int|
            0 <= spot < transfer.files.len() && spot != place ==> (
            #[trigger] transfer.files[spot]).id != one,
    ensures
        stored_file(transfer, one, one_path, directory) matches Ok(first) && (stored_file(
            first,
            other,
            other_path,
            directory,
        ) matches Ok(second) ==> second.files[place].local_path == Some(one_path)
            && second.files[place].id == one),
{
    stored_file_is_recorded_in_its_own_entry(transfer, one, one_path, directory);
    let first = stored_file(transfer, one, one_path, directory)->Ok_0;
    let spot = choose|spot: int|
        {
            &&& 0 <= spot < transfer.files.len()
            &&& (#[trigger] transfer.files[spot]).id == one
            &&& first.files[spot].local_path == Some(one_path)
            &&& first.files[spot].receive_directory == Some(directory)
            &&& (FileModel {
                local_path: transfer.files[spot].local_path,
                receive_directory: transfer.files[spot].receive_directory,
                ..first.files[spot]
            }) == transfer.files[spot]
        };
    assert(spot == place);
    stored_file_is_recorded_in_its_own_entry(first, other, other_path, directory);
    assert(first.files[place].id == one);
}

/// The files at paths are listed in the order of the paths, numbered from one,
/// each under the name at the end of its path and with the size that was found,
/// none of it sent yet; their total is the sum of the sizes. That is refused
/// only where a size is not to be had, a path has no name or the total is too
/// large.
pub proof fn files_are_listed_as_they_are_found(
    paths: Seq<Seq<char>>,
    sizes: spec_fn(int) -> Result<u64, ErrorModel>,
)
    ensures
        match listed_files(paths, sizes) {
            Ok((files, total)) => {
                &&& files.len() == paths.len()
                &&& total == sizes_total(files)
                &&& forall|place: int|
                    0 <= place < paths.len() ==> {
                        let file = #[trigger] files[place];
                        &&& paths.len() <= u64::MAX ==> file.id == place + 1
                        &&& file_name_of(paths[place]) == Some(file.name)
                        &&& file.relative_path == file.name
                        &&& sizes(place) == Ok::<_, ErrorModel>(file.size)
                        &&& file.completed_bytes == 0
                        &&& file.local_path is None
                        &&& file.receive_directory is None
                        &&& file.thumbnail_data_url is None
                        &&& file.media_type == media_type_of_extension(path_extension(paths[place]))
                        &&& file.kind == kind_of_extension(path_extension(paths[place]))
                    }
            },
            Err(error) => exists|place: int|
                0 <= place < paths.len() && {
                    ||| sizes(place) == Err::<u64, _>(error)
                    ||| #[trigger] file_name_of(paths[place]) is None && error is Invalid
                    ||| error == ErrorModel::Invalid("transfer file is too large"@)
                },
        },
    decreases paths.len(),
{
    if paths.len() > 0 {
        let front = paths.drop_last();
        let last = paths.len() - 1;
        files_are_listed_as_they_are_found(front, sizes);
        match listed_files(front, sizes) {
            Err(error) => {
                let place = choose|place: int|
                    0 <= place < front.len() && {
                        ||| sizes(place) == Err::<u64, _>(error)
                        ||| #[trigger] file_name_of(front[place]) is None && error is Invalid
                        ||| error == ErrorModel::Invalid("transfer file is too large"@)
                    };
                assert(front[place] == paths[place]);
                assert(file_name_of(paths[place]) == file_name_of(front[place]));
            },
            Ok((before, sum)) => {
                assert(paths.last() == paths[last]);
                assert(file_name_of(paths[last]) == file_name_of(paths.last()));
                if let Ok((files, total)) = listed_files(paths, sizes) {
                    assert(files.drop_last() =~= before);
                    assert forall|place: int| 0 <= place < paths.len() implies {
                        let file = #[trigger] files[place];
                        &&& paths.len() <= u64::MAX ==> file.id == place + 1
                        &&& file_name_of(paths[place]) == Some(file.name)
                        &&& file.relative_path == file.name
                        &&& sizes(place) == Ok::<_, ErrorModel>(file.size)
                        &&& file.completed_bytes == 0
                        &&& file.local_path is None
                        &&& file.receive_directory is None
                        &&& file.thumbnail_data_url is None
                        &&& file.media_type == media_type_of_extension(path_extension(paths[place]))
                        &&& file.kind == kind_of_extension(path_extension(paths[place]))
                    } by {
                        if place < last {
                            assert(front[place] == paths[place]);
                            assert(files[place] == before[place]);
                        }
                    }
                }
            },
        }
    }
}

/// Every path is looked at: all is well exactly where each leads to a regular
/// file.
pub proof fn every_path_must_be_regular(
    paths: Seq<Seq<char>>,
    looks: spec_fn(int) -> Result<bool, ErrorModel>,
)
    ensures
        all_regular(paths, looks) is Ok <==> forall|place: int|
            0 <= place < paths.len() ==> #[trigger] looks(place) == Ok::<_, ErrorModel>(true),
    decreases paths.len(),
{
    if paths.len() > 0 {
        let front = paths.drop_last();
        let last = paths.len() - 1;
        every_path_must_be_regular(front, looks);
        if all_regular(paths, looks) is Ok {
            assert forall|place: int| 0 <= place < paths.len() implies #[trigger] looks(place)
                == Ok::<_, ErrorModel>(true) by {
                if place < last {
                    assert(place < front.len());
                }
            }
        } else if forall|place: int|
            0 <= place < paths.len() ==> #[trigger] looks(place) == Ok::<_, ErrorModel>(true) {
            assert(looks(last) == Ok::<_, ErrorModel>(true));
        }
    }
}

/// A request to send is taken on exactly where the service takes on jobs, at
/// least one and at most 256 files are to be sent, each of them is regular, the
/// peer is known and the files can be listed. The transfer then stands in front:
/// to that peer, with those files, about to be prepared, and with a job of its
/// own.
pub proof fn sending_takes_on_the_files(
    manager: ManagerModel,
    id: Seq<char>,
    wire_id: u64,
    peer_id: Seq<char>,
    paths: Seq<Seq<char>>,
    looks: spec_fn(int) -> Result<bool, ErrorModel>,
    sizes: spec_fn(int) -> Result<u64, ErrorModel>,
    now_ms: i64,
)
    ensures
        manager.sending(id, wire_id, peer_id, paths, looks, sizes, now_ms) is Ok <==> {
            &&& !manager.stopping
            &&& manager.running < 16
            &&& 0 < paths.len() <= 256
            &&& all_regular(paths, looks) is Ok
            &&& first_peer(manager.state.peers, peer_id) is Some
            &&& listed_files(paths, sizes) is Ok
        },
        manager.sending(id, wire_id, peer_id, paths, looks, sizes, now_ms) matches Ok(
            (after, peer),
        ) ==> {
            &&& peer.id == peer_id
            &&& manager.state.peers.contains(peer)
            &&& after.state.transfers.len() > 0
            &&& {
                let transfer = after.state.transfers[0];
                &&& transfer.id == id
                &&& transfer.wire_id == wire_id
                &&& transfer.peer_id == peer_id
                &&& transfer.peer_name == peer.name
                &&& transfer.direction == TransferDirection::Sending
                &&& transfer.status == TransferStatus::Preparing
                &&& listed_files(paths, sizes) == Ok::<_, ErrorModel>(
                    (transfer.files, transfer.total_bytes),
                )
                &&& transfer.completed_bytes == 0
                &&& transfer.speed_bytes_per_second == 0
                &&& transfer.remaining_seconds is None
                &&& transfer.error_message is None
                &&& transfer.created_at_ms == now_ms
                &&& transfer.updated_at_ms == now_ms
            }
            &&& after.running == manager.running + 1
            &&& after.jobs.contains_key(id)
            &&& !after.jobs[id].paused
            &&& !after.jobs[id].cancelled
        },
{
    super::peers::first_peer_is_first(manager.state.peers, peer_id);
    if let Ok((after, peer)) = manager.sending(
        id,
        wire_id,
        peer_id,
        paths,
        looks,
        sizes,
        now_ms,
    ) {
        let place = first_peer(manager.state.peers, peer_id)->0;
        let (files, total) = listed_files(paths, sizes)->Ok_0;
        let transfer = preparing_transfer(id, wire_id, peer, files, total, now_ms);
        super::laws::new_transfer_comes_first(manager, transfer);
        assert(manager.state.peers[place] == peer);
    }
}

/// What [`first_prepared`] finds, and what it means that it finds nothing.
pub proof fn first_prepared_is_first(prepared: Seq<PreparedModel>, id: u64)
    ensures
        match first_prepared(prepared, id) {
            Some(place) => {
                &&& 0 <= place < prepared.len()
                &&& prepared[place].manifest.file_id == id
                &&& forall|earlier: int|
                    0 <= earlier < place ==> (#[trigger] prepared[earlier]).manifest.file_id != id
            },
            None => forall|place: int|
                0 <= place < prepared.len() ==> (#[trigger] prepared[place]).manifest.file_id != id,
        },
    decreases prepared.len(),
{
    if prepared.len() > 0 {
        let shorter = prepared.drop_last();
        first_prepared_is_first(shorter, id);
        assert forall|place: int| 0 <= place < shorter.len() implies shorter[place]
            == #[trigger] prepared[place] by {}
    }
}

/// Each file is shown with the preview that was made of it, of the file with the
/// same number, and of no other; nothing else of the transfer changes.
pub proof fn files_are_shown_with_their_own_previews(
    transfer: TransferModel,
    prepared: Seq<PreparedModel>,
    place: int,
    source: int,
)
    requires
        0 <= place < transfer.files.len(),
        0 <= source < prepared.len(),
        prepared[source].manifest.file_id == transfer.files[place].id,
        forall|other: int|
            0 <= other < prepared.len() && other != source ==> (
            #[trigger] prepared[other]).manifest.file_id != transfer.files[place].id,
    ensures
        ({
            let after = illustrated(transfer, prepared);
            &&& after.files.len() == transfer.files.len()
            &&& (TransferModel { files: transfer.files, ..after }) == transfer
            &&& after.files[place].thumbnail_data_url == (match prepared[source].preview {
                Some(preview) => data_url(preview.media_type, preview.data),
                None => None,
            })
            &&& (FileModel {
                thumbnail_data_url: transfer.files[place].thumbnail_data_url,
                ..after.files[place]
            }) == transfer.files[place]
        }),
{
    first_prepared_is_first(prepared, transfer.files[place].id);
    if let Some(found) = first_prepared(prepared, transfer.files[place].id) {
        assert(prepared[found].manifest.file_id == transfer.files[place].id);
    }
}

/// A job that has ended runs no more and leaves room for another. Where it ended
/// well the list is as it was; where it was cancelled, a transfer that goes on
/// is listed as cancelled, and where it failed, as failed with the message of
/// the error.
pub proof fn end_of_a_job_is_noted(
    manager: ManagerModel,
    id: Seq<char>,
    outcome: Result<(), ErrorModel>,
    now_ms: i64,
    place: int,
)
    requires
        0 <= place < manager.state.transfers.len(),
        manager.state.transfers[place].id == id,
        forall|earlier: int|
            0 <= earlier < place ==> (#[trigger] manager.state.transfers[earlier]).id != id,
        crate::application::history::over_count(manager.state.transfers) < 200,
    ensures
        ({
            let after = manager.ended(id, outcome, now_ms);
            let before = manager.state.transfers[place];
            let left = after.state.transfers[place];
            &&& !after.jobs.contains_key(id)
            &&& manager.running > 0 ==> after.running == manager.running - 1
            &&& forall|other: Seq<char>|
                other != id && #[trigger] manager.jobs.contains_key(other)
                    ==> after.jobs.contains_key(other) && after.jobs[other] == manager.jobs[other]
            &&& after.state.transfers.len() == manager.state.transfers.len()
            &&& forall|other: int|
                0 <= other < manager.state.transfers.len() && other != place
                    ==> #[trigger] after.state.transfers[other] == manager.state.transfers[other]
            &&& outcome is Ok ==> left == before
            &&& outcome matches Err(error) ==> {
                &&& !before.status.over() ==> left.status == (if error == ErrorModel::Cancelled {
                    TransferStatus::Cancelled
                } else {
                    TransferStatus::Failed
                })
                &&& !before.status.over() && error != ErrorModel::Cancelled ==> left.error_message
                    == Some(error.message())
                &&& before.status.over() ==> left.status == before.status
                &&& left.files == before.files
            }
        }),
{
    match outcome {
        Ok(_) => {},
        Err(ErrorModel::Cancelled) => {
            let transfers = manager.state.transfers;
            let silenced = manager.silenced(id);
            super::first_transfer_is_first(transfers, id);
            if transfers[place].status.may_become(TransferStatus::Cancelled) {
                let updated = transfers.update(
                    place,
                    TransferModel {
                        status: TransferStatus::Cancelled,
                        updated_at_ms: now_ms,
                        ..transfers[place]
                    },
                );
                super::laws::ends_after_update(transfers, place, updated[place]);
                crate::application::history::pruning_keeps_what_is_live(updated);
            }
        },
        Err(error) => {
            super::laws::failure_is_noted(manager, id, error.message(), now_ms, place);
        },
    }
}

} // verus!

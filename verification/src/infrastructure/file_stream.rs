//! One file on its way: how the sender reads and hashes it, how the receiver
//! takes, hashes and checks it.

use super::destination::{staging_file_name, EntryKind};
use super::digest::{feed, finish, hashed_bytes, new_hasher, sha256, MAX_HASHED_BYTES};
use super::filesystem::{sanitize_relative_path, SafePath, MAX_CHUNK_SIZE};
use super::grants::{same_bytes, FileStreamOpen, OpenModel};
use super::identifiers::{draw_uuid, uuid_text};
use super::offer::FileManifestEntry;
use super::status::{
    ok_status, optional_status, require_ok, success, verdict, Status, StatusModel,
};
use crate::error::{ErrorModel, TransferError};
use vstd::prelude::*;
use vstd::string::*;

verus! {

/// The receiver's answer to the request to send a file.
#[derive(Debug, PartialEq, Eq)]
pub struct FileStreamHeader {
    pub status: Option<Status>,
    pub transfer_id: u64,
    pub file_id: u64,
    pub chunk_size: u32,
}

/// The mathematical value of a [`FileStreamHeader`].
pub struct HeaderModel {
    pub status: Option<StatusModel>,
    pub transfer_id: u64,
    pub file_id: u64,
    pub chunk_size: u32,
}

impl View for FileStreamHeader {
    type V = HeaderModel;

    open spec fn view(&self) -> HeaderModel {
        HeaderModel {
            status: optional_status(self.status),
            transfer_id: self.transfer_id,
            file_id: self.file_id,
            chunk_size: self.chunk_size,
        }
    }
}

/// What the receiver has made of a file.
#[derive(Debug, PartialEq, Eq)]
pub struct FileStreamResult {
    pub status: Option<Status>,
    pub transfer_id: u64,
    pub file_id: u64,
    pub received_size: u64,
    pub sha256: Vec<u8>,
}

/// The mathematical value of a [`FileStreamResult`].
pub struct ResultModel {
    pub status: Option<StatusModel>,
    pub transfer_id: u64,
    pub file_id: u64,
    pub received_size: u64,
    pub sha256: Seq<u8>,
}

impl View for FileStreamResult {
    type V = ResultModel;

    open spec fn view(&self) -> ResultModel {
        ResultModel {
            status: optional_status(self.status),
            transfer_id: self.transfer_id,
            file_id: self.file_id,
            received_size: self.received_size,
            sha256: self.sha256@,
        }
    }
}

/// How many bytes are read at once out of those that are left.
pub open spec fn portion(size: u64, offset: int, limit: usize) -> int {
    if size - offset <= limit {
        size - offset
    } else {
        limit as int
    }
}

fn next_portion(size: u64, offset: u64, limit: usize) -> (count: usize)
    requires
        offset <= size,
    ensures
        count == portion(size, offset as int, limit),
{
    let left = size - offset;
    if left <= limit as u64 {
        left as usize
    } else {
        limit
    }
}

/// How far a receiver has come with a file.
#[derive(Debug, Clone, Copy, PartialEq, Eq, Structural)]
pub enum ReceiveStage {
    /// The content comes in, and then the sender's digest of it.
    Content,
    /// The content is good; nothing more may come.
    Trailer,
    /// The file can be stored.
    Storing,
}

/// What a receiver sees when it reads.
#[derive(Debug, PartialEq, Eq)]
pub enum Arrival {
    /// These bytes, as many as were asked for or fewer.
    Bytes(Vec<u8>),
    /// The end of the stream.
    End,
    /// Nothing, for too long.
    Silence,
    /// The stream broke; with the reason.
    Broken(String),
}

/// The mathematical value of an [`Arrival`].
pub enum ArrivalModel {
    Bytes(Seq<u8>),
    End,
    Silence,
    Broken(Seq<char>),
}

impl View for Arrival {
    type V = ArrivalModel;

    open spec fn view(&self) -> ArrivalModel {
        match self {
            Arrival::Bytes(bytes) => ArrivalModel::Bytes(bytes@),
            Arrival::End => ArrivalModel::End,
            Arrival::Silence => ArrivalModel::Silence,
            Arrival::Broken(reason) => ArrivalModel::Broken(reason@),
        }
    }
}

/// A file that is being received.
pub struct FileReceiver {
    transfer_id: u64,
    file_id: u64,
    size: u64,
    offset: u64,
    content: Ghost<Seq<u8>>,
    hasher: sha2::Sha256,
    digest: Vec<u8>,
    stage: ReceiveStage,
}

/// The mathematical value of a [`FileReceiver`].
pub struct ReceiverModel {
    pub transfer_id: u64,
    pub file_id: u64,
    /// The number of bytes that were offered.
    pub size: u64,
    /// The bytes that have come in.
    pub content: Seq<u8>,
    /// The digest of the content, once it is complete and found good.
    pub digest: Seq<u8>,
    pub stage: ReceiveStage,
}

/// The receiver's next read.
#[derive(Debug, Clone, Copy, PartialEq, Eq, Structural)]
pub enum ReceiveAction {
    /// Read at most that many bytes of content.
    ReadContent(usize),
    /// Read exactly that many bytes of digest.
    ReadDigest(usize),
    /// Read one byte, which must not come.
    ReadTrailer,
    /// Store the file.
    Store,
}

/// The length of a digest in bytes.
pub const DIGEST_BYTES: usize = 32;

impl ReceiverModel {
    /// A file of which nothing has come in.
    pub open spec fn fresh(transfer_id: u64, file_id: u64, size: u64) -> ReceiverModel {
        ReceiverModel {
            transfer_id,
            file_id,
            size,
            content: Seq::empty(),
            digest: Seq::empty(),
            stage: ReceiveStage::Content,
        }
    }

    /// No more has come in than was offered, and what was found good is
    /// complete and has the digest that the sender gave.
    pub open spec fn sound(self) -> bool {
        &&& self.content.len() <= self.size <= MAX_HASHED_BYTES
        &&& self.stage != ReceiveStage::Content ==> self.content.len() == self.size && self.digest
            == sha256(self.content)
    }

    /// What the receiver reads next.
    pub open spec fn wants(self) -> ReceiveAction {
        match self.stage {
            ReceiveStage::Content => if self.content.len() < self.size {
                ReceiveAction::ReadContent(
                    portion(self.size, self.content.len() as int, MAX_CHUNK_SIZE) as usize,
                )
            } else {
                ReceiveAction::ReadDigest(DIGEST_BYTES)
            },
            ReceiveStage::Trailer => ReceiveAction::ReadTrailer,
            ReceiveStage::Storing => ReceiveAction::Store,
        }
    }

    /// Whether an arrival is one that the receiver can see next: never more
    /// than it asked for, and a digest only as a whole, so that an end before
    /// it is a break.
    pub open spec fn may_see(self, arrival: ArrivalModel) -> bool {
        match (self.wants(), arrival) {
            (ReceiveAction::ReadContent(count), ArrivalModel::Bytes(bytes)) => bytes.len() <= count,
            (ReceiveAction::ReadDigest(count), ArrivalModel::Bytes(bytes)) => bytes.len() == count,
            (ReceiveAction::ReadDigest(_), ArrivalModel::End) => false,
            (ReceiveAction::Store, _) => false,
            _ => true,
        }
    }

    /// The receiver after an arrival, or what is wrong with it.
    pub open spec fn received(self, arrival: ArrivalModel) -> Result<ReceiverModel, ErrorModel> {
        match self.wants() {
            ReceiveAction::ReadContent(_) => match arrival {
                ArrivalModel::Bytes(bytes) => if bytes.len() == 0 {
                    Err(ErrorModel::Integrity("empty file read"@))
                } else {
                    Ok(ReceiverModel { content: self.content + bytes, ..self })
                },
                ArrivalModel::End => Err(ErrorModel::Integrity("file stream ended early"@)),
                ArrivalModel::Silence => Err(ErrorModel::Network("file stream idle timeout"@)),
                ArrivalModel::Broken(reason) => Err(ErrorModel::Network(reason)),
            },
            ReceiveAction::ReadDigest(_) => match arrival {
                ArrivalModel::Bytes(bytes) => if bytes == sha256(self.content) {
                    Ok(ReceiverModel { digest: bytes, stage: ReceiveStage::Trailer, ..self })
                } else {
                    Err(ErrorModel::Integrity("received file hash does not match"@))
                },
                ArrivalModel::End => Err(ErrorModel::Network("file stream ended early"@)),
                ArrivalModel::Silence => Err(ErrorModel::Network("file digest timeout"@)),
                ArrivalModel::Broken(reason) => Err(ErrorModel::Network(reason)),
            },
            ReceiveAction::ReadTrailer => match arrival {
                ArrivalModel::Bytes(_) => Err(
                    ErrorModel::Integrity("unexpected trailing file data"@),
                ),
                ArrivalModel::End => Ok(ReceiverModel { stage: ReceiveStage::Storing, ..self }),
                ArrivalModel::Silence => Err(
                    ErrorModel::Network("file stream completion timeout"@),
                ),
                ArrivalModel::Broken(reason) => Err(ErrorModel::Network(reason)),
            },
            ReceiveAction::Store => Ok(self),
        }
    }

    /// What the receiver tells the sender when the file has been stored.
    pub open spec fn report(self) -> ResultModel {
        ResultModel {
            status: Some(success()),
            transfer_id: self.transfer_id,
            file_id: self.file_id,
            received_size: self.content.len() as u64,
            sha256: self.digest,
        }
    }
}

impl View for FileReceiver {
    type V = ReceiverModel;

    closed spec fn view(&self) -> ReceiverModel {
        ReceiverModel {
            transfer_id: self.transfer_id,
            file_id: self.file_id,
            size: self.size,
            content: self.content@,
            digest: self.digest@,
            stage: self.stage,
        }
    }
}

impl FileReceiver {
    /// The count is that of the content, the hasher has been fed the content as
    /// long as it is needed, and the receiver is sound.
    pub closed spec fn wf(self) -> bool {
        &&& self.offset == self.content@.len()
        &&& self.stage == ReceiveStage::Content ==> hashed_bytes(self.hasher) == self.content@
        &&& self@.sound()
    }

    /// A receiver is sound.
    pub proof fn is_sound(self)
        requires
            self.wf(),
        ensures
            self@.sound(),
    {
    }

    /// Gets ready to receive a file of an offer: the receiver, and where below
    /// the receive directory the file goes.
    pub fn new(transfer_id: u64, manifest: &FileManifestEntry) -> (result: Result<
        (FileReceiver, SafePath),
        TransferError,
    >)
        requires
            manifest.size <= MAX_HASHED_BYTES,
        ensures
            match result {
                Ok((receiver, path)) => {
                    &&& super::filesystem::safe_path(manifest.relative_path@)
                    &&& path@ == crate::text::pieces(manifest.relative_path@, '/')
                    &&& path.wf()
                    &&& receiver.wf()
                    &&& receiver@ == ReceiverModel::fresh(
                        transfer_id,
                        manifest.file_id,
                        manifest.size,
                    )
                },
                Err(error) => {
                    &&& !super::filesystem::safe_path(manifest.relative_path@)
                    &&& error@ == super::filesystem::path_refusal(manifest.relative_path@)
                },
            },
    {
        let path = match sanitize_relative_path(manifest.relative_path.as_str()) {
            Ok(path) => path,
            Err(error) => {
                return Err(error);
            },
        };
        let digest: Vec<u8> = Vec::new();
        let receiver = FileReceiver {
            transfer_id,
            file_id: manifest.file_id,
            size: manifest.size,
            offset: 0,
            content: Ghost(Seq::empty()),
            hasher: new_hasher(),
            digest,
            stage: ReceiveStage::Content,
        };
        Ok((receiver, path))
    }

    /// The number of the file.
    pub fn file_id(&self) -> (file_id: u64)
        ensures
            file_id == self@.file_id,
    {
        self.file_id
    }

    /// How many bytes have come in.
    pub fn offset(&self) -> (offset: u64)
        requires
            self.wf(),
        ensures
            offset == self@.content.len(),
    {
        self.offset
    }

    /// The answer by which the sender learns that it may send.
    pub fn header(&self) -> (header: FileStreamHeader)
        ensures
            header@ == (HeaderModel {
                status: Some(success()),
                transfer_id: self@.transfer_id,
                file_id: self@.file_id,
                chunk_size: MAX_CHUNK_SIZE as u32,
            }),
    {
        FileStreamHeader {
            status: Some(ok_status()),
            transfer_id: self.transfer_id,
            file_id: self.file_id,
            chunk_size: MAX_CHUNK_SIZE as u32,
        }
    }

    /// What to read next.
    pub fn action(&self) -> (action: ReceiveAction)
        requires
            self.wf(),
        ensures
            action == self@.wants(),
    {
        match self.stage {
            ReceiveStage::Content => if self.offset < self.size {
                ReceiveAction::ReadContent(next_portion(self.size, self.offset, MAX_CHUNK_SIZE))
            } else {
                ReceiveAction::ReadDigest(DIGEST_BYTES)
            },
            ReceiveStage::Trailer => ReceiveAction::ReadTrailer,
            ReceiveStage::Storing => ReceiveAction::Store,
        }
    }

    fn take_content(&mut self, bytes: &Vec<u8>)
        requires
            old(self).wf(),
            old(self)@.stage == ReceiveStage::Content,
            old(self)@.content.len() + bytes@.len() <= old(self)@.size,
        ensures
            final(self).wf(),
            final(self)@ == (ReceiverModel {
                content: old(self)@.content + bytes@,
                ..old(self)@
            }),
    {
        feed(&mut self.hasher, bytes.as_slice());
        self.content = Ghost(self.content@ + bytes@);
        self.offset = self.offset + bytes.len() as u64;
    }

    fn take_digest(&mut self, bytes: Vec<u8>) -> (good: bool)
        requires
            old(self).wf(),
            old(self)@.stage == ReceiveStage::Content,
            old(self)@.content.len() == old(self)@.size,
        ensures
            good == (bytes@ == sha256(old(self)@.content)),
            good ==> final(self).wf() && final(self)@ == (ReceiverModel {
                digest: bytes@,
                stage: ReceiveStage::Trailer,
                ..old(self)@
            }),
    {
        let mut hasher = new_hasher();
        std::mem::swap(&mut hasher, &mut self.hasher);
        let digest = finish(hasher);
        if !same_bytes(&digest, &bytes) {
            return false;
        }
        self.digest = digest;
        self.stage = ReceiveStage::Trailer;
        true
    }

    /// Takes in what was read. After an error the receiver is of no more use.
    pub fn receive(&mut self, arrival: Arrival) -> (result: Result<(), TransferError>)
        requires
            old(self).wf(),
            old(self)@.may_see(arrival@),
        ensures
            match result {
                Ok(_) => final(self).wf() && old(self)@.received(arrival@) == Ok::<_, ErrorModel>(
                    final(self)@,
                ),
                Err(error) => old(self)@.received(arrival@) == Err::<ReceiverModel, _>(error@),
            },
    {
        match self.action() {
            ReceiveAction::ReadContent(_) => match arrival {
                Arrival::Bytes(bytes) => {
                    if bytes.len() == 0 {
                        return Err(TransferError::integrity("empty file read"));
                    }
                    self.take_content(&bytes);
                    Ok(())
                },
                Arrival::End => Err(TransferError::integrity("file stream ended early")),
                Arrival::Silence => Err(TransferError::network("file stream idle timeout")),
                Arrival::Broken(reason) => Err(TransferError::Network(reason)),
            },
            ReceiveAction::ReadDigest(_) => match arrival {
                Arrival::Bytes(bytes) => {
                    if self.take_digest(bytes) {
                        Ok(())
                    } else {
                        Err(TransferError::integrity("received file hash does not match"))
                    }
                },
                Arrival::End => Err(TransferError::network("file stream ended early")),
                Arrival::Silence => Err(TransferError::network("file digest timeout")),
                Arrival::Broken(reason) => Err(TransferError::Network(reason)),
            },
            ReceiveAction::ReadTrailer => match arrival {
                Arrival::Bytes(_) => Err(TransferError::integrity("unexpected trailing file data")),
                Arrival::End => {
                    self.stage = ReceiveStage::Storing;
                    Ok(())
                },
                Arrival::Silence => Err(TransferError::network("file stream completion timeout")),
                Arrival::Broken(reason) => Err(TransferError::Network(reason)),
            },
            ReceiveAction::Store => Ok(()),
        }
    }

    /// What to tell the sender when the file has been stored, which it is only
    /// once all of it has been found good.
    pub(crate) fn report(&self) -> (report: FileStreamResult)
        requires
            self.wf(),
            self@.wants() == ReceiveAction::Store,
        ensures
            report@ == self@.report(),
    {
        let digest = self.digest.clone();
        assert(digest@ =~= self.digest@);
        FileStreamResult {
            status: Some(ok_status()),
            transfer_id: self.transfer_id,
            file_id: self.file_id,
            received_size: self.offset,
            sha256: digest,
        }
    }

    /// The name of the file in which this attempt to receive is staged.
    pub fn staging_name(&self) -> (name: String)
        ensures
            exists|unique: Seq<char>|
                uuid_text(unique) && name@ == #[trigger] super::destination::staged_as(
                    self@.transfer_id,
                    self@.file_id,
                    unique,
                ),
    {
        let unique = draw_uuid();
        let name = staging_file_name(self.transfer_id, self.file_id, unique.as_str());
        assert(name@ == super::destination::staged_as(
            self@.transfer_id,
            self@.file_id,
            unique@,
        ));
        name
    }
}

/// Whether the directory for staged files may be used: it is a directory, and
/// no link to one.
pub fn check_staging_directory(kind: &EntryKind) -> (result: Result<(), TransferError>)
    ensures
        crate::error::outcome(result) == (if *kind is Directory {
            Ok::<(), ErrorModel>(())
        } else {
            Err(ErrorModel::Invalid("unsafe temporary receive directory"@))
        }),
{
    match kind {
        EntryKind::Directory => Ok(()),
        _ => Err(TransferError::invalid("unsafe temporary receive directory")),
    }
}

/// A receiver stores a file only when as many bytes have come in as were
/// offered, their SHA-256 digest is the one that the sender gave, and nothing
/// came after it.
pub proof fn stored_file_is_verified(receiver: ReceiverModel, arrival: ArrivalModel)
    requires
        receiver.sound(),
        receiver.may_see(arrival),
    ensures
        receiver.received(arrival) matches Ok(after) ==> {
            &&& after.sound()
            &&& after.wants() == ReceiveAction::Store ==> {
                &&& after.content.len() == after.size
                &&& after.digest == sha256(after.content)
                &&& receiver.stage == ReceiveStage::Trailer
                &&& arrival == ArrivalModel::End
            }
        },
{
}

/// A file that is being sent.
pub struct FileSender {
    file_id: u64,
    size: u64,
    chunk_size: usize,
    offset: u64,
    content: Ghost<Seq<u8>>,
    hasher: sha2::Sha256,
}

/// The mathematical value of a [`FileSender`].
pub struct SenderModel {
    pub file_id: u64,
    /// The number of bytes that were offered.
    pub size: u64,
    /// How many bytes are written at once.
    pub chunk_size: usize,
    /// The bytes that have been written.
    pub content: Seq<u8>,
}

impl View for FileSender {
    type V = SenderModel;

    closed spec fn view(&self) -> SenderModel {
        SenderModel {
            file_id: self.file_id,
            size: self.size,
            chunk_size: self.chunk_size,
            content: self.content@,
        }
    }
}

impl SenderModel {
    /// A file of which nothing has been written.
    pub open spec fn fresh(file_id: u64, size: u64, chunk_size: usize) -> SenderModel {
        SenderModel { file_id, size, chunk_size, content: Seq::empty() }
    }

    /// No more has been written than was offered.
    pub open spec fn sound(self) -> bool {
        self.content.len() <= self.size <= MAX_HASHED_BYTES
    }

    /// How many bytes are read from the source next; none once all are written.
    pub open spec fn wants(self) -> int {
        portion(self.size, self.content.len() as int, self.chunk_size)
    }

    /// The sender after it has read bytes of the source, or that the source is
    /// too short.
    pub open spec fn sent(self, bytes: Seq<u8>) -> Result<SenderModel, ErrorModel> {
        if bytes.len() == 0 {
            Err(ErrorModel::Integrity("source file ended early"@))
        } else {
            Ok(SenderModel { content: self.content + bytes, ..self })
        }
    }

    /// What the sender makes of the receiver's report.
    pub open spec fn confirmed(self, report: ResultModel) -> Result<(), ErrorModel> {
        match verdict(report.status) {
            Err(error) => Err(error),
            Ok(_) => if report.received_size != self.size || report.sha256 != sha256(self.content) {
                Err(ErrorModel::Integrity("receiver returned a mismatched verification result"@))
            } else {
                Ok(())
            },
        }
    }
}

impl FileSender {
    /// The count is that of the content, the hasher has been fed the content,
    /// and the sender is sound.
    pub closed spec fn wf(self) -> bool {
        &&& self.offset == self.content@.len()
        &&& hashed_bytes(self.hasher) == self.content@
        &&& self@.sound()
    }

    /// Gets ready to send a file in chunks of a size.
    pub fn new(manifest: &FileManifestEntry, chunk_size: usize) -> (sender: FileSender)
        requires
            manifest.size <= MAX_HASHED_BYTES,
        ensures
            sender.wf(),
            sender@ == SenderModel::fresh(manifest.file_id, manifest.size, chunk_size),
    {
        FileSender {
            file_id: manifest.file_id,
            size: manifest.size,
            chunk_size,
            offset: 0,
            content: Ghost(Seq::empty()),
            hasher: new_hasher(),
        }
    }

    /// The request to send the file, with the ticket for it.
    pub fn open(&self, transfer_id: u64, ticket: &Vec<u8>) -> (open: FileStreamOpen)
        ensures
            open@ == (OpenModel { transfer_id, file_id: self@.file_id, ticket: ticket@ }),
    {
        let copy = ticket.clone();
        assert(copy@ =~= ticket@);
        FileStreamOpen { transfer_id, file_id: self.file_id, ticket: copy }
    }

    /// Whether the receiver lets the file be sent.
    pub fn confirm_header(&self, header: &FileStreamHeader) -> (result: Result<(), TransferError>)
        ensures
            crate::error::outcome(result) == verdict(header@.status),
    {
        require_ok(&header.status)
    }

    /// How many bytes have been written.
    pub fn offset(&self) -> (offset: u64)
        requires
            self.wf(),
        ensures
            offset == self@.content.len(),
    {
        self.offset
    }

    /// How many bytes to read from the source next; none once all are written.
    pub fn wanted(&self) -> (count: usize)
        requires
            self.wf(),
        ensures
            count == self@.wants(),
    {
        next_portion(self.size, self.offset, self.chunk_size)
    }

    /// Takes note of bytes that were read from the source. They are written
    /// next.
    pub fn send(&mut self, bytes: &Vec<u8>) -> (result: Result<(), TransferError>)
        requires
            old(self).wf(),
            bytes@.len() <= old(self)@.wants(),
        ensures
            final(self).wf(),
            match result {
                Ok(_) => old(self)@.sent(bytes@) == Ok::<_, ErrorModel>(final(self)@),
                Err(error) => {
                    &&& old(self)@.sent(bytes@) == Err::<SenderModel, _>(error@)
                    &&& final(self)@ == old(self)@
                },
            },
    {
        if bytes.len() == 0 {
            return Err(TransferError::integrity("source file ended early"));
        }
        feed(&mut self.hasher, bytes.as_slice());
        self.content = Ghost(self.content@ + bytes@);
        self.offset = self.offset + bytes.len() as u64;
        Ok(())
    }

    /// Ends the content: the digest that is written behind it. `source_size` is
    /// the size of the source now, and `modified` when it was last modified, as
    /// `offered` was when it was offered, each in nanoseconds, where that is
    /// known.
    pub fn finish(self, source_size: u64, offered: Option<i128>, modified: Option<i128>) -> (result:
        Result<SentFile, TransferError>)
        requires
            self.wf(),
            self@.content.len() == self@.size,
        ensures
            match result {
                Ok(sent) => {
                    &&& source_size == self@.size
                    &&& modified == offered
                    &&& sent.wf()
                    &&& sent@ == self@
                },
                Err(error) => (source_size != self@.size || modified != offered) && error@
                    == ErrorModel::Integrity("source file changed during transfer"@),
            },
    {
        let touched = match (offered, modified) {
            (Some(then_ns), Some(now_ns)) => then_ns != now_ns,
            (None, None) => false,
            _ => true,
        };
        if source_size != self.size || touched {
            return Err(TransferError::integrity("source file changed during transfer"));
        }
        let digest = finish(self.hasher);
        Ok(SentFile { digest, size: self.size, sender: Ghost(self@) })
    }
}

/// A file whose content and digest have been written.
pub struct SentFile {
    digest: Vec<u8>,
    size: u64,
    sender: Ghost<SenderModel>,
}

impl View for SentFile {
    type V = SenderModel;

    closed spec fn view(&self) -> SenderModel {
        self.sender@
    }
}

impl SentFile {
    /// The digest is that of the content.
    pub closed spec fn wf(self) -> bool {
        self.digest@ == sha256(self.sender@.content) && self.size == self.sender@.size
    }

    /// The digest that is written behind the content.
    pub fn digest(&self) -> (digest: &Vec<u8>)
        requires
            self.wf(),
        ensures
            digest@ == sha256(self@.content),
    {
        &self.digest
    }

    /// What to make of the receiver's report.
    pub fn confirm(&self, report: &FileStreamResult) -> (result: Result<(), TransferError>)
        requires
            self.wf(),
        ensures
            crate::error::outcome(result) == self@.confirmed(report@),
    {
        match require_ok(&report.status) {
            Ok(()) => {},
            Err(error) => {
                return Err(error);
            },
        }
        if report.received_size != self.size || !same_bytes(&report.sha256, &self.digest) {
            return Err(
                TransferError::integrity("receiver returned a mismatched verification result"),
            );
        }
        Ok(())
    }
}

/// What a sender waits for.
#[derive(Debug, Clone, Copy, PartialEq, Eq, Structural)]
pub enum SendWait {
    /// The receiver lets the file be sent.
    Confirmation,
    /// A chunk is written.
    Write,
    /// The receiver reports on the file.
    Verification,
}

/// What it means that a sender has waited too long.
pub open spec fn wait_failure(wait: SendWait) -> ErrorModel {
    match wait {
        SendWait::Confirmation => ErrorModel::Network(
            "timed out waiting for file stream confirmation"@,
        ),
        SendWait::Write => ErrorModel::Network("file send timeout"@),
        SendWait::Verification => ErrorModel::Network(
            "timed out waiting for file verification result"@,
        ),
    }
}

/// What it means that a sender has waited too long.
pub fn send_timeout(wait: SendWait) -> (error: TransferError)
    ensures
        error@ == wait_failure(wait),
{
    match wait {
        SendWait::Confirmation => TransferError::network(
            "timed out waiting for file stream confirmation",
        ),
        SendWait::Write => TransferError::network("file send timeout"),
        SendWait::Verification => TransferError::network(
            "timed out waiting for file verification result",
        ),
    }
}

/// The bytes of chunks, one behind the other.
pub open spec fn flattened(chunks: Seq<Seq<u8>>) -> Seq<u8>
    decreases chunks.len(),
{
    if chunks.len() == 0 {
        Seq::empty()
    } else {
        flattened(chunks.drop_last()) + chunks.last()
    }
}

/// The receiver after chunks of content have come in.
pub open spec fn received_all(receiver: ReceiverModel, chunks: Seq<Seq<u8>>) -> Result<
    ReceiverModel,
    ErrorModel,
>
    decreases chunks.len(),
{
    if chunks.len() == 0 {
        Ok(receiver)
    } else {
        match received_all(receiver, chunks.drop_last()) {
            Err(error) => Err(error),
            Ok(before) => before.received(ArrivalModel::Bytes(chunks.last())),
        }
    }
}

proof fn front_is_shorter(chunks: Seq<Seq<u8>>)
    requires
        chunks.len() > 0,
        chunks.last().len() > 0,
    ensures
        flattened(chunks.drop_last()).len() < flattened(chunks).len(),
{
}

proof fn chunks_are_taken(transfer_id: u64, file_id: u64, size: u64, chunks: Seq<Seq<u8>>)
    requires
        size <= MAX_HASHED_BYTES,
        flattened(chunks).len() <= size,
        forall|place: int| 0 <= place < chunks.len() ==> (#[trigger] chunks[place]).len() > 0,
    ensures
        received_all(ReceiverModel::fresh(transfer_id, file_id, size), chunks) == Ok::<
            _,
            ErrorModel,
        >(
            ReceiverModel {
                content: flattened(chunks),
                ..ReceiverModel::fresh(transfer_id, file_id, size)
            },
        ),
    decreases chunks.len(),
{
    if chunks.len() > 0 {
        let front = chunks.drop_last();
        assert(chunks[chunks.len() - 1] == chunks.last());
        front_is_shorter(chunks);
        assert forall|place: int| 0 <= place < front.len() implies (
        #[trigger] front[place]).len() > 0 by {
            assert(front[place] == chunks[place]);
        }
        chunks_are_taken(transfer_id, file_id, size, front);
    }
}

/// What a sender writes, a receiver takes, however the content is cut into
/// chunks on the way: it stores just the bytes that were sent, and the sender
/// takes its report as success.
pub proof fn faithful_stream_is_accepted(
    transfer_id: u64,
    sender: SenderModel,
    chunks: Seq<Seq<u8>>,
)
    requires
        sender.sound(),
        sender.content.len() == sender.size,
        flattened(chunks) == sender.content,
        forall|place: int| 0 <= place < chunks.len() ==> (#[trigger] chunks[place]).len() > 0,
    ensures
        received_all(
            ReceiverModel::fresh(transfer_id, sender.file_id, sender.size),
            chunks,
        ) matches Ok(filled) && filled.received(
            ArrivalModel::Bytes(sha256(sender.content)),
        ) matches Ok(checked) && checked.received(ArrivalModel::End) matches Ok(complete) && {
            &&& complete.wants() == ReceiveAction::Store
            &&& complete.content == sender.content
            &&& sender.confirmed(complete.report()) is Ok
        },
{
    chunks_are_taken(transfer_id, sender.file_id, sender.size, chunks);
}

/// A receiver that stores other bytes than were sent stores bytes with the very
/// same digest.
pub proof fn accepted_stream_has_the_digest(
    sender: SenderModel,
    receiver: ReceiverModel,
    checked: ReceiverModel,
)
    requires
        receiver.sound(),
        receiver.stage == ReceiveStage::Content,
        receiver.content.len() == receiver.size,
        receiver.received(ArrivalModel::Bytes(sha256(sender.content))) == Ok::<_, ErrorModel>(
            checked,
        ),
    ensures
        sha256(checked.content) == sha256(sender.content),
        checked.content == receiver.content,
{
}

/// A receiver asks for what is left of the content, at most 256 KiB of it at
/// once and at least one byte, then for a digest of 32 bytes, and then for the
/// end.
pub proof fn what_is_left_is_asked_for(
    receiver: ReceiverModel,
    transfer_id: u64,
    file_id: u64,
    size: u64,
)
    requires
        receiver.sound(),
    ensures
        receiver.stage == ReceiveStage::Content && receiver.content.len() < receiver.size
            ==> (receiver.wants() matches ReceiveAction::ReadContent(count) && 0 < count <= 262_144
            && count <= receiver.size - receiver.content.len() && (count == 262_144 || count
            == receiver.size - receiver.content.len())),
        receiver.stage == ReceiveStage::Content && receiver.content.len() == receiver.size
            ==> receiver.wants() == ReceiveAction::ReadDigest(32),
        receiver.stage == ReceiveStage::Trailer <==> receiver.wants() == ReceiveAction::ReadTrailer,
        receiver.stage == ReceiveStage::Storing <==> receiver.wants() == ReceiveAction::Store,
        ReceiverModel::fresh(transfer_id, file_id, size).content.len() == 0,
        ReceiverModel::fresh(transfer_id, file_id, size).stage == ReceiveStage::Content,
        ReceiverModel::fresh(transfer_id, file_id, size).transfer_id == transfer_id,
        ReceiverModel::fresh(transfer_id, file_id, size).file_id == file_id,
        ReceiverModel::fresh(transfer_id, file_id, size).size == size,
{
}

/// A receiver stays with its file, whatever comes in; content that comes in is
/// kept behind what came before it, and nothing else is.
pub proof fn a_receiver_stays_with_its_file(receiver: ReceiverModel, arrival: ArrivalModel)
    requires
        receiver.sound(),
        receiver.may_see(arrival),
    ensures
        receiver.received(arrival) matches Ok(after) ==> {
            &&& after.transfer_id == receiver.transfer_id
            &&& after.file_id == receiver.file_id
            &&& after.size == receiver.size
            &&& receiver.stage == ReceiveStage::Content && receiver.content.len() < receiver.size
                ==> {
                &&& arrival matches ArrivalModel::Bytes(bytes) && bytes.len() > 0 && after.content
                    == receiver.content + bytes
                &&& after.stage == ReceiveStage::Content
            }
            &&& receiver.stage == ReceiveStage::Content && receiver.content.len() == receiver.size
                ==> {
                &&& arrival matches ArrivalModel::Bytes(bytes) && bytes == sha256(receiver.content)
                &&& after.content == receiver.content
                &&& after.stage == ReceiveStage::Trailer
            }
            &&& receiver.stage == ReceiveStage::Trailer ==> {
                &&& arrival == ArrivalModel::End
                &&& after.content == receiver.content
                &&& after.digest == receiver.digest
                &&& after.stage == ReceiveStage::Storing
            }
        },
{
}

/// A receiver gives up for want of integrity where what came in is not the file,
/// and for the network's sake where nothing came in or the stream broke, with
/// the reason of the break.
pub proof fn a_bad_arrival_is_refused(
    receiver: ReceiverModel,
    bytes: Seq<u8>,
    reason: Seq<char>,
)
    requires
        receiver.sound(),
        receiver.stage != ReceiveStage::Storing,
    ensures
        receiver.received(ArrivalModel::Broken(reason)) == Err::<ReceiverModel, _>(
            ErrorModel::Network(reason),
        ),
        receiver.received(ArrivalModel::Silence) matches Err(error) && error is Network,
        receiver.stage == ReceiveStage::Content && receiver.content.len() < receiver.size ==> (
        receiver.received(ArrivalModel::End) matches Err(error) && error is Integrity),
        receiver.stage == ReceiveStage::Content && receiver.content.len() < receiver.size
            && bytes.len() == 0 ==> (receiver.received(ArrivalModel::Bytes(bytes)) matches Err(
            error,
        ) && error is Integrity),
        receiver.stage == ReceiveStage::Content && receiver.content.len() < receiver.size
            && bytes.len() > 0 ==> receiver.received(ArrivalModel::Bytes(bytes)) is Ok,
        receiver.stage == ReceiveStage::Content && receiver.content.len() == receiver.size
            && bytes != sha256(receiver.content) ==> (receiver.received(
            ArrivalModel::Bytes(bytes),
        ) matches Err(error) && error is Integrity),
        receiver.stage == ReceiveStage::Content && receiver.content.len() == receiver.size
            ==> receiver.received(ArrivalModel::Bytes(sha256(receiver.content))) is Ok,
        receiver.stage == ReceiveStage::Trailer ==> (receiver.received(
            ArrivalModel::Bytes(bytes),
        ) matches Err(error) && error is Integrity),
        receiver.stage == ReceiveStage::Trailer ==> receiver.received(ArrivalModel::End) is Ok,
{
}

/// The report on a stored file is a success, names the file and its transfer,
/// and gives the number of its bytes and their digest.
pub proof fn a_report_is_on_the_stored_file(receiver: ReceiverModel)
    requires
        receiver.sound(),
        receiver.stage == ReceiveStage::Storing,
    ensures
        verdict(receiver.report().status) is Ok,
        receiver.report().transfer_id == receiver.transfer_id,
        receiver.report().file_id == receiver.file_id,
        receiver.report().received_size == receiver.content.len(),
        receiver.report().sha256 == sha256(receiver.content),
{
}

/// A sender reads what is left of its file, at most a chunk at once, and nothing
/// once all is written; what it reads is written behind what came before it, and
/// a source that gives nothing more is a failure.
pub proof fn a_sender_writes_all_of_its_file(sender: SenderModel, bytes: Seq<u8>)
    requires
        sender.sound(),
        sender.chunk_size > 0,
    ensures
        sender.wants() == 0 <==> sender.content.len() == sender.size,
        0 <= sender.wants() <= sender.chunk_size,
        sender.wants() <= sender.size - sender.content.len(),
        sender.wants() < sender.chunk_size ==> sender.wants() == sender.size
            - sender.content.len(),
        bytes.len() == 0 ==> (sender.sent(bytes) matches Err(error) && error is Integrity),
        bytes.len() > 0 ==> (sender.sent(bytes) matches Ok(after) && after.content
            == sender.content + bytes && after.size == sender.size && after.file_id
            == sender.file_id && after.chunk_size == sender.chunk_size),
{
}

/// A sender takes a file as received just where the receiver says so, and names
/// the size and the digest of what was sent. A report of anything else is a
/// failure of integrity, and a refusal is the receiver's own.
pub proof fn a_report_must_fit_what_was_sent(sender: SenderModel, report: ResultModel)
    ensures
        sender.confirmed(report) is Ok <==> {
            &&& verdict(report.status) is Ok
            &&& report.received_size == sender.size
            &&& report.sha256 == sha256(sender.content)
        },
        verdict(report.status) matches Err(error) ==> sender.confirmed(report) == Err::<(), _>(
            error,
        ),
        verdict(report.status) is Ok && sender.confirmed(report) is Err ==> sender.confirmed(
            report,
        )->Err_0 is Integrity,
{
}

/// Waiting too long is a failure of the network, which says what was waited for.
pub proof fn a_long_wait_is_a_network_failure(wait: SendWait, other: SendWait)
    ensures
        wait_failure(wait) is Network,
        wait_failure(wait) == wait_failure(other) ==> wait == other,
{
    reveal_strlit("timed out waiting for file stream confirmation");
    reveal_strlit("file send timeout");
    reveal_strlit("timed out waiting for file verification result");
    assert("timed out waiting for file stream confirmation"@[27] == 's');
    assert("timed out waiting for file verification result"@[27] == 'v');
    assert("timed out waiting for file stream confirmation"@[0] == 't');
    assert("file send timeout"@[0] == 'f');
}

} // verus!

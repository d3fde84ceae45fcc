//! Authorizations of single files: how a receiver issues them, how a sender
//! holds the answer against its request, and how a receiver redeems them.

use super::filesystem::MAX_CHUNK_SIZE;
use super::identifiers::fill_random;
use super::offer::{FileManifestEntry, ManifestModel};
use super::preparation::PreparedFile;
use crate::error::{ErrorModel, TransferError};
use crate::text::{decimal_text, joined};
use std::collections::HashMap;
use vstd::prelude::*;
use vstd::std_specs::hash::*;
use vstd::string::*;

verus! {

/// For how many milliseconds an authorization holds: for the longest transfer
/// there can be, so that a large file does not outlast the authorization of
/// the next.
pub const FILE_GRANT_TTL_MS: i64 = 65 * 60 * 60 * 1000;

/// The length of a ticket in bytes.
pub const TICKET_BYTES: usize = 32;

/// The smallest chunk that a sender writes.
pub const MIN_CHUNK_SIZE: usize = 16 * 1024;

/// The space that is left free on a receiver's disk in any case.
pub const MIN_RECEIVE_FREE_SPACE_RESERVE: u64 = 64 * 1024 * 1024;

/// The authorization to send one file, as the sender gets it.
#[derive(Debug, PartialEq, Eq)]
pub struct FileTransferGrant {
    pub file_id: u64,
    pub ticket: Vec<u8>,
    pub expires_at_ms: i64,
}

/// The mathematical value of a [`FileTransferGrant`].
pub struct GrantModel {
    pub file_id: u64,
    pub ticket: Seq<u8>,
    pub expires_at_ms: i64,
}

impl View for FileTransferGrant {
    type V = GrantModel;

    open spec fn view(&self) -> GrantModel {
        GrantModel {
            file_id: self.file_id,
            ticket: self.ticket@,
            expires_at_ms: self.expires_at_ms,
        }
    }
}

/// The values of a list of grants.
pub open spec fn grant_models(grants: Seq<FileTransferGrant>) -> Seq<GrantModel> {
    grants.map_values(|grant: FileTransferGrant| grant@)
}

/// The receiver's consent to an offer.
#[derive(Debug, PartialEq, Eq)]
pub struct TransferAccept {
    pub request_id: u64,
    pub transfer_id: u64,
    pub grants: Vec<FileTransferGrant>,
    pub chunk_size: u32,
}

/// The mathematical value of a [`TransferAccept`].
pub struct AcceptModel {
    pub request_id: u64,
    pub transfer_id: u64,
    pub grants: Seq<GrantModel>,
    pub chunk_size: u32,
}

impl View for TransferAccept {
    type V = AcceptModel;

    open spec fn view(&self) -> AcceptModel {
        AcceptModel {
            request_id: self.request_id,
            transfer_id: self.transfer_id,
            grants: grant_models(self.grants@),
            chunk_size: self.chunk_size,
        }
    }
}

/// The sender's request to send one file of a transfer.
#[derive(Debug, PartialEq, Eq)]
pub struct FileStreamOpen {
    pub transfer_id: u64,
    pub file_id: u64,
    pub ticket: Vec<u8>,
}

/// The mathematical value of a [`FileStreamOpen`].
pub struct OpenModel {
    pub transfer_id: u64,
    pub file_id: u64,
    pub ticket: Seq<u8>,
}

impl View for FileStreamOpen {
    type V = OpenModel;

    open spec fn view(&self) -> OpenModel {
        OpenModel { transfer_id: self.transfer_id, file_id: self.file_id, ticket: self.ticket@ }
    }
}

/// The authorization to send one file, as the receiver keeps it.
#[derive(Debug, PartialEq, Eq)]
pub struct FileGrant {
    pub ticket: Vec<u8>,
    pub expires_at_ms: i64,
    pub used: bool,
}

/// The mathematical value of a [`FileGrant`].
pub struct HeldModel {
    pub ticket: Seq<u8>,
    pub expires_at_ms: i64,
    pub used: bool,
}

impl View for FileGrant {
    type V = HeldModel;

    open spec fn view(&self) -> HeldModel {
        HeldModel {
            ticket: self.ticket@,
            expires_at_ms: self.expires_at_ms,
            used: self.used,
        }
    }
}

/// The authorizations of one transfer, by file.
pub struct FileGrants {
    grants: HashMap<u64, FileGrant>,
}

impl View for FileGrants {
    type V = Map<u64, HeldModel>;

    closed spec fn view(&self) -> Map<u64, HeldModel> {
        self.grants@.map_values(|grant: FileGrant| grant@)
    }
}

/// Whether a request redeems an authorization that is held: it names the
/// transfer and a file with an unused authorization that has not expired, and
/// shows its ticket.
pub open spec fn redeemable(
    grants: Map<u64, HeldModel>,
    open: OpenModel,
    transfer_id: u64,
    now_ms: i64,
) -> bool {
    &&& open.transfer_id == transfer_id
    &&& grants.contains_key(open.file_id)
    &&& !grants[open.file_id].used
    &&& now_ms <= grants[open.file_id].expires_at_ms
    &&& grants[open.file_id].ticket == open.ticket
}

/// The authorizations after one has been redeemed.
pub open spec fn redeemed(grants: Map<u64, HeldModel>, file_id: u64) -> Map<u64, HeldModel> {
    grants.insert(file_id, HeldModel { used: true, ..grants[file_id] })
}

pub(crate) fn same_bytes(one: &Vec<u8>, other: &Vec<u8>) -> (same: bool)
    ensures
        same == (one@ == other@),
{
    if one.len() != other.len() {
        return false;
    }
    let mut index: usize = 0;
    while index < one.len()
        invariant
            index <= one@.len() == other@.len(),
            forall|place: int| 0 <= place < index ==> one@[place] == other@[place],
        decreases one@.len() - index,
    {
        if one[index] != other[index] {
            return false;
        }
        index += 1;
    }
    assert(one@ =~= other@);
    true
}

impl FileGrants {
    /// No authorization at all.
    pub fn new() -> (grants: FileGrants)
        ensures
            grants@ == Map::<u64, HeldModel>::empty(),
    {
        broadcast use group_hash_axioms;

        let grants = FileGrants { grants: HashMap::new() };
        assert(grants@ =~= Map::empty());
        grants
    }

    /// Holds an authorization for a file, in place of an earlier one.
    pub fn insert(&mut self, file_id: u64, grant: FileGrant)
        ensures
            final(self)@ == old(self)@.insert(file_id, grant@),
    {
        broadcast use group_hash_axioms;

        let _ = self.grants.insert(file_id, grant);
        assert(self@ =~= old(self)@.insert(file_id, grant@));
    }

    /// Redeems the authorization that a request shows, once.
    pub fn consume_file_grant(
        &mut self,
        open: &FileStreamOpen,
        transfer_id: u64,
        current_time_ms: i64,
    ) -> (result: Result<(), TransferError>)
        ensures
            match result {
                Ok(()) => redeemable(old(self)@, open@, transfer_id, current_time_ms)
                    && final(self)@ == redeemed(old(self)@, open.file_id),
                Err(error) => {
                    &&& !redeemable(old(self)@, open@, transfer_id, current_time_ms)
                    &&& final(self)@ == old(self)@
                    &&& error@ == ErrorModel::Invalid("invalid or expired file authorization"@)
                },
            },
    {
        broadcast use group_hash_axioms;

        if open.transfer_id != transfer_id {
            return Err(TransferError::invalid("invalid or expired file authorization"));
        }
        let ghost before = self@;
        let valid = match self.grants.get(&open.file_id) {
            Some(grant) => !grant.used && current_time_ms <= grant.expires_at_ms && same_bytes(
                &grant.ticket,
                &open.ticket,
            ),
            None => false,
        };
        if !valid {
            return Err(TransferError::invalid("invalid or expired file authorization"));
        }
        match self.grants.remove(&open.file_id) {
            Some(grant) => {
                let used = FileGrant {
                    ticket: grant.ticket,
                    expires_at_ms: grant.expires_at_ms,
                    used: true,
                };
                let _ = self.grants.insert(open.file_id, used);
            },
            None => {},
        }
        assert(self@ =~= redeemed(before, open.file_id));
        Ok(())
    }
}

/// An authorization is good for one request: once redeemed, no request redeems
/// it again, at any time.
pub proof fn grant_is_single_use(
    grants: Map<u64, HeldModel>,
    open: OpenModel,
    transfer_id: u64,
    now_ms: i64,
    again: OpenModel,
    later_ms: i64,
)
    requires
        redeemable(grants, open, transfer_id, now_ms),
        again.file_id == open.file_id,
    ensures
        !redeemable(redeemed(grants, open.file_id), again, transfer_id, later_ms),
{
}

/// Redeeming one authorization leaves those of all other files alone.
pub proof fn grants_are_independent(
    grants: Map<u64, HeldModel>,
    file_id: u64,
    other: OpenModel,
    transfer_id: u64,
    now_ms: i64,
)
    requires
        other.file_id != file_id,
    ensures
        redeemable(redeemed(grants, file_id), other, transfer_id, now_ms) == redeemable(
            grants,
            other,
            transfer_id,
            now_ms,
        ),
{
}

/// An authorization that has expired is never redeemed, nor one of another
/// transfer.
pub proof fn expired_or_foreign_grant_is_void(
    grants: Map<u64, HeldModel>,
    open: OpenModel,
    transfer_id: u64,
    now_ms: i64,
)
    requires
        open.transfer_id != transfer_id || (grants.contains_key(open.file_id)
            && grants[open.file_id].expires_at_ms < now_ms),
    ensures
        !redeemable(grants, open, transfer_id, now_ms),
{
}

/// When an authorization issued now expires.
pub open spec fn grant_expiry(now_ms: i64) -> i64 {
    if now_ms + FILE_GRANT_TTL_MS > i64::MAX {
        i64::MAX
    } else {
        (now_ms + FILE_GRANT_TTL_MS) as i64
    }
}

/// The authorizations that a sender gets for files.
pub open spec fn issued(
    files: Seq<ManifestModel>,
    tickets: Seq<Seq<u8>>,
    now_ms: i64,
) -> Seq<GrantModel> {
    Seq::new(
        files.len(),
        |place: int|
            GrantModel {
                file_id: files[place].file_id,
                ticket: tickets[place],
                expires_at_ms: grant_expiry(now_ms),
            },
    )
}

/// The authorizations that a receiver keeps for files.
pub open spec fn kept(files: Seq<ManifestModel>, tickets: Seq<Seq<u8>>, now_ms: i64) -> Map<
    u64,
    HeldModel,
>
    decreases files.len(),
{
    if files.len() == 0 {
        Map::empty()
    } else {
        kept(files.drop_last(), tickets, now_ms).insert(
            files.last().file_id,
            HeldModel {
                ticket: tickets[files.len() - 1],
                expires_at_ms: grant_expiry(now_ms),
                used: false,
            },
        )
    }
}

/// The bytes of a list of tickets.
pub open spec fn ticket_bytes(tickets: Seq<Vec<u8>>) -> Seq<Seq<u8>> {
    tickets.map_values(|ticket: Vec<u8>| ticket@)
}

/// The authorizations of an offer's files by the given tickets: the list that
/// goes to the sender and the one that stays with the receiver.
pub fn issue_grants_with(
    files: &Vec<FileManifestEntry>,
    tickets: &Vec<Vec<u8>>,
    now_ms: i64,
) -> (result: (Vec<FileTransferGrant>, FileGrants))
    requires
        tickets@.len() == files@.len(),
    ensures
        grant_models(result.0@) == issued(
            super::offer::manifest_models(files@),
            ticket_bytes(tickets@),
            now_ms,
        ),
        result.1@ == kept(
            super::offer::manifest_models(files@),
            ticket_bytes(tickets@),
            now_ms,
        ),
{
    let ghost models = super::offer::manifest_models(files@);
    let ghost texts = ticket_bytes(tickets@);
    let expires_at_ms = if now_ms > i64::MAX - FILE_GRANT_TTL_MS {
        i64::MAX
    } else {
        now_ms + FILE_GRANT_TTL_MS
    };
    let mut grants: Vec<FileTransferGrant> = Vec::new();
    let mut held = FileGrants::new();
    let mut index: usize = 0;
    assert(models.take(0) =~= Seq::empty());
    while index < files.len()
        invariant
            index <= files@.len() == tickets@.len(),
            models == super::offer::manifest_models(files@),
            texts == ticket_bytes(tickets@),
            expires_at_ms == grant_expiry(now_ms),
            grants@.len() == index,
            forall|place: int|
                0 <= place < index ==> (#[trigger] grants@[place])@ == issued(
                    models,
                    texts,
                    now_ms,
                )[place],
            held@ == kept(models.take(index as int), texts, now_ms),
        decreases files@.len() - index,
    {
        proof {
            assert(models.take(index + 1).drop_last() =~= models.take(index as int));
            assert(models[index as int] == files@[index as int]@);
            assert(texts[index as int] == tickets@[index as int]@);
        }
        let kept_ticket = tickets[index].clone();
        let sent_ticket = tickets[index].clone();
        proof {
            assert(kept_ticket@ =~= tickets@[index as int]@);
            assert(sent_ticket@ =~= tickets@[index as int]@);
        }
        held.insert(
            files[index].file_id,
            FileGrant { ticket: kept_ticket, expires_at_ms, used: false },
        );
        grants.push(
            FileTransferGrant {
                file_id: files[index].file_id,
                ticket: sent_ticket,
                expires_at_ms,
            },
        );
        index += 1;
    }
    proof {
        assert(models.take(models.len() as int) =~= models);
        assert(grant_models(grants@) =~= issued(models, texts, now_ms));
    }
    (grants, held)
}

/// So many random tickets.
pub fn draw_tickets(count: usize) -> (tickets: Vec<Vec<u8>>)
    ensures
        tickets@.len() == count,
        forall|place: int|
            0 <= place < tickets@.len() ==> (#[trigger] ticket_bytes(tickets@)[place]).len()
                == TICKET_BYTES,
{
    let mut tickets: Vec<Vec<u8>> = Vec::new();
    while tickets.len() < count
        invariant
            tickets@.len() <= count,
            forall|place: int|
                0 <= place < tickets@.len() ==> (#[trigger] tickets@[place])@.len() == TICKET_BYTES,
        decreases count - tickets@.len(),
    {
        let mut ticket: Vec<u8> = vec![0u8; TICKET_BYTES];
        fill_random(&mut ticket);
        tickets.push(ticket);
    }
    assert forall|place: int| 0 <= place < tickets@.len() implies (#[trigger] ticket_bytes(
        tickets@,
    )[place]).len() == TICKET_BYTES by {
        assert(tickets@[place]@.len() == TICKET_BYTES);
    }
    tickets
}

/// The authorizations of an offer's files by fresh random tickets.
pub fn issue_grants(files: &Vec<FileManifestEntry>, now_ms: i64) -> (result: (
    Vec<FileTransferGrant>,
    FileGrants,
))
    ensures
        exists|tickets: Seq<Seq<u8>>|
            {
                &&& tickets.len() == files@.len()
                &&& forall|place: int|
                    0 <= place < tickets.len() ==> (#[trigger] tickets[place]).len() == TICKET_BYTES
                &&& grant_models(result.0@) == #[trigger] issued(
                    super::offer::manifest_models(files@),
                    tickets,
                    now_ms,
                )
                &&& result.1@ == kept(super::offer::manifest_models(files@), tickets, now_ms)
            },
{
    let tickets = draw_tickets(files.len());
    proof {
        let drawn = ticket_bytes(tickets@);
        assert forall|place: int| 0 <= place < drawn.len() implies (#[trigger] drawn[place]).len()
            == TICKET_BYTES by {
            assert(drawn[place] == tickets@[place]@);
        }
    }
    issue_grants_with(files, &tickets, now_ms)
}

/// Every file of an offer that names no file twice has an authorization that
/// the sender can redeem while it has not expired.
pub proof fn issued_grants_are_redeemable(
    files: Seq<ManifestModel>,
    tickets: Seq<Seq<u8>>,
    issued_ms: i64,
    transfer_id: u64,
    place: int,
    now_ms: i64,
)
    requires
        0 <= place < files.len(),
        forall|left: int, right: int|
            0 <= left < right < files.len() ==> (#[trigger] files[left]).file_id != (
            #[trigger] files[right]).file_id,
        now_ms <= grant_expiry(issued_ms),
    ensures
        redeemable(
            kept(files, tickets, issued_ms),
            OpenModel {
                transfer_id,
                file_id: issued(files, tickets, issued_ms)[place].file_id,
                ticket: issued(files, tickets, issued_ms)[place].ticket,
            },
            transfer_id,
            now_ms,
        ),
    decreases files.len(),
{
    let front = files.drop_last();
    if place < files.len() - 1 {
        assert forall|left: int, right: int| 0 <= left < right < front.len() implies (
        #[trigger] front[left]).file_id != (#[trigger] front[right]).file_id by {
            assert(front[left] == files[left] && front[right] == files[right]);
        }
        issued_grants_are_redeemable(front, tickets, issued_ms, transfer_id, place, now_ms);
        assert(front[place] == files[place]);
        assert(files[files.len() - 1] == files.last());
    } else {
        assert(files[place] == files.last());
    }
}

/// Whether a list names a file.
pub open spec fn names_file(grants: Seq<GrantModel>, file_id: u64) -> bool {
    exists|place: int| 0 <= place < grants.len() && (#[trigger] grants[place]).file_id == file_id
}

/// The receiver authorizes just the files that are expected, each once, by
/// tickets of the right length that will expire some day.
pub open spec fn complete_grants(grants: Seq<GrantModel>, expected: Seq<u64>) -> bool {
    &&& forall|left: int, right: int|
        0 <= left < right < grants.len() ==> (#[trigger] grants[left]).file_id != (
        #[trigger] grants[right]).file_id
    &&& forall|place: int|
        0 <= place < grants.len() ==> expected.contains((#[trigger] grants[place]).file_id)
    &&& forall|place: int|
        0 <= place < expected.len() ==> names_file(grants, #[trigger] expected[place])
    &&& forall|place: int|
        0 <= place < grants.len() ==> (#[trigger] grants[place]).ticket.len() == TICKET_BYTES
            && grants[place].expires_at_ms > 0
}

/// Whether the receiver's consent answers a request for the files that are
/// expected, and if not, why.
pub open spec fn authorized(
    accept: AcceptModel,
    transfer_id: u64,
    request_id: u64,
    expected: Seq<u64>,
) -> Result<(), ErrorModel> {
    if accept.transfer_id != transfer_id || accept.request_id != request_id || accept.chunk_size
        < MIN_CHUNK_SIZE || accept.chunk_size > MAX_CHUNK_SIZE {
        Err(ErrorModel::Network("receiver returned invalid authorization"@))
    } else if !complete_grants(accept.grants, expected) {
        Err(ErrorModel::Network("receiver returned incomplete file authorization"@))
    } else {
        Ok(())
    }
}

/// The numbers of prepared files.
pub open spec fn expected_ids(prepared: Seq<PreparedFile>) -> Seq<u64> {
    prepared.map_values(|file: PreparedFile| file.manifest.file_id)
}

fn grants_are_sound(grants: &Vec<FileTransferGrant>, prepared: &Vec<PreparedFile>) -> (sound: bool)
    ensures
        sound ==> forall|left: int, right: int|
            0 <= left < right < grants@.len() ==> (#[trigger] grant_models(
                grants@,
            )[left]).file_id != (#[trigger] grant_models(grants@)[right]).file_id,
        sound ==> forall|place: int|
            0 <= place < grants@.len() ==> {
                &&& expected_ids(prepared@).contains(
                    (#[trigger] grant_models(grants@)[place]).file_id,
                )
                &&& grant_models(grants@)[place].ticket.len() == TICKET_BYTES
                &&& grant_models(grants@)[place].expires_at_ms > 0
            },
        !sound ==> !complete_grants(grant_models(grants@), expected_ids(prepared@)),
{
    let ghost models = grant_models(grants@);
    let ghost expected = expected_ids(prepared@);
    let mut index: usize = 0;
    while index < grants.len()
        invariant
            index <= grants@.len(),
            models == grant_models(grants@),
            expected == expected_ids(prepared@),
            forall|left: int, right: int|
                0 <= left < right < index ==> (#[trigger] models[left]).file_id != (
                #[trigger] models[right]).file_id,
            forall|place: int|
                0 <= place < index ==> {
                    &&& expected.contains((#[trigger] models[place]).file_id)
                    &&& models[place].ticket.len() == TICKET_BYTES
                    &&& models[place].expires_at_ms > 0
                },
        decreases grants@.len() - index,
    {
        assert(models[index as int] == grants@[index as int]@);
        if grants[index].ticket.len() != TICKET_BYTES || grants[index].expires_at_ms <= 0 {
            return false;
        }
        let mut earlier: usize = 0;
        while earlier < index
            invariant
                earlier <= index < grants@.len(),
                models == grant_models(grants@),
                expected == expected_ids(prepared@),
                forall|other: int|
                    0 <= other < earlier ==> (#[trigger] models[other]).file_id
                        != models[index as int].file_id,
            decreases index - earlier,
        {
            assert(models[earlier as int] == grants@[earlier as int]@);
            assert(models[index as int] == grants@[index as int]@);
            if grants[earlier].file_id == grants[index].file_id {
                return false;
            }
            earlier += 1;
        }
        let mut known = false;
        let mut place: usize = 0;
        while place < prepared.len() && !known
            invariant
                place <= prepared@.len(),
                index < grants@.len(),
                expected == expected_ids(prepared@),
                known ==> expected.contains(grants@[index as int].file_id),
                !known ==> forall|other: int|
                    0 <= other < place ==> #[trigger] expected[other]
                        != grants@[index as int].file_id,
            decreases prepared@.len() - place,
        {
            assert(expected[place as int] == prepared@[place as int].manifest.file_id);
            if prepared[place].manifest.file_id == grants[index].file_id {
                known = true;
            }
            place += 1;
        }
        if !known {
            assert(!expected.contains(models[index as int].file_id));
            return false;
        }
        index += 1;
    }
    true
}

/// Holds the receiver's consent against what was offered.
pub fn verify_accept(
    accept: &TransferAccept,
    transfer_id: u64,
    request_id: u64,
    prepared: &Vec<PreparedFile>,
) -> (result: Result<(), TransferError>)
    ensures
        crate::error::outcome(result) == authorized(
            accept@,
            transfer_id,
            request_id,
            expected_ids(prepared@),
        ),
{
    if accept.transfer_id != transfer_id || accept.request_id != request_id || (
    accept.chunk_size as usize) < MIN_CHUNK_SIZE || accept.chunk_size as usize > MAX_CHUNK_SIZE {
        return Err(TransferError::network("receiver returned invalid authorization"));
    }
    let ghost models = grant_models(accept.grants@);
    let ghost expected = expected_ids(prepared@);
    if !grants_are_sound(&accept.grants, prepared) {
        return Err(TransferError::network("receiver returned incomplete file authorization"));
    }
    let mut place: usize = 0;
    while place < prepared.len()
        invariant
            place <= prepared@.len(),
            models == grant_models(accept.grants@),
            accept@.grants == models,
            expected == expected_ids(prepared@),
            authorized(accept@, transfer_id, request_id, expected) == (if complete_grants(
                models,
                expected,
            ) {
                Ok::<(), ErrorModel>(())
            } else {
                Err(ErrorModel::Network("receiver returned incomplete file authorization"@))
            }),
            forall|other: int| 0 <= other < place ==> names_file(models, #[trigger] expected[other]),
        decreases prepared@.len() - place,
    {
        let wanted = prepared[place].manifest.file_id;
        assert(expected[place as int] == wanted);
        let mut named = false;
        let mut index: usize = 0;
        while index < accept.grants.len() && !named
            invariant
                index <= accept.grants@.len(),
                models == grant_models(accept.grants@),
                named ==> names_file(models, wanted),
                !named ==> forall|other: int|
                    0 <= other < index ==> (#[trigger] models[other]).file_id != wanted,
            decreases accept.grants@.len() - index,
        {
            assert(models[index as int] == accept.grants@[index as int]@);
            if accept.grants[index].file_id == wanted {
                named = true;
            }
            index += 1;
        }
        if !named {
            return Err(TransferError::network("receiver returned incomplete file authorization"));
        }
        place += 1;
    }
    Ok(())
}

/// The place of the last grant for a file.
pub open spec fn granted_place(grants: Seq<GrantModel>, file_id: u64) -> Option<int>
    decreases grants.len(),
{
    if grants.len() == 0 {
        None
    } else if grants.last().file_id == file_id {
        Some(grants.len() - 1)
    } else {
        granted_place(grants.drop_last(), file_id)
    }
}

impl TransferAccept {
    /// The authorization of a file.
    pub fn grant_for(&self, file_id: u64) -> (result: Result<&FileTransferGrant, TransferError>)
        ensures
            match result {
                Ok(grant) => granted_place(self@.grants, file_id) matches Some(place) && grant@
                    == self@.grants[place],
                Err(error) => granted_place(self@.grants, file_id) is None && error@
                    == ErrorModel::Network("receiver did not authorize the file"@),
            },
    {
        let ghost models = self@.grants;
        let mut end: usize = self.grants.len();
        assert(models.take(models.len() as int) =~= models);
        while end > 0
            invariant
                end <= self.grants@.len(),
                models == grant_models(self.grants@),
                granted_place(models, file_id) == granted_place(models.take(end as int), file_id),
            decreases end,
        {
            proof {
                assert(models.take(end as int).drop_last() =~= models.take(end - 1));
                assert(models.take(end as int).last() == self.grants@[end - 1]@);
            }
            end -= 1;
            if self.grants[end].file_id == file_id {
                return Ok(&self.grants[end]);
            }
        }
        Err(TransferError::network("receiver did not authorize the file"))
    }
}

proof fn granted_place_exists(grants: Seq<GrantModel>, file_id: u64)
    ensures
        match granted_place(grants, file_id) {
            Some(place) => 0 <= place < grants.len() && grants[place].file_id == file_id,
            None => !names_file(grants, file_id),
        },
    decreases grants.len(),
{
    if grants.len() > 0 {
        let front = grants.drop_last();
        granted_place_exists(front, file_id);
        assert(grants[grants.len() - 1] == grants.last());
        if names_file(grants, file_id) && grants.last().file_id != file_id {
            let place = choose|place: int|
                0 <= place < grants.len() && (#[trigger] grants[place]).file_id == file_id;
            assert(front[place] == grants[place]);
        }
    }
}

/// Where the receiver's consent has been found good, every file that was
/// offered has its authorization.
pub proof fn verified_accept_grants_every_file(
    accept: AcceptModel,
    transfer_id: u64,
    request_id: u64,
    expected: Seq<u64>,
    place: int,
)
    requires
        authorized(accept, transfer_id, request_id, expected) is Ok,
        0 <= place < expected.len(),
    ensures
        granted_place(accept.grants, expected[place]) matches Some(grant) && 0 <= grant
            < accept.grants.len() && accept.grants[grant].file_id == expected[place]
            && accept.grants[grant].ticket.len() == TICKET_BYTES,
{
    granted_place_exists(accept.grants, expected[place]);
    assert(names_file(accept.grants, expected[place]));
}

/// The consent that a receiver gives to an offer with the authorizations that
/// it issues passes at the sender of that offer.
pub proof fn issued_accept_is_authorized(
    files: Seq<ManifestModel>,
    tickets: Seq<Seq<u8>>,
    now_ms: i64,
    transfer_id: u64,
    request_id: u64,
)
    requires
        tickets.len() == files.len(),
        forall|place: int|
            0 <= place < tickets.len() ==> (#[trigger] tickets[place]).len() == TICKET_BYTES,
        forall|left: int, right: int|
            0 <= left < right < files.len() ==> (#[trigger] files[left]).file_id != (
            #[trigger] files[right]).file_id,
        grant_expiry(now_ms) > 0,
    ensures
        authorized(
            AcceptModel {
                request_id,
                transfer_id,
                grants: issued(files, tickets, now_ms),
                chunk_size: MAX_CHUNK_SIZE as u32,
            },
            transfer_id,
            request_id,
            files.map_values(|file: ManifestModel| file.file_id),
        ) is Ok,
{
    let expected = files.map_values(|file: ManifestModel| file.file_id);
    let grants = issued(files, tickets, now_ms);
    assert forall|place: int| 0 <= place < grants.len() implies expected.contains(
        (#[trigger] grants[place]).file_id,
    ) by {
        assert(expected[place] == grants[place].file_id);
    }
    assert forall|place: int| 0 <= place < expected.len() implies names_file(
        grants,
        #[trigger] expected[place],
    ) by {
        assert(grants[place].file_id == expected[place]);
    }
    assert forall|left: int, right: int| 0 <= left < right < grants.len() implies (
    #[trigger] grants[left]).file_id != (#[trigger] grants[right]).file_id by {
        assert(files[left].file_id != files[right].file_id);
    }
}

/// The consent to an offer.
pub fn accept_offer(
    request_id: u64,
    transfer_id: u64,
    grants: Vec<FileTransferGrant>,
) -> (accept: TransferAccept)
    ensures
        accept@ == (AcceptModel {
            request_id,
            transfer_id,
            grants: grant_models(grants@),
            chunk_size: MAX_CHUNK_SIZE as u32,
        }),
{
    TransferAccept { request_id, transfer_id, grants, chunk_size: MAX_CHUNK_SIZE as u32 }
}

/// The size of the chunks that a sender writes, out of what the receiver asks
/// for.
pub open spec fn clamped_chunk(asked: u32) -> usize {
    if asked < MIN_CHUNK_SIZE {
        MIN_CHUNK_SIZE
    } else if asked > MAX_CHUNK_SIZE {
        MAX_CHUNK_SIZE
    } else {
        asked as usize
    }
}

/// The size of the chunks that a sender writes.
pub fn chunk_size(asked: u32) -> (size: usize)
    ensures
        size == clamped_chunk(asked),
{
    let asked = asked as usize;
    if asked < MIN_CHUNK_SIZE {
        MIN_CHUNK_SIZE
    } else if asked > MAX_CHUNK_SIZE {
        MAX_CHUNK_SIZE
    } else {
        asked
    }
}

/// A receiver whose consent has been found good gets chunks of just the size
/// that it asked for.
pub proof fn verified_chunk_size_is_kept(
    accept: AcceptModel,
    transfer_id: u64,
    request_id: u64,
    expected: Seq<u64>,
)
    requires
        authorized(accept, transfer_id, request_id, expected) is Ok,
    ensures
        clamped_chunk(accept.chunk_size) == accept.chunk_size,
{
}

/// The space that is left free when that many bytes have come in.
pub open spec fn reserve(incoming: u64) -> int {
    if MIN_RECEIVE_FREE_SPACE_RESERVE >= incoming / 20 {
        MIN_RECEIVE_FREE_SPACE_RESERVE as int
    } else {
        (incoming / 20) as int
    }
}

/// Whether that many bytes may come in where that many are free.
pub open spec fn capacity(available: u64, incoming: u64) -> Result<(), ErrorModel> {
    let required = incoming + reserve(incoming);
    if required > u64::MAX {
        Err(ErrorModel::Invalid("required receive space overflow"@))
    } else if available < required {
        Err(
            ErrorModel::Invalid(
                "not enough free space to receive files (need "@ + crate::text::decimal(
                    required as nat,
                ) + " bytes, have "@ + crate::text::decimal(available as nat) + ")"@,
            ),
        )
    } else {
        Ok(())
    }
}

/// Whether there is room for what is coming in, the reserve left aside.
pub fn ensure_receive_capacity(available: u64, incoming_bytes: u64) -> (result: Result<
    (),
    TransferError,
>)
    ensures
        crate::error::outcome(result) == capacity(available, incoming_bytes),
{
    let share = incoming_bytes / 20;
    let reserved = if MIN_RECEIVE_FREE_SPACE_RESERVE >= share {
        MIN_RECEIVE_FREE_SPACE_RESERVE
    } else {
        share
    };
    match incoming_bytes.checked_add(reserved) {
        None => Err(TransferError::invalid("required receive space overflow")),
        Some(required) => {
            if available < required {
                let text = joined(
                    "not enough free space to receive files (need ",
                    decimal_text(required).as_str(),
                ).concat(" bytes, have ").concat(decimal_text(available).as_str()).concat(")");
                return Err(TransferError::Invalid(text));
            }
            Ok(())
        },
    }
}

/// What is let in leaves at least the reserve free, and a disk never lets in
/// all that it has room for.
pub proof fn capacity_keeps_the_reserve(available: u64, incoming: u64)
    ensures
        capacity(available, incoming) is Ok ==> available - incoming >= reserve(incoming)
            && available - incoming >= MIN_RECEIVE_FREE_SPACE_RESERVE && 20 * (available
            - incoming) > incoming - 20,
        capacity(available, available) is Err,
{
}

/// Only the very ticket that was given for a file opens it: a request for a file
/// without an authorization, with another ticket, or after it was used is
/// refused.
pub proof fn forged_requests_are_refused(
    grants: Map<u64, HeldModel>,
    open: OpenModel,
    transfer_id: u64,
    now_ms: i64,
)
    ensures
        !grants.contains_key(open.file_id) ==> !redeemable(grants, open, transfer_id, now_ms),
        grants.contains_key(open.file_id) && grants[open.file_id].ticket != open.ticket
            ==> !redeemable(grants, open, transfer_id, now_ms),
        grants.contains_key(open.file_id) && grants[open.file_id].used ==> !redeemable(
            grants,
            open,
            transfer_id,
            now_ms,
        ),
        grants.contains_key(open.file_id) && !grants[open.file_id].used
            && grants[open.file_id].ticket == open.ticket && open.transfer_id == transfer_id
            && now_ms <= grants[open.file_id].expires_at_ms ==> redeemable(
            grants,
            open,
            transfer_id,
            now_ms,
        ),
{
}

/// An authorization is good for 65 hours from when it was issued, as far as the
/// clock goes.
pub proof fn authorizations_last_for_65_hours(issued_ms: i64, now_ms: i64)
    ensures
        now_ms - issued_ms <= 65 * 60 * 60 * 1000 ==> now_ms <= grant_expiry(issued_ms),
        now_ms - issued_ms > 65 * 60 * 60 * 1000 ==> now_ms > grant_expiry(issued_ms),
{
}

/// Each file gets one authorization, with its own ticket; the receiver keeps
/// those that it gives, unused, and no others.
pub proof fn each_file_gets_its_own_ticket(
    files: Seq<ManifestModel>,
    tickets: Seq<Seq<u8>>,
    now_ms: i64,
    place: int,
)
    requires
        0 <= place < files.len(),
        forall|left: int, right: int|
            0 <= left < right < files.len() ==> (#[trigger] files[left]).file_id != (
            #[trigger] files[right]).file_id,
    ensures
        issued(files, tickets, now_ms).len() == files.len(),
        ({
            let grant = issued(files, tickets, now_ms)[place];
            let held = kept(files, tickets, now_ms)[files[place].file_id];
            &&& grant.file_id == files[place].file_id
            &&& grant.ticket == tickets[place]
            &&& kept(files, tickets, now_ms).contains_key(files[place].file_id)
            &&& held.ticket == tickets[place]
            &&& held.expires_at_ms == grant.expires_at_ms
            &&& !held.used
        }),
        forall|file_id: u64| #[trigger]
            kept(files, tickets, now_ms).contains_key(file_id) ==> exists|other: int|
                0 <= other < files.len() && (#[trigger] files[other]).file_id == file_id,
    decreases files.len(),
{
    let front = files.drop_last();
    let last = files.len() - 1;
    assert(files.last() == files[last]);
    assert forall|left: int, right: int| 0 <= left < right < front.len() implies (
    #[trigger] front[left]).file_id != (#[trigger] front[right]).file_id by {
        assert(front[left] == files[left] && front[right] == files[right]);
    }
    if place < last {
        each_file_gets_its_own_ticket(front, tickets, now_ms, place);
        assert(front[place] == files[place]);
        assert(files[place].file_id != files[last].file_id);
    }
    only_files_have_authorizations(files, tickets, now_ms);
}

proof fn only_files_have_authorizations(
    files: Seq<ManifestModel>,
    tickets: Seq<Seq<u8>>,
    now_ms: i64,
)
    ensures
        forall|file_id: u64| #[trigger]
            kept(files, tickets, now_ms).contains_key(file_id) ==> exists|other: int|
                0 <= other < files.len() && (#[trigger] files[other]).file_id == file_id,
    decreases files.len(),
{
    if files.len() > 0 {
        let front = files.drop_last();
        only_files_have_authorizations(front, tickets, now_ms);
        assert forall|file_id: u64| #[trigger]
            kept(files, tickets, now_ms).contains_key(file_id) implies exists|other: int|
            0 <= other < files.len() && (#[trigger] files[other]).file_id == file_id by {
            if file_id == files.last().file_id {
                assert(files[files.len() - 1].file_id == file_id);
            } else {
                assert(kept(front, tickets, now_ms).contains_key(file_id));
                let other = choose|other: int|
                    0 <= other < front.len() && (#[trigger] front[other]).file_id == file_id;
                assert(files[other].file_id == file_id);
            }
        }
    }
}

/// A consent is good exactly where it answers that request for that transfer,
/// asks for chunks of 16 to 256 KiB, and authorizes each expected file once,
/// with a ticket of 32 bytes and a time of expiry, and no other file.
pub proof fn a_consent_must_fit_the_request(
    accept: AcceptModel,
    transfer_id: u64,
    request_id: u64,
    expected: Seq<u64>,
)
    ensures
        authorized(accept, transfer_id, request_id, expected) is Ok <==> {
            &&& accept.transfer_id == transfer_id
            &&& accept.request_id == request_id
            &&& 16384 <= accept.chunk_size <= 262144
            &&& forall|place: int|
                0 <= place < accept.grants.len() ==> {
                    &&& (#[trigger] accept.grants[place]).ticket.len() == 32
                    &&& accept.grants[place].expires_at_ms > 0
                    &&& expected.contains(accept.grants[place].file_id)
                }
            &&& forall|left: int, right: int|
                0 <= left < right < accept.grants.len() ==> (
                #[trigger] accept.grants[left]).file_id != (#[trigger] accept.grants[right]).file_id
            &&& forall|file: int|
                0 <= file < expected.len() ==> accept.grants.map_values(
                    |grant: GrantModel| grant.file_id,
                ).contains(#[trigger] expected[file])
        },
        authorized(accept, transfer_id, request_id, expected) matches Err(error)
            ==> error is Network,
{
    let named = accept.grants.map_values(|grant: GrantModel| grant.file_id);
    assert forall|file_id: u64| #[trigger] named.contains(file_id) <==> names_file(
        accept.grants,
        file_id,
    ) by {
        if named.contains(file_id) {
            let place = choose|place: int| 0 <= place < named.len() && named[place] == file_id;
            assert(accept.grants[place].file_id == file_id);
        }
        if names_file(accept.grants, file_id) {
            let place = choose|place: int|
                0 <= place < accept.grants.len() && (#[trigger] accept.grants[place]).file_id
                    == file_id;
            assert(named[place] == file_id);
        }
    }
}

/// The authorization that is used for a file is one for that file, and there is
/// one to use wherever the consent holds one.
pub proof fn a_file_is_sent_with_its_own_authorization(grants: Seq<GrantModel>, file_id: u64)
    ensures
        granted_place(grants, file_id) matches Some(place) ==> 0 <= place < grants.len()
            && grants[place].file_id == file_id,
        granted_place(grants, file_id) is None ==> forall|place: int|
            0 <= place < grants.len() ==> (#[trigger] grants[place]).file_id != file_id,
    decreases grants.len(),
{
    if grants.len() > 0 {
        let front = grants.drop_last();
        a_file_is_sent_with_its_own_authorization(front, file_id);
        assert(grants.last() == grants[grants.len() - 1]);
        assert forall|place: int| 0 <= place < front.len() implies front[place]
            == #[trigger] grants[place] by {}
    }
}

/// A chunk is of the size that was asked for, as far as that lies between 16 and
/// 256 KiB, and of the nearer bound otherwise.
pub proof fn chunks_stay_within_bounds(asked: u32)
    ensures
        16384 <= clamped_chunk(asked) <= 262144,
        16384 <= asked <= 262144 ==> clamped_chunk(asked) == asked,
        asked < 16384 ==> clamped_chunk(asked) == 16384,
        asked > 262144 ==> clamped_chunk(asked) == 262144,
{
}

/// Files are received exactly where, besides their own size, 64 MiB are free and
/// a twentieth of their size is.
pub proof fn room_is_needed_beside_the_files(available: u64, incoming: u64)
    ensures
        capacity(available, incoming) is Ok <==> available - incoming >= 67108864 && available
            - incoming >= incoming / 20,
        capacity(available, incoming) matches Err(error) ==> error is Invalid,
{
}

} // verus!

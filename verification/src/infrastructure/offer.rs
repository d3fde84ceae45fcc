//! The offer of a transfer: how a sender makes one and what a receiver takes.

use super::filesystem::{
    portable_path_key, sanitize_relative_path, MAX_FILE_COUNT, MAX_PREVIEW_BYTES,
    MAX_TOTAL_PREVIEW_BYTES,
};
use crate::error::{ErrorModel, TransferError};
use crate::text::begins_with;
use vstd::prelude::*;
use vstd::string::*;

verus! {

/// The most bytes of one transfer.
pub const MAX_TOTAL_BYTES: u64 = 16 * 1024 * 1024 * 1024 * 1024;

/// One file of an offer.
#[derive(Debug, PartialEq, Eq)]
pub struct FileManifestEntry {
    pub file_id: u64,
    pub relative_path: String,
    pub size: u64,
    pub media_type: String,
    pub modified_at_ms: i64,
}

/// The mathematical value of a [`FileManifestEntry`].
pub struct ManifestModel {
    pub file_id: u64,
    pub relative_path: Seq<char>,
    pub size: u64,
    pub media_type: Seq<char>,
    pub modified_at_ms: i64,
}

impl View for FileManifestEntry {
    type V = ManifestModel;

    open spec fn view(&self) -> ManifestModel {
        ManifestModel {
            file_id: self.file_id,
            relative_path: self.relative_path@,
            size: self.size,
            media_type: self.media_type@,
            modified_at_ms: self.modified_at_ms,
        }
    }
}

impl Clone for FileManifestEntry {
    fn clone(&self) -> (copy: Self)
        ensures
            copy@ == self@,
    {
        FileManifestEntry {
            file_id: self.file_id,
            relative_path: self.relative_path.clone(),
            size: self.size,
            media_type: self.media_type.clone(),
            modified_at_ms: self.modified_at_ms,
        }
    }
}

/// A small picture of one file of an offer.
#[derive(Debug, PartialEq, Eq)]
pub struct TransferPreview {
    pub file_id: u64,
    pub media_type: String,
    pub data: Vec<u8>,
}

/// The mathematical value of a [`TransferPreview`].
pub struct PreviewModel {
    pub file_id: u64,
    pub media_type: Seq<char>,
    pub data: Seq<u8>,
}

impl View for TransferPreview {
    type V = PreviewModel;

    open spec fn view(&self) -> PreviewModel {
        PreviewModel {
            file_id: self.file_id,
            media_type: self.media_type@,
            data: self.data@,
        }
    }
}

impl Clone for TransferPreview {
    fn clone(&self) -> (copy: Self)
        ensures
            copy@ == self@,
    {
        let copy = TransferPreview {
            file_id: self.file_id,
            media_type: self.media_type.clone(),
            data: self.data.clone(),
        };
        assert(copy.data@ =~= self.data@);
        copy
    }
}

/// What a sender proposes to send.
#[derive(Debug, PartialEq, Eq)]
pub struct TransferOffer {
    pub request_id: u64,
    pub transfer_id: u64,
    pub display_name: String,
    pub files: Vec<FileManifestEntry>,
    pub total_bytes: u64,
    pub created_at_ms: i64,
    pub previews: Vec<TransferPreview>,
}

/// The mathematical value of a [`TransferOffer`].
pub struct OfferModel {
    pub request_id: u64,
    pub transfer_id: u64,
    pub display_name: Seq<char>,
    pub files: Seq<ManifestModel>,
    pub total_bytes: u64,
    pub created_at_ms: i64,
    pub previews: Seq<PreviewModel>,
}

/// The values of a list of manifest entries.
pub open spec fn manifest_models(files: Seq<FileManifestEntry>) -> Seq<ManifestModel> {
    files.map_values(|file: FileManifestEntry| file@)
}

/// The values of a list of previews.
pub open spec fn preview_models(previews: Seq<TransferPreview>) -> Seq<PreviewModel> {
    previews.map_values(|preview: TransferPreview| preview@)
}

impl View for TransferOffer {
    type V = OfferModel;

    open spec fn view(&self) -> OfferModel {
        OfferModel {
            request_id: self.request_id,
            transfer_id: self.transfer_id,
            display_name: self.display_name@,
            files: manifest_models(self.files@),
            total_bytes: self.total_bytes,
            created_at_ms: self.created_at_ms,
            previews: preview_models(self.previews@),
        }
    }
}

/// The bytes of all files of a manifest.
pub open spec fn manifest_total(files: Seq<ManifestModel>) -> int
    decreases files.len(),
{
    if files.len() == 0 {
        0
    } else {
        manifest_total(files.drop_last()) + files.last().size
    }
}

/// The bytes of all previews.
pub open spec fn preview_total(previews: Seq<PreviewModel>) -> int
    decreases previews.len(),
{
    if previews.len() == 0 {
        0
    } else {
        preview_total(previews.drop_last()) + previews.last().data.len()
    }
}

/// Whether the file at a place repeats the number of one before it.
pub open spec fn repeats_id(files: Seq<ManifestModel>, place: int) -> bool {
    exists|earlier: int|
        0 <= earlier < place && (#[trigger] files[earlier]).file_id == files[place].file_id
}

/// Whether the key at a place repeats one before it.
pub open spec fn repeats_key(keys: Seq<Seq<char>>, place: int) -> bool {
    exists|earlier: int| 0 <= earlier < place && #[trigger] keys[earlier] == keys[place]
}

/// The bytes of all files of a manifest, or what is wrong with the first file
/// that is wrong. `keys` are the keys of the files' paths.
pub open spec fn checked_total(files: Seq<ManifestModel>, keys: Seq<Seq<char>>) -> Result<
    int,
    ErrorModel,
>
    decreases files.len(),
{
    if files.len() == 0 {
        Ok(0)
    } else {
        match checked_total(files.drop_last(), keys) {
            Err(error) => Err(error),
            Ok(total) => {
                let place = files.len() - 1;
                let file = files[place];
                if !super::filesystem::safe_path(file.relative_path) {
                    Err(super::filesystem::path_refusal(file.relative_path))
                } else if file.file_id == 0 || repeats_id(files, place) || repeats_key(
                    keys,
                    place,
                ) {
                    Err(ErrorModel::Invalid("invalid manifest"@))
                } else if total + file.size > u64::MAX {
                    Err(ErrorModel::Invalid("manifest size overflow"@))
                } else {
                    Ok(total + file.size)
                }
            },
        }
    }
}

/// Whether the preview at a place is too large, no image, a repetition, or of
/// no file of the offer.
pub open spec fn bad_preview(offer: OfferModel, place: int) -> bool {
    let preview = offer.previews[place];
    ||| preview.data.len() > MAX_PREVIEW_BYTES
    ||| !"image/"@.is_prefix_of(preview.media_type)
    ||| exists|earlier: int|
        0 <= earlier < place && (#[trigger] offer.previews[earlier]).file_id == preview.file_id
    ||| !exists|file: int|
        0 <= file < offer.files.len() && (#[trigger] offer.files[file]).file_id == preview.file_id
}

/// Whether an offer may be taken, and if not, why. `keys` are the keys of the
/// files' paths.
pub open spec fn examined(offer: OfferModel, keys: Seq<Seq<char>>) -> Result<(), ErrorModel> {
    if offer.request_id == 0 || offer.transfer_id == 0 {
        Err(ErrorModel::Invalid("offer is missing required fields"@))
    } else if offer.files.len() == 0 || offer.files.len() > MAX_FILE_COUNT || offer.total_bytes
        > MAX_TOTAL_BYTES {
        Err(ErrorModel::Invalid("offer has an invalid file count or size"@))
    } else if offer.created_at_ms <= 0 {
        Err(ErrorModel::Invalid("offer has an invalid timestamp"@))
    } else {
        match checked_total(offer.files, keys) {
            Err(error) => Err(error),
            Ok(total) => if total != offer.total_bytes {
                Err(ErrorModel::Invalid("manifest total size does not match"@))
            } else if preview_total(offer.previews) > usize::MAX {
                Err(ErrorModel::Invalid("total file preview size overflow"@))
            } else if preview_total(offer.previews) > MAX_TOTAL_PREVIEW_BYTES || exists|
                place: int,
            |
                0 <= place < offer.previews.len() && #[trigger] bad_preview(offer, place) {
                Err(ErrorModel::Invalid("invalid file preview"@))
            } else {
                Ok(())
            },
        }
    }
}

/// The keys of a manifest's paths.
pub open spec fn path_keys(files: Seq<ManifestModel>) -> Seq<Seq<char>> {
    files.map_values(|file: ManifestModel| super::filesystem::path_key(file.relative_path))
}

/// What it means for an offer to be good.
pub open spec fn acceptable(offer: OfferModel, keys: Seq<Seq<char>>) -> bool {
    &&& offer.request_id != 0
    &&& offer.transfer_id != 0
    &&& 0 < offer.files.len() <= MAX_FILE_COUNT
    &&& offer.created_at_ms > 0
    &&& offer.total_bytes == manifest_total(offer.files)
    &&& offer.total_bytes <= MAX_TOTAL_BYTES
    &&& forall|place: int|
        0 <= place < offer.files.len() ==> super::filesystem::safe_path(
            (#[trigger] offer.files[place]).relative_path,
        ) && offer.files[place].file_id != 0
    &&& forall|left: int, right: int|
        0 <= left < right < offer.files.len() ==> (#[trigger] offer.files[left]).file_id != (
        #[trigger] offer.files[right]).file_id
    &&& forall|left: int, right: int|
        0 <= left < right < offer.files.len() ==> #[trigger] keys[left] != #[trigger] keys[right]
    &&& preview_total(offer.previews) <= MAX_TOTAL_PREVIEW_BYTES
    &&& forall|place: int|
        0 <= place < offer.previews.len() ==> !#[trigger] bad_preview(offer, place)
}

proof fn totals_are_not_negative(files: Seq<ManifestModel>)
    ensures
        manifest_total(files) >= 0,
        forall|length: int|
            0 <= length <= files.len() ==> #[trigger] manifest_total(files.take(length))
                <= manifest_total(files),
    decreases files.len(),
{
    if files.len() > 0 {
        totals_are_not_negative(files.drop_last());
        assert forall|length: int| 0 <= length <= files.len() implies #[trigger] manifest_total(
            files.take(length),
        ) <= manifest_total(files) by {
            if length < files.len() {
                assert(files.drop_last().take(length) =~= files.take(length));
            } else {
                assert(files.take(length) =~= files);
            }
        }
    } else {
        assert forall|length: int| 0 <= length <= files.len() implies #[trigger] manifest_total(
            files.take(length),
        ) <= manifest_total(files) by {
            assert(files.take(length) =~= files);
        }
    }
}

/// The checks on a manifest's files all pass exactly where every path is safe,
/// no number is zero or repeated, no key is repeated, and the sizes add up.
proof fn checked_total_is_sound(files: Seq<ManifestModel>, keys: Seq<Seq<char>>)
    ensures
        checked_total(files, keys) is Ok <==> {
            &&& manifest_total(files) <= u64::MAX
            &&& forall|place: int|
                0 <= place < files.len() ==> super::filesystem::safe_path(
                    (#[trigger] files[place]).relative_path,
                ) && files[place].file_id != 0
            &&& forall|left: int, right: int|
                0 <= left < right < files.len() ==> (#[trigger] files[left]).file_id != (
                #[trigger] files[right]).file_id
            &&& forall|left: int, right: int|
                0 <= left < right < files.len() ==> #[trigger] keys[left] != #[trigger] keys[right]
        },
        checked_total(files, keys) matches Ok(total) ==> total == manifest_total(files),
    decreases files.len(),
{
    totals_are_not_negative(files);
    if files.len() > 0 {
        let front = files.drop_last();
        let place = files.len() - 1;
        checked_total_is_sound(front, keys);
        totals_are_not_negative(front);
        assert forall|other: int| 0 <= other < front.len() implies front[other]
            == #[trigger] files[other] by {}
        if checked_total(files, keys) is Ok {
            assert forall|left: int, right: int| 0 <= left < right < files.len() implies (
            #[trigger] files[left]).file_id != (#[trigger] files[right]).file_id by {
                if right == place {
                    assert(!repeats_id(files, place));
                } else {
                    assert(front[left] == files[left] && front[right] == files[right]);
                }
            }
            assert forall|left: int, right: int| 0 <= left < right < files.len() implies
                #[trigger] keys[left] != #[trigger] keys[right] by {
                if right == place {
                    assert(!repeats_key(keys, place));
                }
            }
        }
    }
}

/// An offer passes exactly when it is good: every path is safe, no file is
/// named twice on any file system, the sizes add up and are in bounds, and the
/// previews are small images of its files.
pub proof fn exactly_good_offers_pass(offer: OfferModel, keys: Seq<Seq<char>>)
    ensures
        examined(offer, keys) is Ok <==> acceptable(offer, keys),
{
    checked_total_is_sound(offer.files, keys);
    totals_are_not_negative(offer.files);
}

fn holds_id(files: &Vec<FileManifestEntry>, id: u64) -> (found: bool)
    ensures
        found == exists|place: int|
            0 <= place < files@.len() && (#[trigger] manifest_models(files@)[place]).file_id == id,
{
    let mut index: usize = 0;
    while index < files.len()
        invariant
            index <= files@.len(),
            forall|place: int|
                0 <= place < index ==> (#[trigger] manifest_models(files@)[place]).file_id != id,
        decreases files@.len() - index,
    {
        if files[index].file_id == id {
            assert(manifest_models(files@)[index as int].file_id == id);
            return true;
        }
        index += 1;
    }
    false
}

fn repeats_earlier(files: &Vec<FileManifestEntry>, keys: &Vec<String>, index: usize) -> (result:
    bool)
    requires
        index < files@.len() == keys@.len(),
    ensures
        result == (repeats_id(manifest_models(files@), index as int) || repeats_key(
            crate::text::texts(keys@),
            index as int,
        )),
{
    let ghost models = manifest_models(files@);
    let ghost texts = crate::text::texts(keys@);
    let mut earlier: usize = 0;
    while earlier < index
        invariant
            earlier <= index < files@.len() == keys@.len(),
            models == manifest_models(files@),
            texts == crate::text::texts(keys@),
            forall|place: int|
                0 <= place < earlier ==> (#[trigger] models[place]).file_id
                    != models[index as int].file_id,
            forall|place: int| 0 <= place < earlier ==> #[trigger] texts[place] != texts[index as int],
        decreases index - earlier,
    {
        proof {
            assert(models[earlier as int] == files@[earlier as int]@);
            assert(models[index as int] == files@[index as int]@);
            assert(texts[earlier as int] == keys@[earlier as int]@);
            assert(texts[index as int] == keys@[index as int]@);
        }
        if files[earlier].file_id == files[index].file_id {
            assert(repeats_id(models, index as int));
            return true;
        }
        if keys[earlier] == keys[index] {
            assert(repeats_key(texts, index as int));
            return true;
        }
        earlier += 1;
    }
    false
}

/// A file repeats the number of one before it in a front part of the list just
/// when it does in the whole.
proof fn front_repeats_alike(files: Seq<ManifestModel>, place: int)
    requires
        0 <= place < files.len(),
    ensures
        repeats_id(files.take(place + 1), place) == repeats_id(files, place),
{
    let front = files.take(place + 1);
    assert forall|other: int| 0 <= other <= place implies #[trigger] front[other]
        == files[other] by {}
    if repeats_id(files, place) {
        let earlier = choose|earlier: int|
            0 <= earlier < place && (#[trigger] files[earlier]).file_id == files[place].file_id;
        assert(front[earlier].file_id == front[place].file_id);
    }
    if repeats_id(front, place) {
        let earlier = choose|earlier: int|
            0 <= earlier < place && (#[trigger] front[earlier]).file_id == front[place].file_id;
        assert(files[earlier].file_id == files[place].file_id);
    }
}

fn check_manifest(files: &Vec<FileManifestEntry>, keys: &Vec<String>) -> (result: Result<
    u64,
    TransferError,
>)
    requires
        keys@.len() == files@.len(),
    ensures
        match result {
            Ok(total) => checked_total(manifest_models(files@), crate::text::texts(keys@)) == Ok::<
                int,
                ErrorModel,
            >(total as int),
            Err(error) => checked_total(manifest_models(files@), crate::text::texts(keys@))
                == Err::<int, ErrorModel>(error@),
        },
{
    let ghost models = manifest_models(files@);
    let ghost texts = crate::text::texts(keys@);
    let mut total: u64 = 0;
    let mut index: usize = 0;
    while index < files.len()
        invariant
            index <= files@.len() == keys@.len(),
            models == manifest_models(files@),
            texts == crate::text::texts(keys@),
            checked_total(models.take(index as int), texts) == Ok::<int, ErrorModel>(total as int),
        decreases files@.len() - index,
    {
        let ghost next = models.take(index + 1);
        proof {
            assert(next.drop_last() =~= models.take(index as int));
            assert(next[index as int] == files@[index as int]@);
        }
        match sanitize_relative_path(files[index].relative_path.as_str()) {
            Ok(_) => {},
            Err(error) => {
                proof {
                    first_failure_decides(models, texts, index + 1);
                }
                return Err(error);
            },
        }
        let repeated = files[index].file_id == 0 || repeats_earlier(files, keys, index);
        proof {
            front_repeats_alike(models, index as int);
        }
        if repeated {
            proof {
                first_failure_decides(models, texts, index + 1);
            }
            return Err(TransferError::invalid("invalid manifest"));
        }
        match total.checked_add(files[index].size) {
            Some(sum) => {
                total = sum;
            },
            None => {
                proof {
                    first_failure_decides(models, texts, index + 1);
                }
                return Err(TransferError::invalid("manifest size overflow"));
            },
        }
        index += 1;
    }
    proof {
        assert(models.take(models.len() as int) =~= models);
    }
    Ok(total)
}

/// What is wrong with a front part of a manifest is what is wrong with it.
proof fn first_failure_decides(files: Seq<ManifestModel>, keys: Seq<Seq<char>>, length: int)
    requires
        0 <= length <= files.len(),
        checked_total(files.take(length), keys) is Err,
    ensures
        checked_total(files, keys) == checked_total(files.take(length), keys),
    decreases files.len(),
{
    if length == files.len() {
        assert(files.take(length) =~= files);
    } else {
        assert(files.drop_last().take(length) =~= files.take(length));
        first_failure_decides(files.drop_last(), keys, length);
    }
}

proof fn preview_total_grows(previews: Seq<PreviewModel>, length: int)
    requires
        0 <= length <= previews.len(),
    ensures
        0 <= preview_total(previews.take(length)) <= preview_total(previews),
    decreases previews.len(),
{
    if length == previews.len() {
        assert(previews.take(length) =~= previews);
        if length > 0 {
            preview_total_grows(previews.drop_last(), length - 1);
        }
    } else {
        assert(previews.drop_last().take(length) =~= previews.take(length));
        preview_total_grows(previews.drop_last(), length);
    }
}

/// The bytes of all previews, unless they are too many to count.
fn count_preview_bytes(previews: &Vec<TransferPreview>) -> (total: Option<usize>)
    ensures
        match total {
            Some(total) => total == preview_total(preview_models(previews@)),
            None => preview_total(preview_models(previews@)) > usize::MAX,
        },
{
    let ghost models = preview_models(previews@);
    let mut total: usize = 0;
    let mut index: usize = 0;
    while index < previews.len()
        invariant
            index <= previews@.len(),
            models == preview_models(previews@),
            total == preview_total(models.take(index as int)),
        decreases previews@.len() - index,
    {
        proof {
            assert(models.take(index + 1).drop_last() =~= models.take(index as int));
            preview_total_grows(models, index + 1);
        }
        match total.checked_add(previews[index].data.len()) {
            Some(sum) => {
                total = sum;
            },
            None => {
                return None;
            },
        }
        index += 1;
    }
    assert(models.take(models.len() as int) =~= models);
    Some(total)
}

fn is_bad_preview(offer: &TransferOffer, place: usize) -> (bad: bool)
    requires
        place < offer.previews@.len(),
    ensures
        bad == bad_preview(offer@, place as int),
{
    let ghost model = offer@;
    assert(model.previews[place as int] == offer.previews@[place as int]@);
    if offer.previews[place].data.len() > MAX_PREVIEW_BYTES || !begins_with(
        offer.previews[place].media_type.as_str(),
        "image/",
    ) {
        return true;
    }
    let mut earlier: usize = 0;
    while earlier < place
        invariant
            earlier <= place < offer.previews@.len(),
            model == offer@,
            forall|other: int|
                0 <= other < earlier ==> (#[trigger] model.previews[other]).file_id
                    != model.previews[place as int].file_id,
        decreases place - earlier,
    {
        assert(model.previews[earlier as int] == offer.previews@[earlier as int]@);
        if offer.previews[earlier].file_id == offer.previews[place].file_id {
            return true;
        }
        earlier += 1;
    }
    assert(model.previews[place as int] == offer.previews@[place as int]@);
    assert(model.files == manifest_models(offer.files@));
    !holds_id(&offer.files, offer.previews[place].file_id)
}

/// Whether an offer may be taken, given the keys of its files' paths.
pub fn validate_offer_with_keys(offer: &TransferOffer, keys: &Vec<String>) -> (result: Result<
    (),
    TransferError,
>)
    requires
        keys@.len() == offer.files@.len(),
    ensures
        crate::error::outcome(result) == examined(offer@, crate::text::texts(keys@)),
{
    if offer.request_id == 0 || offer.transfer_id == 0 {
        return Err(TransferError::invalid("offer is missing required fields"));
    }
    if offer.files.len() == 0 || offer.files.len() > MAX_FILE_COUNT || offer.total_bytes
        > MAX_TOTAL_BYTES {
        return Err(TransferError::invalid("offer has an invalid file count or size"));
    }
    if offer.created_at_ms <= 0 {
        return Err(TransferError::invalid("offer has an invalid timestamp"));
    }
    let total = match check_manifest(&offer.files, keys) {
        Ok(total) => total,
        Err(error) => {
            return Err(error);
        },
    };
    if total != offer.total_bytes {
        return Err(TransferError::invalid("manifest total size does not match"));
    }
    let preview_bytes = match count_preview_bytes(&offer.previews) {
        Some(total) => total,
        None => {
            return Err(TransferError::invalid("total file preview size overflow"));
        },
    };
    if preview_bytes > MAX_TOTAL_PREVIEW_BYTES {
        return Err(TransferError::invalid("invalid file preview"));
    }
    let mut place: usize = 0;
    while place < offer.previews.len()
        invariant
            place <= offer.previews@.len(),
            forall|earlier: int| 0 <= earlier < place ==> !#[trigger] bad_preview(offer@, earlier),
            examined(offer@, crate::text::texts(keys@)) == (if exists|place: int|
                0 <= place < offer@.previews.len() && #[trigger] bad_preview(offer@, place) {
                Err::<(), ErrorModel>(ErrorModel::Invalid("invalid file preview"@))
            } else {
                Ok(())
            }),
        decreases offer.previews@.len() - place,
    {
        if is_bad_preview(offer, place) {
            assert(bad_preview(offer@, place as int));
            return Err(TransferError::invalid("invalid file preview"));
        }
        place += 1;
    }
    Ok(())
}

/// Whether an offer may be taken, and if not, why.
pub fn validate_offer(offer: &TransferOffer) -> (result: Result<(), TransferError>)
    ensures
        crate::error::outcome(result) == examined(offer@, path_keys(offer@.files)),
{
    let mut keys: Vec<String> = Vec::new();
    let mut index: usize = 0;
    while index < offer.files.len()
        invariant
            index <= offer.files@.len(),
            keys@.len() == index,
            forall|place: int|
                0 <= place < index ==> (#[trigger] keys@[place])@ == path_keys(offer@.files)[place],
        decreases offer.files@.len() - index,
    {
        proof {
            assert(offer@.files[index as int] == offer.files@[index as int]@);
        }
        let key = portable_path_key(offer.files[index].relative_path.as_str());
        assert(key@ == path_keys(offer@.files)[index as int]);
        keys.push(key);
        index += 1;
    }
    assert(crate::text::texts(keys@) =~= path_keys(offer@.files));
    validate_offer_with_keys(offer, &keys)
}

/// Each file counts once in the size of a manifest, and each preview in that of
/// all previews.
pub proof fn sizes_add_up(
    files: Seq<ManifestModel>,
    file: ManifestModel,
    previews: Seq<PreviewModel>,
    preview: PreviewModel,
)
    ensures
        manifest_total(Seq::empty()) == 0,
        manifest_total(files.push(file)) - manifest_total(files) == file.size,
        preview_total(Seq::empty()) == 0,
        preview_total(previews.push(preview)) - preview_total(previews) == preview.data.len(),
{
    assert(files.push(file).drop_last() =~= files);
    assert(previews.push(preview).drop_last() =~= previews);
}

/// Which offers pass: those with a request, a number and a time, of one to 256
/// files of together at most 16 TiB, the total that they state, where every file
/// has a number of its own and a safe path that no file system takes for that of
/// another. Their previews are images of at most 64 KiB, at most one for each of
/// the files and none for another, and together at most 256 KiB.
pub proof fn an_offer_passes_unless_something_is_wrong(offer: OfferModel)
    ensures
        examined(offer, path_keys(offer.files)) is Ok <==> {
            &&& offer.request_id != 0
            &&& offer.transfer_id != 0
            &&& 1 <= offer.files.len() <= 256
            &&& offer.created_at_ms > 0
            &&& offer.total_bytes == manifest_total(offer.files)
            &&& offer.total_bytes <= 17_592_186_044_416
            &&& forall|place: int|
                0 <= place < offer.files.len() ==> super::filesystem::safe_path(
                    (#[trigger] offer.files[place]).relative_path,
                ) && offer.files[place].file_id != 0
            &&& forall|left: int, right: int|
                0 <= left < right < offer.files.len() ==> {
                    &&& (#[trigger] offer.files[left]).file_id != (
                    #[trigger] offer.files[right]).file_id
                    &&& super::filesystem::path_key(offer.files[left].relative_path)
                        != super::filesystem::path_key(offer.files[right].relative_path)
                }
            &&& preview_total(offer.previews) <= 262144
            &&& forall|place: int|
                0 <= place < offer.previews.len() ==> {
                    &&& (#[trigger] offer.previews[place]).data.len() <= 65536
                    &&& "image/"@.is_prefix_of(offer.previews[place].media_type)
                    &&& offer.files.map_values(|file: ManifestModel| file.file_id).contains(
                        offer.previews[place].file_id,
                    )
                }
            &&& forall|left: int, right: int|
                0 <= left < right < offer.previews.len() ==> (
                #[trigger] offer.previews[left]).file_id != (
                #[trigger] offer.previews[right]).file_id
        },
        examined(offer, path_keys(offer.files)) matches Err(error) ==> error is Invalid,
{
    let keys = path_keys(offer.files);
    let numbers = offer.files.map_values(|file: ManifestModel| file.file_id);
    exactly_good_offers_pass(offer, keys);
    refusals_are_invalid(offer.files, keys);
    assert forall|place: int| 0 <= place < offer.files.len() implies keys[place]
        == super::filesystem::path_key((#[trigger] offer.files[place]).relative_path) by {}
    assert forall|id: u64| #[trigger] numbers.contains(id) <==> exists|file: int|
        0 <= file < offer.files.len() && (#[trigger] offer.files[file]).file_id == id by {
        if numbers.contains(id) {
            let file = choose|file: int| 0 <= file < numbers.len() && numbers[file] == id;
            assert(offer.files[file].file_id == id);
        }
        if exists|file: int|
            0 <= file < offer.files.len() && (#[trigger] offer.files[file]).file_id == id {
            let file = choose|file: int|
                0 <= file < offer.files.len() && (#[trigger] offer.files[file]).file_id == id;
            assert(numbers[file] == id);
        }
    }
    if acceptable(offer, keys) {
        assert forall|left: int, right: int| 0 <= left < right < offer.files.len() implies {
            &&& (#[trigger] offer.files[left]).file_id != (#[trigger] offer.files[right]).file_id
            &&& super::filesystem::path_key(offer.files[left].relative_path)
                != super::filesystem::path_key(offer.files[right].relative_path)
        } by {
            assert(keys[left] != keys[right]);
        }
        assert forall|place: int| 0 <= place < offer.previews.len() implies {
            &&& (#[trigger] offer.previews[place]).data.len() <= 65536
            &&& "image/"@.is_prefix_of(offer.previews[place].media_type)
            &&& numbers.contains(offer.previews[place].file_id)
        } by {
            assert(!bad_preview(offer, place));
        }
        assert forall|left: int, right: int| 0 <= left < right < offer.previews.len() implies (
        #[trigger] offer.previews[left]).file_id != (#[trigger] offer.previews[right]).file_id by {
            assert(!bad_preview(offer, right));
        }
    }
}

proof fn refusals_are_invalid(files: Seq<ManifestModel>, keys: Seq<Seq<char>>)
    ensures
        checked_total(files, keys) matches Err(error) ==> error is Invalid,
    decreases files.len(),
{
    if files.len() > 0 {
        refusals_are_invalid(files.drop_last(), keys);
    }
}

} // verus!

//! What a sender makes ready before it asks: the manifest of each file, which
//! files get a preview, and the offer.

use super::filesystem::{
    file_kind, media_type, path_file_name, MAX_PREVIEW_BYTES, MAX_TOTAL_PREVIEW_BYTES,
};
use super::identifiers::random_nonzero_u64;
use super::offer::{
    acceptable, bad_preview, manifest_models, manifest_total, preview_models, preview_total,
    FileManifestEntry, ManifestModel, OfferModel, PreviewModel, TransferOffer, TransferPreview,
};
use crate::domain::FileKind;
use crate::error::{ErrorModel, TransferError};
use crate::order::sort_stably;
use crate::text::{decimal_text, joined};
use vstd::prelude::*;
use vstd::string::*;

verus! {

/// A file that is ready to be sent.
#[derive(Debug, PartialEq, Eq)]
pub struct PreparedFile {
    pub manifest: FileManifestEntry,
    pub preview: Option<TransferPreview>,
}

/// The mathematical value of a [`PreparedFile`].
pub struct PreparedModel {
    pub manifest: ManifestModel,
    pub preview: Option<PreviewModel>,
}

impl View for PreparedFile {
    type V = PreparedModel;

    open spec fn view(&self) -> PreparedModel {
        PreparedModel {
            manifest: self.manifest@,
            preview: match self.preview {
                Some(preview) => Some(preview@),
                None => None,
            },
        }
    }
}

/// The values of a list of prepared files.
pub open spec fn prepared_models(files: Seq<PreparedFile>) -> Seq<PreparedModel> {
    files.map_values(|file: PreparedFile| file@)
}

/// The manifests of prepared files.
pub open spec fn manifests(prepared: Seq<PreparedModel>) -> Seq<ManifestModel> {
    prepared.map_values(|file: PreparedModel| file.manifest)
}

/// The name under which prepared files are offered.
pub open spec fn offer_name(prepared: Seq<PreparedModel>) -> Seq<char> {
    if prepared.len() == 1 {
        prepared[0].manifest.relative_path
    } else {
        crate::text::decimal(prepared.len()) + " files"@
    }
}

/// An offer of prepared files with the previews given.
pub open spec fn offered(
    request_id: u64,
    transfer_id: u64,
    created_at_ms: i64,
    prepared: Seq<PreparedModel>,
    previews: Seq<PreviewModel>,
) -> OfferModel {
    OfferModel {
        request_id,
        transfer_id,
        display_name: offer_name(prepared),
        files: manifests(prepared),
        total_bytes: manifest_total(manifests(prepared)) as u64,
        created_at_ms,
        previews,
    }
}

/// The previews that go into an offer, one file after the other: each that
/// keeps the previews within their budget and the frame within its limit.
pub open spec fn chosen_previews(
    bare: OfferModel,
    prepared: Seq<PreparedModel>,
    length: spec_fn(OfferModel) -> usize,
    limit: usize,
) -> Seq<PreviewModel>
    decreases prepared.len(),
{
    if prepared.len() == 0 {
        Seq::empty()
    } else {
        let before = chosen_previews(bare, prepared.drop_last(), length, limit);
        match prepared.last().preview {
            None => before,
            Some(preview) => if preview_total(before) + preview.data.len() > MAX_TOTAL_PREVIEW_BYTES
                || length(OfferModel { previews: before.push(preview), ..bare }) > limit {
                before
            } else {
                before.push(preview)
            },
        }
    }
}

/// Whether `measure` gives the frame length of an offer by `length`.
pub open spec fn measures_as<F: Fn(&TransferOffer) -> usize>(
    measure: F,
    length: spec_fn(OfferModel) -> usize,
) -> bool {
    forall|offer: TransferOffer, size: usize| #[trigger]
        measure.ensures((&offer,), size) ==> size == length(offer@)
}

/// The offer of prepared files, or that it fits no frame.
pub open spec fn built_offer(
    request_id: u64,
    transfer_id: u64,
    created_at_ms: i64,
    prepared: Seq<PreparedModel>,
    length: spec_fn(OfferModel) -> usize,
    limit: usize,
) -> Result<OfferModel, ErrorModel> {
    let bare = offered(request_id, transfer_id, created_at_ms, prepared, Seq::empty());
    let offer = OfferModel { previews: chosen_previews(bare, prepared, length, limit), ..bare };
    if length(offer) > limit {
        Err(
            ErrorModel::Invalid(
                "file manifest exceeds the control-frame limit; shorten file names or reduce the file count"@,
            ),
        )
    } else {
        Ok(offer)
    }
}

/// What came of making an offer.
pub open spec fn offer_outcome(result: Result<TransferOffer, TransferError>) -> Result<
    OfferModel,
    ErrorModel,
> {
    match result {
        Ok(offer) => Ok(offer@),
        Err(error) => Err(error@),
    }
}

/// Whether an outcome is the offer of prepared files under a request number,
/// whatever length `measure` gives to a frame.
pub open spec fn offered_under<F: Fn(&TransferOffer) -> usize>(
    outcome: Result<OfferModel, ErrorModel>,
    request_id: u64,
    transfer_id: u64,
    created_at_ms: i64,
    prepared: Seq<PreparedModel>,
    measure: F,
    limit: usize,
) -> bool {
    forall|length: spec_fn(OfferModel) -> usize| #[trigger]
        measures_as(measure, length) ==> outcome == built_offer(
            request_id,
            transfer_id,
            created_at_ms,
            prepared,
            length,
            limit,
        )
}

proof fn totals_grow(files: Seq<ManifestModel>, length: int)
    requires
        0 <= length <= files.len(),
    ensures
        0 <= manifest_total(files.take(length)) <= manifest_total(files),
    decreases files.len(),
{
    if length == files.len() {
        assert(files.take(length) =~= files);
        if length > 0 {
            totals_grow(files.drop_last(), length - 1);
        }
    } else {
        assert(files.drop_last().take(length) =~= files.take(length));
        totals_grow(files.drop_last(), length);
    }
}

fn bare_offer(
    request_id: u64,
    transfer_id: u64,
    created_at_ms: i64,
    prepared: &Vec<PreparedFile>,
) -> (offer: TransferOffer)
    requires
        manifest_total(manifests(prepared_models(prepared@))) <= u64::MAX,
    ensures
        offer@ == offered(
            request_id,
            transfer_id,
            created_at_ms,
            prepared_models(prepared@),
            Seq::empty(),
        ),
{
    let ghost models = prepared_models(prepared@);
    let ghost listed = manifests(models);
    let mut files: Vec<FileManifestEntry> = Vec::new();
    let mut total: u64 = 0;
    let mut index: usize = 0;
    assert(listed.take(0) =~= Seq::empty());
    while index < prepared.len()
        invariant
            index <= prepared@.len(),
            models == prepared_models(prepared@),
            listed == manifests(models),
            manifest_total(listed) <= u64::MAX,
            files@.len() == index,
            forall|place: int| 0 <= place < index ==> (#[trigger] files@[place])@ == listed[place],
            total == manifest_total(listed.take(index as int)),
        decreases prepared@.len() - index,
    {
        proof {
            assert(listed.take(index + 1).drop_last() =~= listed.take(index as int));
            assert(listed[index as int] == prepared@[index as int].manifest@);
            totals_grow(listed, index + 1);
        }
        files.push(prepared[index].manifest.clone());
        total = total + prepared[index].manifest.size;
        index += 1;
    }
    proof {
        assert(listed.take(listed.len() as int) =~= listed);
        assert(manifest_models(files@) =~= listed);
    }
    let display_name = if prepared.len() == 1 {
        prepared[0].manifest.relative_path.clone()
    } else {
        decimal_text(prepared.len() as u64).concat(" files")
    };
    let previews: Vec<TransferPreview> = Vec::new();
    assert(preview_models(previews@) =~= Seq::empty());
    TransferOffer {
        request_id,
        transfer_id,
        display_name,
        files,
        total_bytes: total,
        created_at_ms,
        previews,
    }
}

/// The offer of prepared files under a request number and a time. A preview is
/// left out where it would break the budget of all previews, or the frame's
/// limit. `measure` gives the length of the frame that carries an offer.
pub fn build_offer_as<F: Fn(&TransferOffer) -> usize>(
    request_id: u64,
    wire_id: u64,
    created_at_ms: i64,
    prepared: &Vec<PreparedFile>,
    measure: F,
    limit: usize,
) -> (result: Result<TransferOffer, TransferError>)
    requires
        manifest_total(manifests(prepared_models(prepared@))) <= u64::MAX,
        forall|offer: TransferOffer| #[trigger] measure.requires((&offer,)),
    ensures
        offered_under(
            offer_outcome(result),
            request_id,
            wire_id,
            created_at_ms,
            prepared_models(prepared@),
            measure,
            limit,
        ),
        result matches Ok(offer) ==> exists|size: usize| #[trigger]
            measure.ensures((&offer,), size) && size <= limit,
{
    let ghost models = prepared_models(prepared@);
    let mut offer = bare_offer(request_id, wire_id, created_at_ms, prepared);
    let ghost bare = offer@;
    let mut preview_bytes: usize = 0;
    let mut index: usize = 0;
    proof {
        assert(models.take(0) =~= Seq::empty());
    }
    while index < prepared.len()
        invariant
            index <= prepared@.len(),
            models == prepared_models(prepared@),
            forall|offer: TransferOffer| #[trigger] measure.requires((&offer,)),
            offer@ == (OfferModel { previews: preview_models(offer.previews@), ..bare }),
            preview_bytes == preview_total(preview_models(offer.previews@)),
            preview_bytes <= MAX_TOTAL_PREVIEW_BYTES,
            forall|length: spec_fn(OfferModel) -> usize| #[trigger]
                measures_as(measure, length) ==> preview_models(offer.previews@)
                    == chosen_previews(bare, models.take(index as int), length, limit),
        decreases prepared@.len() - index,
    {
        let ghost before = preview_models(offer.previews@);
        let ghost next = models.take(index + 1);
        proof {
            assert(next.drop_last() =~= models.take(index as int));
            assert(next.last() == prepared@[index as int]@);
        }
        match &prepared[index].preview {
            None => {},
            Some(preview) => {
                let size = preview.data.len();
                if size <= MAX_TOTAL_PREVIEW_BYTES - preview_bytes {
                    let ghost held = offer.previews@;
                    offer.previews.push(preview.clone());
                    proof {
                        assert(preview_models(offer.previews@) =~= before.push(preview@));
                        assert(before.push(preview@).drop_last() =~= before);
                    }
                    let measured = measure(&offer);
                    if measured > limit {
                        let _ = offer.previews.pop();
                        assert(offer.previews@ =~= held);
                    } else {
                        preview_bytes = preview_bytes + size;
                    }
                }
            },
        }
        index += 1;
    }
    proof {
        assert(models.take(models.len() as int) =~= models);
    }
    let measured = measure(&offer);
    if measured > limit {
        return Err(
            TransferError::invalid(
                "file manifest exceeds the control-frame limit; shorten file names or reduce the file count",
            ),
        );
    }
    Ok(offer)
}

/// The offer of prepared files under a new request number.
pub fn build_offer<F: Fn(&TransferOffer) -> usize>(
    wire_id: u64,
    created_at_ms: i64,
    prepared: &Vec<PreparedFile>,
    measure: F,
    limit: usize,
) -> (result: Result<TransferOffer, TransferError>)
    requires
        manifest_total(manifests(prepared_models(prepared@))) <= u64::MAX,
        forall|offer: TransferOffer| #[trigger] measure.requires((&offer,)),
    ensures
        exists|request_id: u64|
            request_id != 0 && #[trigger] offered_under(
                offer_outcome(result),
                request_id,
                wire_id,
                created_at_ms,
                prepared_models(prepared@),
                measure,
                limit,
            ),
        result matches Ok(offer) ==> exists|size: usize| #[trigger]
            measure.ensures((&offer,), size) && size <= limit,
{
    let request_id = random_nonzero_u64();
    build_offer_as(request_id, wire_id, created_at_ms, prepared, measure, limit)
}

/// How many files of one transfer get a preview at most.
pub const MAX_PREVIEW_COUNT: usize = MAX_TOTAL_PREVIEW_BYTES / MAX_PREVIEW_BYTES;

/// Whether a path is that of an image.
pub open spec fn image_path(path: Seq<char>) -> bool {
    super::filesystem::kind_of_extension(super::filesystem::path_extension(path)) == FileKind::Image
}

/// How many of the paths are those of images.
pub open spec fn image_count(paths: Seq<Seq<char>>) -> nat
    decreases paths.len(),
{
    if paths.len() == 0 {
        0
    } else {
        image_count(paths.drop_last()) + (if image_path(paths.last()) {
            1nat
        } else {
            0nat
        })
    }
}

/// Which files get a preview: the first images, as many as fit the budget at
/// their full size.
pub fn plan_previews(paths: &Vec<String>) -> (plan: Vec<bool>)
    ensures
        plan@.len() == paths@.len(),
        forall|place: int|
            0 <= place < paths@.len() ==> #[trigger] plan@[place] == (image_path(paths@[place]@)
                && image_count(crate::text::texts(paths@).take(place)) < MAX_PREVIEW_COUNT),
{
    let ghost listed = crate::text::texts(paths@);
    let mut plan: Vec<bool> = Vec::new();
    let mut previews_left: usize = MAX_PREVIEW_COUNT;
    let mut index: usize = 0;
    assert(listed.take(0) =~= Seq::empty());
    while index < paths.len()
        invariant
            index <= paths@.len(),
            listed == crate::text::texts(paths@),
            plan@.len() == index,
            previews_left <= MAX_PREVIEW_COUNT,
            previews_left == (if image_count(listed.take(index as int)) < MAX_PREVIEW_COUNT {
                MAX_PREVIEW_COUNT - image_count(listed.take(index as int))
            } else {
                0
            }),
            forall|place: int|
                0 <= place < index ==> #[trigger] plan@[place] == (image_path(paths@[place]@)
                    && image_count(listed.take(place)) < MAX_PREVIEW_COUNT),
        decreases paths@.len() - index,
    {
        proof {
            assert(listed.take(index + 1).drop_last() =~= listed.take(index as int));
            assert(listed.take(index + 1).last() == paths@[index as int]@);
        }
        let preview = match file_kind(paths[index].as_str()) {
            FileKind::Image => previews_left > 0,
            _ => false,
        };
        if preview {
            previews_left -= 1;
        }
        plan.push(preview);
        index += 1;
    }
    plan
}

/// How many entries of a plan are set.
pub open spec fn planned_count(plan: Seq<bool>) -> nat
    decreases plan.len(),
{
    if plan.len() == 0 {
        0
    } else {
        planned_count(plan.drop_last()) + (if plan.last() {
            1nat
        } else {
            0nat
        })
    }
}

/// The previews that are planned fit the budget of all previews, each being at
/// most as large as one may be.
pub proof fn planned_previews_fit_the_budget(paths: Seq<Seq<char>>, plan: Seq<bool>)
    requires
        plan.len() == paths.len(),
        forall|place: int|
            0 <= place < paths.len() ==> #[trigger] plan[place] == (image_path(paths[place])
                && image_count(paths.take(place)) < MAX_PREVIEW_COUNT),
    ensures
        planned_count(plan) * MAX_PREVIEW_BYTES <= MAX_TOTAL_PREVIEW_BYTES,
        planned_count(plan) == (if image_count(paths) < MAX_PREVIEW_COUNT {
            image_count(paths)
        } else {
            MAX_PREVIEW_COUNT as nat
        }),
    decreases paths.len(),
{
    if paths.len() > 0 {
        let front = paths.drop_last();
        let planned = plan.drop_last();
        assert forall|place: int| 0 <= place < front.len() implies #[trigger] planned[place] == (
        image_path(front[place]) && image_count(front.take(place)) < MAX_PREVIEW_COUNT) by {
            assert(planned[place] == plan[place]);
            assert(front.take(place) =~= paths.take(place));
        }
        planned_previews_fit_the_budget(front, planned);
        let last = paths.len() - 1;
        assert(plan[last] == plan.last());
        assert(paths.take(last) =~= front);
    }
    let count = planned_count(plan);
    assert(MAX_PREVIEW_COUNT == 4) by (nonlinear_arith);
    assert(count * 65_536 <= 262_144) by (nonlinear_arith)
        requires
            count <= 4,
    ;
}

/// A number of milliseconds as a time stamp, at most the latest there is.
pub fn timestamp(millis: u128) -> (stamp: i64)
    ensures
        stamp == (if millis <= i64::MAX {
            millis as int
        } else {
            i64::MAX as int
        }),
{
    if millis <= i64::MAX as u128 {
        millis as i64
    } else {
        i64::MAX
    }
}

/// The time stamp that a file gets: that of its last change, or zero where
/// none is known.
pub open spec fn modified_stamp(millis: Option<u128>) -> int {
    match millis {
        Some(millis) => if millis <= i64::MAX {
            millis as int
        } else {
            i64::MAX as int
        },
        None => 0,
    }
}

/// A file made ready, or why it is not.
pub open spec fn prepared_file(
    index: int,
    path: Seq<char>,
    regular: bool,
    size: u64,
    modified: Option<u128>,
    preview: Option<(Seq<char>, Seq<u8>)>,
) -> Result<PreparedModel, ErrorModel> {
    if !regular {
        Err(ErrorModel::Invalid("source is not a regular file"@))
    } else {
        match super::filesystem::file_name_of(path) {
            None => Err(ErrorModel::Invalid("invalid file name: "@ + path)),
            Some(name) => Ok(
                PreparedModel {
                    manifest: ManifestModel {
                        file_id: (index + 1) as u64,
                        relative_path: name,
                        size,
                        media_type: super::filesystem::media_type_of_extension(
                            super::filesystem::path_extension(path),
                        ),
                        modified_at_ms: modified_stamp(modified) as i64,
                    },
                    preview: match preview {
                        Some((media_type, data)) => Some(
                            PreviewModel { file_id: (index + 1) as u64, media_type, data },
                        ),
                        None => None,
                    },
                },
            ),
        }
    }
}

/// The media type and the bytes of a preview that may not be there.
pub open spec fn preview_parts(preview: Option<(String, Vec<u8>)>) -> Option<
    (Seq<char>, Seq<u8>),
> {
    match preview {
        Some((media_type, data)) => Some((media_type@, data@)),
        None => None,
    }
}

/// The name of the file that a path leads to.
pub fn file_name(path: &str) -> (result: Result<String, TransferError>)
    ensures
        match result {
            Ok(name) => super::filesystem::file_name_of(path@) == Some(name@),
            Err(error) => super::filesystem::file_name_of(path@) is None && error@
                == ErrorModel::Invalid("invalid file name: "@ + path@),
        },
{
    match path_file_name(path) {
        Some(name) => Ok(name),
        None => Err(TransferError::Invalid(joined("invalid file name: ", path))),
    }
}

/// Makes the file at a path ready: `regular`, `size` and `modified` (in
/// milliseconds) are what was found there, `preview` is its picture.
pub fn prepare_file(
    index: usize,
    path: &str,
    regular: bool,
    size: u64,
    modified: Option<u128>,
    preview: Option<(String, Vec<u8>)>,
) -> (result: Result<PreparedFile, TransferError>)
    requires
        index < u64::MAX,
    ensures
        (match result {
            Ok(file) => Ok::<PreparedModel, ErrorModel>(file@),
            Err(error) => Err(error@),
        }) == prepared_file(
            index as int,
            path@,
            regular,
            size,
            modified,
            preview_parts(preview),
        ),
{
    if !regular {
        return Err(TransferError::invalid("source is not a regular file"));
    }
    let file_id = index as u64 + 1;
    let preview = match preview {
        Some((media_type, data)) => Some(TransferPreview { file_id, media_type, data }),
        None => None,
    };
    let relative_path = match file_name(path) {
        Ok(name) => name,
        Err(error) => {
            return Err(error);
        },
    };
    let modified_at_ms = match modified {
        Some(millis) => timestamp(millis),
        None => 0,
    };
    Ok(
        PreparedFile {
            manifest: FileManifestEntry {
                file_id,
                relative_path,
                size,
                media_type: media_type(path).to_owned(),
                modified_at_ms,
            },
            preview,
        },
    )
}

/// Whether one prepared file has the smaller number.
pub open spec fn numbered_before(one: PreparedModel, other: PreparedModel) -> bool {
    one.manifest.file_id < other.manifest.file_id
}

/// Puts prepared files in the order of their numbers, whatever the order in
/// which they became ready.
pub fn sort_prepared(files: &mut Vec<PreparedFile>)
    ensures
        prepared_models(final(files)@) == crate::order::stably_sorted(
            prepared_models(old(files)@),
            |one: PreparedModel, other: PreparedModel| numbered_before(one, other),
        ),
{
    let ghost given = files@;
    let smaller = |one: &PreparedFile, other: &PreparedFile| -> (result: bool)
        ensures
            result == numbered_before(one@, other@),
        { one.manifest.file_id < other.manifest.file_id };
    sort_stably(files, smaller);
    proof {
        let before = |one: PreparedFile, other: PreparedFile| numbered_before(one@, other@);
        assert(crate::order::decides(smaller, before));
        crate::order::sorting_commutes_with_values(
            given,
            before,
            |file: PreparedFile| file@,
            |one: PreparedModel, other: PreparedModel| numbered_before(one, other),
        );
    }
}

proof fn rising_numbers_are_consecutive(numbers: Seq<int>, place: int)
    requires
        0 <= place < numbers.len(),
        forall|left: int, right: int|
            0 <= left < right < numbers.len() ==> #[trigger] numbers[left]
                < #[trigger] numbers[right],
        forall|other: int|
            0 <= other < numbers.len() ==> 1 <= #[trigger] numbers[other] <= numbers.len(),
    ensures
        numbers[place] == place + 1,
{
    numbers_rise_from_one(numbers, place);
    numbers_rise_to_the_last(numbers, place);
}

proof fn numbers_rise_from_one(numbers: Seq<int>, place: int)
    requires
        0 <= place < numbers.len(),
        forall|left: int, right: int|
            0 <= left < right < numbers.len() ==> #[trigger] numbers[left]
                < #[trigger] numbers[right],
        forall|other: int| 0 <= other < numbers.len() ==> 1 <= #[trigger] numbers[other],
    ensures
        numbers[place] >= place + 1,
    decreases place,
{
    if place > 0 {
        numbers_rise_from_one(numbers, place - 1);
        assert(numbers[place - 1] < numbers[place]);
    }
}

proof fn numbers_rise_to_the_last(numbers: Seq<int>, place: int)
    requires
        0 <= place < numbers.len(),
        forall|left: int, right: int|
            0 <= left < right < numbers.len() ==> #[trigger] numbers[left]
                < #[trigger] numbers[right],
        forall|other: int|
            0 <= other < numbers.len() ==> #[trigger] numbers[other] <= numbers.len(),
    ensures
        numbers[place] <= place + 1,
    decreases numbers.len() - place,
{
    if place + 1 < numbers.len() {
        numbers_rise_to_the_last(numbers, place + 1);
        assert(numbers[place] < numbers[place + 1]);
    }
}

/// Files with the numbers from one to their count, in whatever order they
/// became ready, are put in the sequence of their numbers; none is lost and
/// none is added.
pub proof fn numbered_files_come_in_sequence(files: Seq<PreparedModel>)
    requires
        forall|place: int|
            0 <= place < files.len() ==> 1 <= (#[trigger] files[place]).manifest.file_id
                <= files.len(),
        forall|left: int, right: int|
            0 <= left < right < files.len() ==> (#[trigger] files[left]).manifest.file_id != (
            #[trigger] files[right]).manifest.file_id,
    ensures
        ({
            let sorted = crate::order::stably_sorted(
                files,
                |one: PreparedModel, other: PreparedModel| numbered_before(one, other),
            );
            &&& sorted.to_multiset() == files.to_multiset()
            &&& sorted.len() == files.len()
            &&& forall|place: int|
                0 <= place < sorted.len() ==> (#[trigger] sorted[place]).manifest.file_id == place
                    + 1
        }),
{
    broadcast use vstd::seq_lib::group_to_multiset_ensures;

    let before = |one: PreparedModel, other: PreparedModel| numbered_before(one, other);
    let sorted = crate::order::stably_sorted(files, before);
    crate::order::sorting_is_stable(files, before);
    assert forall|left: int, right: int|
        0 <= left < files.len() && 0 <= right < files.len() && left != right implies files[left]
        != files[right] by {
        if left < right {
            assert(files[left].manifest.file_id != files[right].manifest.file_id);
        } else {
            assert(files[right].manifest.file_id != files[left].manifest.file_id);
        }
    }
    files.lemma_multiset_has_no_duplicates();
    sorted.lemma_multiset_has_no_duplicates_conv();
    assert forall|place: int| 0 <= place < sorted.len() implies files.contains(
        #[trigger] sorted[place],
    ) by {
        assert(sorted.to_multiset().contains(sorted[place]));
        assert(files.to_multiset().contains(sorted[place]));
    }
    let numbers = sorted.map_values(|file: PreparedModel| file.manifest.file_id as int);
    assert forall|left: int, right: int| 0 <= left < right < numbers.len() implies #[trigger] numbers[left]
        < #[trigger] numbers[right] by {
        assert(!before(sorted[right], sorted[left]));
        assert(files.contains(sorted[left]) && files.contains(sorted[right]));
        let one = choose|one: int| 0 <= one < files.len() && files[one] == sorted[left];
        let other = choose|other: int| 0 <= other < files.len() && files[other] == sorted[right];
        assert(sorted[left] != sorted[right]);
        if one < other {
            assert(files[one].manifest.file_id != files[other].manifest.file_id);
        } else {
            assert(files[other].manifest.file_id != files[one].manifest.file_id);
        }
    }
    assert forall|other: int| 0 <= other < numbers.len() implies 1 <= #[trigger] numbers[other]
        <= numbers.len() by {
        assert(files.contains(sorted[other]));
        let one = choose|one: int| 0 <= one < files.len() && files[one] == sorted[other];
        assert(1 <= files[one].manifest.file_id <= files.len());
    }
    assert forall|place: int| 0 <= place < sorted.len() implies (
    #[trigger] sorted[place]).manifest.file_id == place + 1 by {
        rising_numbers_are_consecutive(numbers, place);
    }
}

proof fn chosen_previews_are_bounded(
    bare: OfferModel,
    prepared: Seq<PreparedModel>,
    length: spec_fn(OfferModel) -> usize,
    limit: usize,
)
    ensures
        0 <= preview_total(chosen_previews(bare, prepared, length, limit))
            <= MAX_TOTAL_PREVIEW_BYTES,
        forall|place: int|
            0 <= place < chosen_previews(bare, prepared, length, limit).len() ==> exists|file: int|
                0 <= file < prepared.len() && (#[trigger] prepared[file]).preview
                    == Some(#[trigger] chosen_previews(bare, prepared, length, limit)[place]),
    decreases prepared.len(),
{
    let all = chosen_previews(bare, prepared, length, limit);
    if prepared.len() > 0 {
        let front = prepared.drop_last();
        let before = chosen_previews(bare, front, length, limit);
        chosen_previews_are_bounded(bare, front, length, limit);
        if let Some(preview) = prepared.last().preview {
            assert(before.push(preview).drop_last() =~= before);
        }
        assert forall|place: int| 0 <= place < all.len() implies exists|file: int|
            0 <= file < prepared.len() && (#[trigger] prepared[file]).preview
                == Some(#[trigger] all[place]) by {
            if place < before.len() {
                assert(all[place] == before[place]);
                let file = choose|file: int|
                    0 <= file < front.len() && (#[trigger] front[file]).preview
                        == Some(before[place]);
                assert(prepared[file] == front[file]);
            } else {
                assert(prepared[prepared.len() - 1] == prepared.last());
            }
        }
    }
}

/// The previews of an offer never outgrow their budget, and the frame that
/// carries the offer never outgrows its limit.
pub proof fn built_offer_is_bounded(
    request_id: u64,
    transfer_id: u64,
    created_at_ms: i64,
    prepared: Seq<PreparedModel>,
    length: spec_fn(OfferModel) -> usize,
    limit: usize,
)
    ensures
        built_offer(request_id, transfer_id, created_at_ms, prepared, length, limit) matches Ok(
            offer,
        ) ==> preview_total(offer.previews) <= MAX_TOTAL_PREVIEW_BYTES && length(offer) <= limit,
{
    let bare = offered(request_id, transfer_id, created_at_ms, prepared, Seq::empty());
    chosen_previews_are_bounded(bare, prepared, length, limit);
}

/// What a sender vouches for in the files that it has made ready.
pub open spec fn ready_to_offer(prepared: Seq<PreparedModel>) -> bool {
    &&& 0 < prepared.len() <= super::filesystem::MAX_FILE_COUNT
    &&& manifest_total(manifests(prepared)) <= super::offer::MAX_TOTAL_BYTES
    &&& forall|file: int|
        0 <= file < prepared.len() ==> super::filesystem::safe_path(
            (#[trigger] prepared[file]).manifest.relative_path,
        ) && prepared[file].manifest.file_id != 0
    &&& forall|left: int, right: int|
        0 <= left < right < prepared.len() ==> (#[trigger] prepared[left]).manifest.file_id != (
        #[trigger] prepared[right]).manifest.file_id
    &&& forall|left: int, right: int|
        0 <= left < right < prepared.len() ==> super::filesystem::path_key(
            (#[trigger] prepared[left]).manifest.relative_path,
        ) != super::filesystem::path_key((#[trigger] prepared[right]).manifest.relative_path)
    &&& forall|file: int|
        0 <= file < prepared.len() ==> ((#[trigger] prepared[file]).preview matches Some(preview)
            ==> {
            &&& preview.file_id == prepared[file].manifest.file_id
            &&& preview.data.len() <= MAX_PREVIEW_BYTES
            &&& "image/"@.is_prefix_of(preview.media_type)
        })
}

proof fn chosen_previews_are_distinct(
    bare: OfferModel,
    prepared: Seq<PreparedModel>,
    length: spec_fn(OfferModel) -> usize,
    limit: usize,
)
    requires
        forall|left: int, right: int|
            0 <= left < right < prepared.len() ==> (#[trigger] prepared[left]).manifest.file_id != (
            #[trigger] prepared[right]).manifest.file_id,
        forall|file: int|
            0 <= file < prepared.len() ==> ((#[trigger] prepared[file]).preview matches Some(
                preview,
            ) ==> preview.file_id == prepared[file].manifest.file_id),
    ensures
        forall|left: int, right: int|
            0 <= left < right < chosen_previews(bare, prepared, length, limit).len() ==> (
            #[trigger] chosen_previews(bare, prepared, length, limit)[left]).file_id != (
            #[trigger] chosen_previews(bare, prepared, length, limit)[right]).file_id,
    decreases prepared.len(),
{
    let all = chosen_previews(bare, prepared, length, limit);
    if prepared.len() > 0 {
        let front = prepared.drop_last();
        let before = chosen_previews(bare, front, length, limit);
        assert forall|file: int| 0 <= file < front.len() implies front[file]
            == #[trigger] prepared[file] by {}
        assert forall|file: int| 0 <= file < front.len() implies ((
        #[trigger] front[file]).preview matches Some(preview) ==> preview.file_id
            == front[file].manifest.file_id) by {
            assert(front[file] == prepared[file]);
        }
        assert forall|left: int, right: int| 0 <= left < right < front.len() implies (
        #[trigger] front[left]).manifest.file_id != (
        #[trigger] front[right]).manifest.file_id by {
            assert(front[left] == prepared[left] && front[right] == prepared[right]);
        }
        chosen_previews_are_distinct(bare, front, length, limit);
        chosen_previews_are_bounded(bare, front, length, limit);
        assert forall|left: int, right: int| 0 <= left < right < all.len() implies (
        #[trigger] all[left]).file_id != (#[trigger] all[right]).file_id by {
            if right < before.len() {
                assert(all[left] == before[left] && all[right] == before[right]);
            } else {
                assert(all[left] == before[left]);
                let file = choose|file: int|
                    0 <= file < front.len() && (#[trigger] front[file]).preview
                        == Some(before[left]);
                assert(front[file] == prepared[file]);
                assert(prepared[prepared.len() - 1] == prepared.last());
            }
        }
    }
}

/// What a sender offers of files that it vouches for, a receiver takes.
pub proof fn built_offer_is_accepted(
    request_id: u64,
    transfer_id: u64,
    created_at_ms: i64,
    prepared: Seq<PreparedModel>,
    length: spec_fn(OfferModel) -> usize,
    limit: usize,
)
    requires
        request_id != 0,
        transfer_id != 0,
        created_at_ms > 0,
        ready_to_offer(prepared),
    ensures
        built_offer(request_id, transfer_id, created_at_ms, prepared, length, limit) matches Ok(
            offer,
        ) ==> super::offer::examined(offer, super::offer::path_keys(offer.files)) is Ok,
{
    let bare = offered(request_id, transfer_id, created_at_ms, prepared, Seq::empty());
    let previews = chosen_previews(bare, prepared, length, limit);
    chosen_previews_are_bounded(bare, prepared, length, limit);
    chosen_previews_are_distinct(bare, prepared, length, limit);
    totals_grow(manifests(prepared), 0);
    let offer = OfferModel { previews, ..bare };
    let keys = super::offer::path_keys(offer.files);
    assert forall|place: int| 0 <= place < previews.len() implies !#[trigger] bad_preview(
        offer,
        place,
    ) by {
        let preview = previews[place];
        let file = choose|file: int|
            0 <= file < prepared.len() && (#[trigger] prepared[file]).preview == Some(preview);
        assert(offer.files[file].file_id == preview.file_id);
    }
    assert forall|place: int| 0 <= place < offer.files.len() implies super::filesystem::safe_path(
        (#[trigger] offer.files[place]).relative_path,
    ) && offer.files[place].file_id != 0 by {
        assert(offer.files[place] == prepared[place].manifest);
    }
    assert forall|left: int, right: int| 0 <= left < right < offer.files.len() implies (
    #[trigger] offer.files[left]).file_id != (#[trigger] offer.files[right]).file_id by {
        assert(offer.files[left] == prepared[left].manifest);
        assert(offer.files[right] == prepared[right].manifest);
    }
    assert forall|left: int, right: int| 0 <= left < right < offer.files.len() implies
        #[trigger] keys[left] != #[trigger] keys[right] by {
        assert(offer.files[left] == prepared[left].manifest);
        assert(offer.files[right] == prepared[right].manifest);
    }
    assert(acceptable(offer, keys));
    super::offer::exactly_good_offers_pass(offer, keys);
}

/// A file is made ready under the number behind its place, the name at the end
/// of its path and the size that was found, with the time of its last change as
/// far as it is known, and with its preview under the same number. That is
/// refused only where there is no regular file, or the path has no name.
pub proof fn files_are_made_ready_as_they_are_found(
    index: int,
    path: Seq<char>,
    regular: bool,
    size: u64,
    modified: Option<u128>,
    preview: Option<(Seq<char>, Seq<u8>)>,
)
    requires
        0 <= index < u64::MAX,
    ensures
        prepared_file(index, path, regular, size, modified, preview) is Ok <==> regular
            && super::filesystem::file_name_of(path) is Some,
        prepared_file(index, path, regular, size, modified, preview) matches Ok(file) ==> {
            &&& file.manifest.file_id == index + 1
            &&& super::filesystem::file_name_of(path) == Some(file.manifest.relative_path)
            &&& file.manifest.size == size
            &&& file.manifest.media_type == super::filesystem::media_type_of_extension(
                super::filesystem::path_extension(path),
            )
            &&& modified is None ==> file.manifest.modified_at_ms == 0
            &&& modified matches Some(millis) ==> (if millis <= i64::MAX {
                file.manifest.modified_at_ms == millis
            } else {
                file.manifest.modified_at_ms == i64::MAX
            })
            &&& preview is None ==> file.preview is None
            &&& preview matches Some((media_type, data)) ==> file.preview == Some(
                PreviewModel { file_id: file.manifest.file_id, media_type, data },
            )
        },
{
}

/// An offer says what it is about: the request, the transfer and the time, each
/// prepared file in turn, their size in all, and under its display name the one
/// file or how many there are.
pub proof fn an_offer_names_the_prepared_files(
    request_id: u64,
    transfer_id: u64,
    created_at_ms: i64,
    prepared: Seq<PreparedModel>,
    length: spec_fn(OfferModel) -> usize,
    limit: usize,
)
    requires
        manifest_total(manifests(prepared)) <= u64::MAX,
    ensures
        built_offer(request_id, transfer_id, created_at_ms, prepared, length, limit) matches Ok(
            offer,
        ) ==> {
            &&& offer.request_id == request_id
            &&& offer.transfer_id == transfer_id
            &&& offer.created_at_ms == created_at_ms
            &&& offer.files.len() == prepared.len()
            &&& forall|place: int|
                0 <= place < prepared.len() ==> #[trigger] offer.files[place]
                    == prepared[place].manifest
            &&& offer.total_bytes == manifest_total(offer.files)
            &&& prepared.len() == 1 ==> offer.display_name == prepared[0].manifest.relative_path
            &&& prepared.len() != 1 ==> offer.display_name == crate::text::decimal(prepared.len())
                + " files"@
        },
{
    totals_grow(manifests(prepared), 0);
}

/// Where every frame fits, the offer is made; and where the previews of all files
/// are together within 256 KiB too, it carries the preview of every file that
/// has one, in their order.
pub proof fn previews_are_offered_while_they_fit(
    request_id: u64,
    transfer_id: u64,
    created_at_ms: i64,
    prepared: Seq<PreparedModel>,
    length: spec_fn(OfferModel) -> usize,
    limit: usize,
)
    requires
        forall|offer: OfferModel| #[trigger] length(offer) <= limit,
    ensures
        built_offer(request_id, transfer_id, created_at_ms, prepared, length, limit) matches Ok(
            offer,
        ) && (preview_total(all_previews(prepared)) <= 262144 ==> offer.previews == all_previews(
            prepared,
        )),
{
    let bare = offered(request_id, transfer_id, created_at_ms, prepared, Seq::empty());
    if preview_total(all_previews(prepared)) <= 262144 {
        small_previews_are_all_chosen(bare, prepared, length, limit);
    }
}

/// The previews of prepared files, of those that have one.
pub open spec fn all_previews(prepared: Seq<PreparedModel>) -> Seq<PreviewModel>
    decreases prepared.len(),
{
    if prepared.len() == 0 {
        Seq::empty()
    } else {
        let before = all_previews(prepared.drop_last());
        match prepared.last().preview {
            Some(preview) => before.push(preview),
            None => before,
        }
    }
}

proof fn small_previews_are_all_chosen(
    bare: OfferModel,
    prepared: Seq<PreparedModel>,
    length: spec_fn(OfferModel) -> usize,
    limit: usize,
)
    requires
        forall|offer: OfferModel| #[trigger] length(offer) <= limit,
        preview_total(all_previews(prepared)) <= 262144,
    ensures
        chosen_previews(bare, prepared, length, limit) == all_previews(prepared),
    decreases prepared.len(),
{
    if prepared.len() > 0 {
        let front = prepared.drop_last();
        let before = all_previews(front);
        if let Some(preview) = prepared.last().preview {
            assert(before.push(preview).drop_last() =~= before);
            assert(preview_total(before.push(preview)) == preview_total(before)
                + preview.data.len());
            small_previews_are_all_chosen(bare, front, length, limit);
            assert(length(OfferModel { previews: before.push(preview), ..bare }) <= limit);
        } else {
            small_previews_are_all_chosen(bare, front, length, limit);
        }
    }
}

/// A preview is offered only of a file that is, as it was made, and one that
/// does not fit is left out without keeping back a smaller one behind it.
pub proof fn a_preview_that_does_not_fit_is_left_out(
    bare: OfferModel,
    prepared: Seq<PreparedModel>,
    file: PreparedModel,
    length: spec_fn(OfferModel) -> usize,
    limit: usize,
)
    ensures
        ({
            let before = chosen_previews(bare, prepared, length, limit);
            let after = chosen_previews(bare, prepared.push(file), length, limit);
            &&& file.preview is None ==> after == before
            &&& file.preview matches Some(preview) ==> {
                let fits = preview_total(before) + preview.data.len() <= 262144 && length(
                    OfferModel { previews: before.push(preview), ..bare },
                ) <= limit;
                &&& fits ==> after == before.push(preview)
                &&& !fits ==> after == before
            }
        }),
{
    assert(prepared.push(file).drop_last() =~= prepared);
}

/// The first four images among the paths are those of which a preview is made.
pub proof fn the_first_four_images_get_a_preview(paths: Seq<Seq<char>>, path: Seq<char>)
    ensures
        MAX_PREVIEW_COUNT == 4,
        image_count(Seq::empty()) == 0,
        image_count(paths.push(path)) == image_count(paths) + (if image_path(path) {
            1int
        } else {
            0
        }),
        image_path(path) <==> seq![
            "png"@,
            "jpg"@,
            "jpeg"@,
            "gif"@,
            "webp"@,
            "bmp"@,
            "heic"@,
            "avif"@,
        ].contains(super::filesystem::path_extension(path)),
{
    assert(MAX_TOTAL_PREVIEW_BYTES == 262_144);
    assert(MAX_PREVIEW_BYTES == 65_536);
    assert(262_144usize / 65_536usize == 4) by (nonlinear_arith);
    assert(paths.push(path).drop_last() =~= paths);
    super::filesystem::extensions_announce_kinds(super::filesystem::path_extension(path));
}

} // verus!

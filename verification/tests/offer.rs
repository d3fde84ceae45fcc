use arcrelay_transfer::infrastructure::filesystem::{
    MAX_FILE_COUNT, MAX_PREVIEW_BYTES, MAX_TOTAL_PREVIEW_BYTES,
};
use arcrelay_transfer::infrastructure::offer::{
    validate_offer, validate_offer_with_keys, FileManifestEntry, TransferOffer, TransferPreview,
    MAX_TOTAL_BYTES,
};
use arcrelay_transfer::infrastructure::preparation::{
    build_offer, build_offer_as, file_name, plan_previews, prepare_file, sort_prepared, timestamp,
    PreparedFile,
};
use arcrelay_transfer::TransferError;

const FRAME_LIMIT: usize = 512 * 1024;

fn frame_length(offer: &TransferOffer) -> usize {
    let names: usize = offer
        .files
        .iter()
        .map(|file| file.relative_path.len() + file.media_type.len() + 32)
        .sum();
    let previews: usize = offer
        .previews
        .iter()
        .map(|preview| preview.data.len() + preview.media_type.len() + 16)
        .sum();
    names + previews + offer.display_name.len() + 64
}

fn entry(file_id: u64, path: &str, size: u64) -> FileManifestEntry {
    FileManifestEntry {
        file_id,
        relative_path: path.into(),
        size,
        media_type: "image/png".into(),
        modified_at_ms: 1,
    }
}

fn picture(file_id: u64, length: usize) -> TransferPreview {
    TransferPreview {
        file_id,
        media_type: "image/jpeg".into(),
        data: vec![file_id as u8; length],
    }
}

fn offer() -> TransferOffer {
    TransferOffer {
        request_id: 5,
        transfer_id: 7,
        display_name: "2 files".into(),
        files: vec![entry(1, "a.png", 10), entry(2, "dir/b.png", 20)],
        total_bytes: 30,
        created_at_ms: 1,
        previews: vec![picture(1, 100)],
    }
}

fn refused(change: fn(&mut TransferOffer)) -> String {
    let mut value = offer();
    change(&mut value);
    match validate_offer(&value) {
        Err(TransferError::Invalid(message)) => message,
        other => panic!("{other:?}"),
    }
}

#[test]
fn offer_preview_budget_never_exceeds_control_frame() {
    let prepared: Vec<_> = (0..MAX_FILE_COUNT)
        .map(|index| PreparedFile {
            manifest: FileManifestEntry {
                file_id: index as u64 + 1,
                relative_path: format!("image-{index}.png"),
                size: 1,
                media_type: "image/png".into(),

                modified_at_ms: 1,
            },
            preview: Some(TransferPreview {
                file_id: index as u64 + 1,
                media_type: "image/jpeg".into(),
                data: vec![index as u8; MAX_PREVIEW_BYTES],
            }),
        })
        .collect();

    let offer = build_offer(7, 1, &prepared, frame_length, FRAME_LIMIT).unwrap();
    assert!(frame_length(&offer) <= FRAME_LIMIT);
    assert!(
        offer
            .previews
            .iter()
            .map(|preview| preview.data.len())
            .sum::<usize>()
            <= MAX_TOTAL_PREVIEW_BYTES
    );
    assert!(offer.previews.len() < prepared.len());
    assert!(validate_offer(&offer).is_ok());
}

#[test]
fn good_offer_passes() {
    assert!(validate_offer(&offer()).is_ok());
    let keys = vec!["a.png".to_string(), "dir/b.png".to_string()];
    assert!(validate_offer_with_keys(&offer(), &keys).is_ok());
    let same = vec!["a".to_string(), "a".to_string()];
    assert_eq!(
        validate_offer_with_keys(&offer(), &same),
        Err(TransferError::Invalid("invalid manifest".into()))
    );
}

#[test]
fn every_fault_of_an_offer_is_told() {
    assert_eq!(
        refused(|value| value.request_id = 0),
        "offer is missing required fields"
    );
    assert_eq!(
        refused(|value| value.transfer_id = 0),
        "offer is missing required fields"
    );
    assert_eq!(
        refused(|value| value.files.clear()),
        "offer has an invalid file count or size"
    );
    assert_eq!(
        refused(|value| {
            value.files = (0..257).map(|id| entry(id + 1, &format!("{id}"), 0)).collect()
        }),
        "offer has an invalid file count or size"
    );
    assert_eq!(
        refused(|value| value.total_bytes = MAX_TOTAL_BYTES + 1),
        "offer has an invalid file count or size"
    );
    assert_eq!(
        refused(|value| value.created_at_ms = 0),
        "offer has an invalid timestamp"
    );
    assert_eq!(
        refused(|value| value.files[1].relative_path = "../b".into()),
        "unsafe path component"
    );
    assert_eq!(
        refused(|value| value.files[1].file_id = 0),
        "invalid manifest"
    );
    assert_eq!(
        refused(|value| value.files[1].file_id = 1),
        "invalid manifest"
    );
    assert_eq!(
        refused(|value| value.files[1].relative_path = "A.PNG".into()),
        "invalid manifest"
    );
    assert_eq!(
        refused(|value| value.files[1].size = u64::MAX),
        "manifest size overflow"
    );
    assert_eq!(
        refused(|value| value.total_bytes = 31),
        "manifest total size does not match"
    );
    assert_eq!(
        refused(|value| value.previews[0].data = vec![0; MAX_PREVIEW_BYTES + 1]),
        "invalid file preview"
    );
    assert_eq!(
        refused(|value| value.previews[0].media_type = "text/html".into()),
        "invalid file preview"
    );
    assert_eq!(
        refused(|value| value.previews[0].file_id = 3),
        "invalid file preview"
    );
    assert_eq!(
        refused(|value| value.previews.push(picture(1, 1))),
        "invalid file preview"
    );
    assert_eq!(
        refused(|value| {
            value.files = (1..=5).map(|id| entry(id, &format!("{id}"), 6)).collect();
            value.previews = (1..=5).map(|id| picture(id, MAX_PREVIEW_BYTES)).collect();
        }),
        "invalid file preview"
    );
}

#[test]
fn offer_is_named_after_its_only_file_or_their_number() {
    let one = vec![PreparedFile {
        manifest: entry(1, "only.png", 3),
        preview: None,
    }];
    let offer = build_offer_as(9, 7, 5, &one, frame_length, FRAME_LIMIT).unwrap();
    assert_eq!(offer.request_id, 9);
    assert_eq!(offer.transfer_id, 7);
    assert_eq!(offer.created_at_ms, 5);
    assert_eq!(offer.display_name, "only.png");
    assert_eq!(offer.total_bytes, 3);
    let two = vec![
        PreparedFile {
            manifest: entry(1, "a", 3),
            preview: Some(picture(1, 8)),
        },
        PreparedFile {
            manifest: entry(2, "b", 4),
            preview: None,
        },
    ];
    let offer = build_offer_as(9, 7, 5, &two, frame_length, FRAME_LIMIT).unwrap();
    assert_eq!(offer.display_name, "2 files");
    assert_eq!(offer.total_bytes, 7);
    assert_eq!(offer.previews, vec![picture(1, 8)]);
    assert_eq!(
        build_offer_as(9, 7, 5, &two, frame_length, 10),
        Err(TransferError::Invalid(
            "file manifest exceeds the control-frame limit; shorten file names or reduce the file count"
                .into()
        ))
    );
}

#[test]
fn preview_that_breaks_the_frame_is_left_out() {
    let files = vec![
        PreparedFile {
            manifest: entry(1, "a", 1),
            preview: Some(picture(1, 1000)),
        },
        PreparedFile {
            manifest: entry(2, "b", 1),
            preview: Some(picture(2, 10)),
        },
    ];
    let offer = build_offer_as(1, 1, 1, &files, frame_length, 900).unwrap();
    assert_eq!(offer.previews, vec![picture(2, 10)]);
}

#[test]
fn first_images_get_previews() {
    let paths: Vec<String> = ["a.txt", "1.png", "2.JPG", "b.pdf", "3.gif", "4.webp", "5.bmp"]
        .iter()
        .map(|path| path.to_string())
        .collect();
    assert_eq!(
        plan_previews(&paths),
        vec![false, true, true, false, true, true, false]
    );
}

#[test]
fn files_are_prepared_from_what_is_found() {
    let file = prepare_file(
        2,
        "/home/me/photo.PNG",
        true,
        77,
        Some(1_500),
        Some(("image/jpeg".into(), vec![1])),
    )
    .unwrap();
    assert_eq!(
        file,
        PreparedFile {
            manifest: FileManifestEntry {
                file_id: 3,
                relative_path: "photo.PNG".into(),
                size: 77,
                media_type: "image/png".into(),
                modified_at_ms: 1_500,
            },
            preview: Some(TransferPreview {
                file_id: 3,
                media_type: "image/jpeg".into(),
                data: vec![1],
            }),
        }
    );
    assert_eq!(
        prepare_file(0, "dir", false, 0, None, None),
        Err(TransferError::Invalid("source is not a regular file".into()))
    );
    assert_eq!(
        prepare_file(0, "..", true, 0, None, None),
        Err(TransferError::Invalid("invalid file name: ..".into()))
    );
    assert_eq!(
        prepare_file(0, "a", true, 0, None, None)
            .unwrap()
            .manifest
            .modified_at_ms,
        0
    );
    assert_eq!(timestamp(u128::MAX), i64::MAX);
    assert_eq!(timestamp(12), 12);
    assert_eq!(file_name("x/y").unwrap(), "y");
}

#[test]
fn prepared_files_are_put_in_sequence() {
    let mut files: Vec<PreparedFile> = [3, 1, 2]
        .iter()
        .map(|id| PreparedFile {
            manifest: entry(*id, "x", *id),
            preview: None,
        })
        .collect();
    sort_prepared(&mut files);
    let ids: Vec<u64> = files.iter().map(|file| file.manifest.file_id).collect();
    assert_eq!(ids, vec![1, 2, 3]);
}

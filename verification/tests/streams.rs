use arcrelay_transfer::infrastructure::advertisement::{
    connection_by, peer_advertisement, peer_advertisement_under, ConnectBy,
};
use arcrelay_transfer::infrastructure::file_stream::{
    check_staging_directory, send_timeout, Arrival, FileReceiver, FileSender, FileStreamHeader,
    FileStreamResult, ReceiveAction, SendWait,
};
use arcrelay_transfer::infrastructure::destination::EntryKind;
use arcrelay_transfer::infrastructure::encoding::encode_hex;
use arcrelay_transfer::infrastructure::grants::{issue_grants_with, FileStreamOpen};
use arcrelay_transfer::infrastructure::messages::{
    conclude, refuse_offer, report_completion, Reply, TransferCancel,
};
use arcrelay_transfer::infrastructure::offer::FileManifestEntry;
use arcrelay_transfer::infrastructure::preview::{
    bounded_preview, image_thumbnail, picture_preview, Picture,
};
use arcrelay_transfer::infrastructure::router::{
    failed_read, stream_close_code, unexpected_control, RoutedSessions, FAILED_STREAM_CODE,
    TRANSFER_CANCELLED_CLOSE_CODE,
};
use arcrelay_transfer::infrastructure::schedule::{
    Joined, ReceiveSchedule, ScheduleStep, SendSchedule,
};
use arcrelay_transfer::infrastructure::status::{
    error_status, ok_status, require_ok, ErrorCode, RecoveryAction,
};
use arcrelay_transfer::domain::peer::IpAddress;
use arcrelay_transfer::application::{TransferConfig, TransferManager};
use arcrelay_transfer::{
    FileKind, NearbyPeer, TransferDirection, TransferError, TransferFileView, TransferStatus,
    TransferView,
};

fn manifest(file_id: u64, size: u64) -> FileManifestEntry {
    FileManifestEntry {
        file_id,
        relative_path: "dir/file.bin".into(),
        size,
        media_type: "application/octet-stream".into(),
        modified_at_ms: 0,
    }
}

/// A service with one transfer "t" of one file.
fn manager_with(wire_id: u64, file_id: u64) -> TransferManager {
    let config = TransferConfig::described(
        "config".into(),
        "in".into(),
        "Device".into(),
        "test".into(),
        "model".into(),
    );
    let mut manager = TransferManager::with_resources(config, None, &vec![], vec![]);
    manager.push_transfer(TransferView {
        id: "t".into(),
        wire_id,
        peer_id: "p".into(),
        peer_name: "Peer".into(),
        direction: TransferDirection::Receiving,
        status: TransferStatus::Transferring,
        files: vec![TransferFileView {
            id: file_id,
            name: "file.bin".into(),
            relative_path: "dir/file.bin".into(),
            local_path: None,
            receive_directory: None,
            size: 3,
            media_type: "application/octet-stream".into(),
            kind: FileKind::File,
            thumbnail_data_url: None,
            completed_bytes: 0,
        }],
        total_bytes: 3,
        completed_bytes: 0,
        speed_bytes_per_second: 0,
        remaining_seconds: None,
        error_message: None,
        created_at_ms: 0,
        updated_at_ms: 0,
    });
    manager
}

fn receiver(size: u64) -> FileReceiver {
    FileReceiver::new(7, &manifest(1, size)).ok().unwrap().0
}

#[test]
fn what_is_sent_is_received_and_confirmed() {
    let content = b"abc".to_vec();
    let mut sender = FileSender::new(&manifest(1, 3), 2);
    assert_eq!(sender.wanted(), 2);
    sender.send(&content[..2].to_vec()).unwrap();
    assert_eq!(sender.wanted(), 1);
    sender.send(&content[2..].to_vec()).unwrap();
    assert_eq!((sender.wanted(), sender.offset()), (0, 3));
    let sent = sender.finish(3, Some(5), Some(5)).ok().unwrap();
    assert_eq!(
        encode_hex(sent.digest()),
        "ba7816bf8f01cfea414140de5dae2223b00361a396177a9cb410ff61f20015ad"
    );

    let (mut receiver, path) = FileReceiver::new(7, &manifest(1, 3)).ok().unwrap();
    assert_eq!(path.text(), "dir/file.bin");
    assert_eq!(
        receiver.header(),
        FileStreamHeader {
            status: Some(ok_status()),
            transfer_id: 7,
            file_id: 1,
            chunk_size: 256 * 1024,
        }
    );
    assert_eq!(receiver.action(), ReceiveAction::ReadContent(3));
    receiver.receive(Arrival::Bytes(b"a".to_vec())).unwrap();
    assert_eq!(receiver.action(), ReceiveAction::ReadContent(2));
    receiver.receive(Arrival::Bytes(b"bc".to_vec())).unwrap();
    assert_eq!(receiver.offset(), 3);
    assert_eq!(receiver.action(), ReceiveAction::ReadDigest(32));
    receiver
        .receive(Arrival::Bytes(sent.digest().clone()))
        .unwrap();
    assert_eq!(receiver.action(), ReceiveAction::ReadTrailer);
    receiver.receive(Arrival::End).unwrap();
    assert_eq!(receiver.action(), ReceiveAction::Store);
    let mut manager = manager_with(7, 1);
    assert_eq!(
        manager.store_received("t", &receiver, Err(TransferError::Cancelled), "in/dir/", "in"),
        Err(TransferError::Cancelled)
    );
    assert_eq!(
        manager.store_received("u", &receiver, Ok("file.bin".into()), "in/dir/", "in"),
        Err(TransferError::TransferNotFound("u".into()))
    );
    assert_eq!(manager.snapshot().transfers[0].files[0].local_path, None);
    let report = manager
        .store_received("t", &receiver, Ok("file (1).bin".into()), "in/dir/", "in")
        .unwrap();
    let stored = manager.snapshot().transfers[0].files[0].clone();
    assert_eq!(stored.local_path.as_deref(), Some("in/dir/file (1).bin"));
    assert_eq!(stored.receive_directory.as_deref(), Some("in"));
    assert_eq!(report.received_size, 3);
    assert_eq!(&report.sha256, sent.digest());
    sent.confirm(&report).unwrap();
}

#[test]
fn empty_file_is_a_digest_alone() {
    let sent = FileSender::new(&manifest(1, 0), 16).finish(0, None, None).ok().unwrap();
    assert_eq!(
        encode_hex(sent.digest()),
        "e3b0c44298fc1c149afbf4c8996fb92427ae41e4649b934ca495991b7852b855"
    );
    let mut receiver = receiver(0);
    assert_eq!(receiver.action(), ReceiveAction::ReadDigest(32));
    receiver
        .receive(Arrival::Bytes(sent.digest().clone()))
        .unwrap();
}

#[test]
fn receiver_asks_for_no_more_than_a_chunk() {
    assert_eq!(
        receiver(u64::from(u32::MAX)).action(),
        ReceiveAction::ReadContent(256 * 1024)
    );
}

#[test]
fn receiver_refuses_a_broken_stream() {
    let integrity = |text: &str| Err(TransferError::Integrity(text.into()));
    let network = |text: &str| Err(TransferError::Network(text.into()));
    assert_eq!(
        receiver(3).receive(Arrival::Bytes(vec![])),
        integrity("empty file read")
    );
    assert_eq!(
        receiver(3).receive(Arrival::End),
        integrity("file stream ended early")
    );
    assert_eq!(
        receiver(3).receive(Arrival::Silence),
        network("file stream idle timeout")
    );
    assert_eq!(
        receiver(3).receive(Arrival::Broken("reset".into())),
        network("reset")
    );
    let mut full = receiver(1);
    full.receive(Arrival::Bytes(vec![1])).unwrap();
    assert_eq!(
        full.receive(Arrival::Silence),
        network("file digest timeout")
    );
    let mut forged = receiver(1);
    forged.receive(Arrival::Bytes(vec![1])).unwrap();
    assert_eq!(
        forged.receive(Arrival::Bytes(vec![0; 32])),
        integrity("received file hash does not match")
    );
    let digest = FileSender::new(&manifest(1, 0), 1)
        .finish(0, None, None)
        .ok()
        .unwrap()
        .digest()
        .clone();
    let mut checked = receiver(0);
    checked.receive(Arrival::Bytes(digest.clone())).unwrap();
    assert_eq!(
        checked.receive(Arrival::Bytes(vec![1])),
        integrity("unexpected trailing file data")
    );
    let mut silent = receiver(0);
    silent.receive(Arrival::Bytes(digest)).unwrap();
    assert_eq!(
        silent.receive(Arrival::Silence),
        network("file stream completion timeout")
    );
    assert_eq!(
        FileReceiver::new(
            7,
            &FileManifestEntry {
                relative_path: "../x".into(),
                ..manifest(1, 1)
            }
        )
        .err(),
        Some(TransferError::Invalid("unsafe path component".into()))
    );
}

#[test]
fn sender_refuses_a_changed_source_and_a_wrong_report() {
    let mut sender = FileSender::new(&manifest(1, 3), 8);
    assert_eq!(
        sender.send(&vec![]),
        Err(TransferError::Integrity("source file ended early".into()))
    );
    let changed = TransferError::Integrity("source file changed during transfer".into());
    assert_eq!(
        FileSender::new(&manifest(1, 0), 8).finish(1, None, None).err(),
        Some(TransferError::Integrity(
            "source file changed during transfer".into()
        ))
    );
    assert_eq!(
        FileSender::new(&manifest(1, 0), 8).finish(0, Some(1), Some(2)).err(),
        Some(changed)
    );
    for (offered, modified) in [(None, Some(1)), (Some(1), None), (Some(-1), Some(1))] {
        assert!(FileSender::new(&manifest(1, 0), 8)
            .finish(0, offered, modified)
            .is_err());
    }
    let sent = FileSender::new(&manifest(1, 0), 8).finish(0, None, None).ok().unwrap();
    let report = |status, received_size, sha256| FileStreamResult {
        status,
        transfer_id: 7,
        file_id: 1,
        received_size,
        sha256,
    };
    let mismatch = Err(TransferError::Integrity(
        "receiver returned a mismatched verification result".into(),
    ));
    let digest = sent.digest().clone();
    assert_eq!(
        sent.confirm(&report(Some(ok_status()), 1, digest.clone())),
        mismatch
    );
    assert_eq!(
        sent.confirm(&report(Some(ok_status()), 0, vec![0; 32])),
        mismatch
    );
    assert_eq!(
        sent.confirm(&report(None, 0, digest.clone())),
        Err(TransferError::Network("response is missing a status".into()))
    );
    assert_eq!(sent.confirm(&report(Some(ok_status()), 0, digest)), Ok(()));
    assert_eq!(
        FileSender::new(&manifest(4, 0), 8).open(7, &vec![9; 32]),
        FileStreamOpen {
            transfer_id: 7,
            file_id: 4,
            ticket: vec![9; 32],
        }
    );
    assert_eq!(
        FileSender::new(&manifest(4, 0), 8).confirm_header(&FileStreamHeader {
            status: Some(error_status(ErrorCode::Busy, "later")),
            transfer_id: 7,
            file_id: 4,
            chunk_size: 1,
        }),
        Err(TransferError::Network("later".into()))
    );
}

#[test]
fn waits_of_a_sender_end_in_their_own_words() {
    for (wait, text) in [
        (
            SendWait::Confirmation,
            "timed out waiting for file stream confirmation",
        ),
        (SendWait::Write, "file send timeout"),
        (
            SendWait::Verification,
            "timed out waiting for file verification result",
        ),
    ] {
        assert_eq!(send_timeout(wait), TransferError::Network(text.into()));
    }
}

#[test]
fn staging_is_private_and_unique() {
    assert!(check_staging_directory(&EntryKind::Directory).is_ok());
    assert_eq!(
        check_staging_directory(&EntryKind::Other),
        Err(TransferError::Invalid(
            "unsafe temporary receive directory".into()
        ))
    );
    let file = receiver(1);
    let first = file.staging_name();
    let second = file.staging_name();
    assert!(first.starts_with("7-1-") && first.ends_with(".part"));
    assert_eq!(first.len(), 4 + 36 + 5);
    assert!(!first.contains('/'));
    let unique = &first[4..40];
    assert_eq!(unique.matches('-').count(), 4);
    assert_eq!(&unique[14..15], "4");
    assert!(unique
        .chars()
        .all(|letter| letter == '-' || letter.is_ascii_digit() || ('a'..='f').contains(&letter)));
    assert_ne!(first, second);
}

#[test]
fn statuses_say_what_can_be_done() {
    let ok = ok_status();
    assert_eq!(ok.code, ErrorCode::Success);
    assert!(require_ok(&Some(ok)).is_ok());
    for (code, recovery_action, retryable) in [
        (ErrorCode::Busy, RecoveryAction::RetryWithBackoff, true),
        (ErrorCode::ResourceExhausted, RecoveryAction::RetryWithBackoff, true),
        (ErrorCode::DeadlineExceeded, RecoveryAction::RetryWithBackoff, true),
        (ErrorCode::Unavailable, RecoveryAction::RetryWithBackoff, true),
        (ErrorCode::Conflict, RecoveryAction::Refresh, false),
        (ErrorCode::InvalidArgument, RecoveryAction::ChangeRequest, false),
        (ErrorCode::FailedPrecondition, RecoveryAction::ChangeRequest, false),
        (ErrorCode::PermissionDenied, RecoveryAction::Nothing, false),
        (ErrorCode::Cancelled, RecoveryAction::Nothing, false),
        (ErrorCode::Other(99), RecoveryAction::Nothing, false),
    ] {
        let status = error_status(code, "why");
        assert_eq!(status.recovery_action, recovery_action);
        assert_eq!(status.retryable, retryable);
        assert_eq!(
            require_ok(&Some(status)),
            Err(TransferError::Network("why".into()))
        );
    }
    assert_eq!(
        require_ok(&None),
        Err(TransferError::Network("response is missing a status".into()))
    );
}

#[test]
fn close_codes_tell_cancellation() {
    assert_eq!(
        stream_close_code(&TransferError::Cancelled),
        TRANSFER_CANCELLED_CLOSE_CODE
    );
    assert_eq!(
        stream_close_code(&TransferError::Io("x".into())),
        FAILED_STREAM_CODE
    );
    assert_eq!(failed_read(Some(0x4152), "reset"), TransferError::Cancelled);
    assert_eq!(
        failed_read(Some(0x4153), "reset"),
        TransferError::Network("reset".into())
    );
    assert_eq!(
        failed_read(None, "lost"),
        TransferError::Network("lost".into())
    );
    assert_eq!(
        unexpected_control(),
        TransferError::Network("transfer control stream ended unexpectedly".into())
    );
}

#[test]
fn last_word_must_be_the_right_one() {
    let good = Reply::Progress(report_completion(7, 30));
    assert_eq!(conclude(&good, 7, 30), Ok(()));
    let wrong = Err(TransferError::Network("invalid transfer completion".into()));
    assert_eq!(conclude(&good, 8, 30), wrong);
    assert_eq!(conclude(&good, 7, 31), wrong);
    assert_eq!(conclude(&Reply::Other, 7, 30), wrong);
    let cancel = refuse_offer(1, 7, ErrorCode::Cancelled, "stop");
    assert!(cancel.says_cancelled());
    assert_eq!(cancel.message(), "stop");
    let bare = TransferCancel {
        request_id: 1,
        transfer_id: 7,
        status: None,
    };
    assert!(!bare.says_cancelled());
    assert_eq!(bare.message(), "receiver rejected the transfer");
    assert_eq!(
        refuse_offer(1, 7, ErrorCode::PermissionDenied, "").message(),
        "receiver rejected the transfer"
    );
}

#[test]
fn a_session_has_one_router() {
    let mut routed = RoutedSessions::new();
    assert!(routed.ensure(1, false));
    assert!(!routed.ensure(1, true));
    assert!(routed.ensure(2, true));
    assert!(routed.ensure(1, false));
    routed.end(1);
    assert!(routed.ensure(1, true));
    assert!(!routed.ensure(2, true));
}

#[test]
fn a_discovered_peer_is_connected_to_by_its_live_record() {
    assert_eq!(connection_by(true), ConnectBy::Discovery);
    assert_eq!(connection_by(false), ConnectBy::Advertisement);
}

#[test]
fn four_files_are_sent_at_once() {
    let mut schedule = SendSchedule::new(6);
    for place in 0..4 {
        assert_eq!(schedule.step(), ScheduleStep::Begin(place));
        schedule.begin();
    }
    assert_eq!(schedule.step(), ScheduleStep::Join);
    schedule.join(Joined::Ended(Ok(()))).unwrap();
    assert_eq!(schedule.step(), ScheduleStep::Begin(4));
    assert_eq!(
        schedule.join(Joined::TimedOut),
        Err(TransferError::Network("timed out while sending a file".into()))
    );
    assert_eq!(
        schedule.join(Joined::Crashed("panic".into())),
        Err(TransferError::Network("transfer task failed: panic".into()))
    );
    assert_eq!(
        schedule.join(Joined::Nothing),
        Err(TransferError::InvalidState(
            "transfer task ended unexpectedly".into()
        ))
    );
}

#[test]
fn files_are_received_once_and_only_when_offered() {
    let files = vec![manifest(1, 1), manifest(2, 2)];
    let (grants, held) = issue_grants_with(&files, &vec![vec![1; 32], vec![2; 32]], 0);
    let mut schedule = ReceiveSchedule::new(7, &files, held);
    let open = |file_id: u64, ticket: &Vec<u8>| FileStreamOpen {
        transfer_id: 7,
        file_id,
        ticket: ticket.clone(),
    };
    assert_eq!(schedule.step(), ScheduleStep::Begin(0));
    assert_eq!(
        schedule.open(&open(3, &grants[0].ticket), 1),
        Err(TransferError::Invalid(
            "file is not present in the manifest".into()
        ))
    );
    assert_eq!(
        schedule.open(&open(2, &grants[0].ticket), 1),
        Err(TransferError::Invalid(
            "invalid or expired file authorization".into()
        ))
    );
    assert_eq!(
        schedule.open(&open(2, &grants[1].ticket), 1).unwrap(),
        manifest(2, 2)
    );
    assert_eq!(
        schedule.open(&open(2, &grants[1].ticket), 1),
        Err(TransferError::Invalid("duplicate file stream".into()))
    );
    schedule.open(&open(1, &grants[0].ticket), 1).unwrap();
    assert_eq!(schedule.step(), ScheduleStep::Join);
    schedule.join(Joined::Ended(Ok(()))).unwrap();
    assert_eq!(
        schedule.join(Joined::TimedOut),
        Err(TransferError::Network(
            "timed out while receiving a file".into()
        ))
    );
    assert_eq!(schedule.step(), ScheduleStep::Join);
    schedule.join(Joined::Ended(Ok(()))).unwrap();
    assert_eq!(schedule.step(), ScheduleStep::Done);
    assert_eq!(
        schedule.starved(false),
        TransferError::Network("timed out waiting for file stream".into())
    );
    assert_eq!(
        schedule.starved(true),
        TransferError::Network("file stream router stopped".into())
    );
}

fn peer() -> NearbyPeer {
    NearbyPeer {
        id: "device".into(),
        name: "Name".into(),
        platform: "os".into(),
        model: "box".into(),
        address: "x".into(),
        addresses: vec!["one".into(), "none".into(), "two".into()],
        port: 9,
        public_key: "AQID".into(),
        certificate_sha256: "0a".repeat(32),
        paired: false,
        automatic_receive: false,
        last_seen_at_ms: 3,
    }
}

fn parse(text: &str) -> Option<IpAddress> {
    match text {
        "one" => Some(IpAddress::V4(1)),
        "two" => Some(IpAddress::V6(2)),
        _ => None,
    }
}

#[test]
fn peers_are_connected_to_under_their_own_key() {
    let target = peer_advertisement(&peer(), true, |_| true, |_| true, parse).unwrap();
    assert_eq!(target.device_id, "device");
    assert_eq!(target.public_key, vec![1, 2, 3]);
    assert_eq!(target.addresses, vec![IpAddress::V4(1), IpAddress::V6(2)]);
    assert_eq!(target.connection_addresses[1].port, 9);
    assert_eq!(target.certificate_sha256, vec![10; 32]);
    let refused = |text: &str| Err(TransferError::Invalid(text.into()));
    assert_eq!(
        peer_advertisement(&peer(), false, |_| true, |_| true, parse),
        refused("invalid device identity")
    );
    let mut no_key = peer();
    no_key.public_key = "?".into();
    assert_eq!(
        peer_advertisement(&no_key, true, |_| true, |_| true, parse),
        refused("invalid peer public key")
    );
    assert_eq!(
        peer_advertisement(&peer(), true, |key| key.len() == 32, |_| true, parse),
        refused("invalid device public key")
    );
    assert_eq!(
        peer_advertisement(&peer(), true, |_| true, |_| false, parse),
        refused("device identifier does not match its public key")
    );
    assert_eq!(
        peer_advertisement_under(&peer(), vec![1], true, true, |_| None),
        refused("device network address is unavailable")
    );
    let mut no_port = peer();
    no_port.port = 0;
    assert_eq!(
        peer_advertisement_under(&no_port, vec![1], true, true, parse),
        refused("device network address is unavailable")
    );
    for digest in ["0a", "zz"] {
        let mut short = peer();
        short.certificate_sha256 = digest.into();
        assert_eq!(
            peer_advertisement_under(&short, vec![1], true, true, parse),
            refused("invalid device certificate digest")
        );
    }
}

fn png(width: u32, height: u32) -> Vec<u8> {
    let mut file = std::io::Cursor::new(Vec::new());
    image::RgbaImage::from_pixel(width, height, image::Rgba([80, 90, 220, 255]))
        .write_to(&mut file, image::ImageFormat::Png)
        .unwrap();
    file.into_inner()
}

#[test]
fn images_get_small_jpeg_previews() {
    let (media_type, data) = image_thumbnail("preview.png", || Ok(png(1024, 512)))
        .unwrap()
        .unwrap();
    assert_eq!(media_type, "image/jpeg");
    assert!(data.starts_with(&[0xff, 0xd8]) && data.len() <= 64 * 1024);
    let small = image::load_from_memory(&data).unwrap();
    assert_eq!((small.width(), small.height()), (256, 128));
    assert_eq!(
        image_thumbnail("notes.txt", || panic!("only images are read")),
        Ok(None)
    );
}

#[test]
fn images_that_cannot_be_read_are_told() {
    assert_eq!(
        image_thumbnail("a.png", || Err(TransferError::Io("gone".into()))),
        Err(TransferError::Io("gone".into()))
    );
    match image_thumbnail("a.png", || Ok(vec![1, 2, 3])) {
        Err(TransferError::Invalid(message)) => {
            assert!(message.starts_with("decode image preview: "))
        }
        other => panic!("{other:?}"),
    }
    // The extension tells the format where the first bytes do not, and one that
    // no decoder is known for leaves it untold.
    for (path, contents) in [("a.bmp", vec![1, 2, 3]), ("a.heic", vec![1, 2, 3])] {
        let expected = std::io::Cursor::new(contents.clone());
        let mut reader = image::ImageReader::new(expected);
        if let Ok(format) = image::ImageFormat::from_path(path) {
            reader.set_format(format);
        }
        let error = reader.decode().unwrap_err();
        assert_eq!(
            image_thumbnail(path, || Ok(contents.clone())),
            Err(TransferError::Invalid(format!(
                "decode image preview: {error}"
            )))
        );
    }
    match image_thumbnail("a.png", || Ok(png(16_385, 1))) {
        Err(TransferError::Invalid(message)) => {
            assert!(message.starts_with("decode image preview: "))
        }
        other => panic!("{other:?}"),
    }
    assert_eq!(
        bounded_preview(Err("size".into())),
        Err(TransferError::Invalid("encode image preview: size".into()))
    );
    assert_eq!(bounded_preview(Ok(vec![0; 64 * 1024 + 1])), Ok(None));
    assert_eq!(
        bounded_preview(Ok(vec![7])),
        Ok(Some(("image/jpeg".into(), vec![7])))
    );
}

#[test]
fn pictures_become_jpeg_files() {
    let (media_type, data) = picture_preview(Ok(Picture {
        width: 2,
        height: 1,
        pixels: vec![255, 255, 255, 0, 0, 0],
    }))
    .unwrap()
    .unwrap();
    assert_eq!(media_type, "image/jpeg");
    let read = image::load_from_memory(&data).unwrap();
    assert_eq!((read.width(), read.height()), (2, 1));
    assert_eq!(
        picture_preview(Err("no image".into())),
        Err(TransferError::Invalid(
            "decode image preview: no image".into()
        ))
    );
    match picture_preview(Ok(Picture {
        width: 70_000,
        height: 1,
        pixels: vec![0; 3 * 70_000],
    })) {
        Err(TransferError::Invalid(message)) => {
            assert!(message.starts_with("encode image preview: "))
        }
        other => panic!("{other:?}"),
    }
}

use arcrelay_transfer::application::control::JobControl;
use arcrelay_transfer::application::history::{
    history_step, persistent_history, prune_transfer_history, restore_history, save_failure,
    stored_history, HistoryStep, MAX_STORED_TRANSFERS,
};
use arcrelay_transfer::application::policies::{ReceivePolicies, StoredReceivePolicy};
use arcrelay_transfer::application::trust::{admission, PairedPeer, Trust};
use arcrelay_transfer::{
    FileKind, ReceivePolicy, TransferDirection, TransferError, TransferFileView, TransferStatus,
    TransferView,
};
use serde_json::Value;

fn transfer(index: usize) -> TransferView {
    TransferView {
        id: format!("transfer-{index}"),
        wire_id: index as u64 + 1,
        peer_id: "peer".into(),
        peer_name: "Peer".into(),
        direction: TransferDirection::Sending,
        status: TransferStatus::Completed,
        files: vec![TransferFileView {
            id: 1,
            name: "image.png".into(),
            relative_path: "image.png".into(),
            local_path: None,
            receive_directory: None,
            size: 1,
            media_type: "image/png".into(),
            kind: FileKind::Image,
            thumbnail_data_url: Some(format!("data:image/png;base64,{}", "A".repeat(64_000))),
            completed_bytes: 1,
        }],
        total_bytes: 1,
        completed_bytes: 1,
        speed_bytes_per_second: 10,
        remaining_seconds: Some(0),
        error_message: None,
        created_at_ms: index as i64,
        updated_at_ms: index as i64,
    }
}

fn object(fields: Vec<(&str, Value)>) -> Value {
    Value::Object(
        fields
            .into_iter()
            .map(|(name, value)| (name.to_string(), value))
            .collect(),
    )
}

/// A transfer as it is written to the history file.
fn json(transfer: &TransferView) -> Value {
    let files = transfer
        .files
        .iter()
        .map(|file| {
            object(vec![
                ("id", file.id.into()),
                ("name", file.name.clone().into()),
                ("relativePath", file.relative_path.clone().into()),
                ("size", file.size.into()),
                ("mediaType", file.media_type.clone().into()),
                ("kind", format!("{:?}", file.kind).into()),
                ("thumbnailDataUrl", file.thumbnail_data_url.clone().into()),
                ("completedBytes", file.completed_bytes.into()),
            ])
        })
        .collect();
    object(vec![
        ("id", transfer.id.clone().into()),
        ("wireId", transfer.wire_id.into()),
        ("peerId", transfer.peer_id.clone().into()),
        ("peerName", transfer.peer_name.clone().into()),
        ("direction", format!("{:?}", transfer.direction).into()),
        ("status", format!("{:?}", transfer.status).into()),
        ("files", Value::Array(files)),
        ("totalBytes", transfer.total_bytes.into()),
        ("completedBytes", transfer.completed_bytes.into()),
        ("speedBytesPerSecond", transfer.speed_bytes_per_second.into()),
        ("remainingSeconds", transfer.remaining_seconds.into()),
        ("errorMessage", transfer.error_message.clone().into()),
        ("createdAtMs", transfer.created_at_ms.into()),
        ("updatedAtMs", transfer.updated_at_ms.into()),
    ])
}

#[test]
fn history_is_bounded_and_drops_preview_payloads() {
    let transfers: Vec<_> = (0..400).map(transfer).rev().collect();
    let saved = stored_history(&transfers);
    let written = serde_json::to_vec(&saved.iter().map(json).collect::<Vec<_>>()).unwrap();
    assert!(written.len() < 256_000);

    let loaded = restore_history(saved);
    assert_eq!(loaded.len(), MAX_STORED_TRANSFERS);
    assert!(loaded.iter().all(|transfer| transfer
        .files
        .iter()
        .all(|file| file.thumbnail_data_url.is_none())));
}

#[test]
fn stored_history_keeps_the_front_without_what_passes() {
    let transfers: Vec<_> = (0..300).map(transfer).collect();
    let saved = stored_history(&transfers);
    assert_eq!(saved.len(), 200);
    assert_eq!(saved[0].id, "transfer-0");
    assert_eq!(saved[199].id, "transfer-199");
    assert!(saved
        .iter()
        .all(|transfer| transfer.speed_bytes_per_second == 0
            && transfer.remaining_seconds.is_none()));
    let all = persistent_history(&transfers);
    assert_eq!(all.len(), 300);
    assert_eq!(all[299].files[0].thumbnail_data_url, None);
    assert_eq!(all[299].completed_bytes, 1);
}

#[test]
fn interrupted_transfers_are_taken_up_as_failed_and_latest_first() {
    let mut first = transfer(1);
    first.status = TransferStatus::Transferring;
    let mut second = transfer(2);
    second.status = TransferStatus::Rejected;
    second.error_message = Some("no".into());
    let mut tied = transfer(3);
    tied.updated_at_ms = 2;
    let loaded = restore_history(vec![first, second, tied]);
    let ids: Vec<_> = loaded.iter().map(|transfer| transfer.id.as_str()).collect();
    assert_eq!(ids, vec!["transfer-2", "transfer-3", "transfer-1"]);
    assert_eq!(loaded[0].status, TransferStatus::Rejected);
    assert_eq!(loaded[0].error_message.as_deref(), Some("no"));
    assert_eq!(loaded[2].status, TransferStatus::Failed);
    assert_eq!(
        loaded[2].error_message.as_deref(),
        Some("transfer was still in progress when the application exited")
    );
}

#[test]
fn pruning_keeps_live_transfers_and_the_first_that_are_over() {
    let mut transfers: Vec<_> = (0..250).map(transfer).collect();
    transfers[249].status = TransferStatus::Paused;
    transfers[3].status = TransferStatus::Transferring;
    prune_transfer_history(&mut transfers);
    assert_eq!(transfers.len(), 202);
    assert_eq!(transfers[3].id, "transfer-3");
    assert_eq!(transfers[200].id, "transfer-200");
    assert_eq!(transfers[201].id, "transfer-249");
    let before = transfers.clone();
    prune_transfer_history(&mut transfers);
    assert_eq!(transfers, before);
}

#[test]
fn history_is_written_before_the_service_quits() {
    assert_eq!(
        history_step(true, false, true),
        HistoryStep {
            save: true,
            quit: true
        }
    );
    assert_eq!(
        history_step(false, false, false),
        HistoryStep {
            save: false,
            quit: false
        }
    );
    assert_eq!(
        save_failure(&TransferError::Io("disk full".into())),
        "failed to save transfer history: I/O failed: disk full"
    );
}

fn stored(peer_id: &str, receive_policy: ReceivePolicy) -> StoredReceivePolicy {
    StoredReceivePolicy {
        peer_id: peer_id.into(),
        receive_policy,
    }
}

#[test]
fn policies_are_asked_for_unless_set_and_written_in_order() {
    let mut policies = ReceivePolicies::load(&vec![
        stored("b", ReceivePolicy::Automatic),
        stored("a", ReceivePolicy::AskEveryTime),
        stored("b", ReceivePolicy::AskEveryTime),
    ]);
    assert_eq!(policies.policy("b"), ReceivePolicy::AskEveryTime);
    assert_eq!(policies.policy("unknown"), ReceivePolicy::AskEveryTime);
    policies.set_policy("a", ReceivePolicy::Automatic);
    policies.set_policy("C", ReceivePolicy::Automatic);
    assert_eq!(policies.policy("a"), ReceivePolicy::Automatic);
    let items = policies.items();
    assert_eq!(
        items,
        vec![
            stored("C", ReceivePolicy::Automatic),
            stored("a", ReceivePolicy::Automatic),
            stored("b", ReceivePolicy::AskEveryTime),
        ]
    );
    assert_eq!(ReceivePolicies::load(&items).items(), items);
    assert!(ReceivePolicies::new().items().is_empty());
}

fn trust(device_id: Option<&str>, peers: Result<Vec<PairedPeer>, String>) -> Trust {
    Trust {
        device_id: device_id.map(|id| id.to_string()),
        peers,
    }
}

fn paired(id: &str, key: u8) -> PairedPeer {
    PairedPeer {
        device_id: id.into(),
        public_key: vec![key; 32],
    }
}

#[test]
fn pairing_is_by_identifier_and_key() {
    let known = trust(Some("p"), Ok(vec![paired("q", 1), paired("p", 2)]));
    assert_eq!(known.is_paired_peer(None), Ok(true));
    assert_eq!(known.is_paired_peer(Some(&vec![2; 32])), Ok(true));
    assert_eq!(known.is_paired_peer(Some(&vec![1; 32])), Ok(false));
    assert_eq!(
        trust(None, Err("down".into())).is_paired_peer(None),
        Ok(false)
    );
    assert_eq!(trust(Some("p"), Ok(vec![])).is_paired_peer(None), Ok(false));
    assert_eq!(
        trust(Some("p"), Err("down".into())).is_paired_peer(None),
        Err(TransferError::Network("down".into()))
    );
}

#[test]
fn jobs_wait_while_paused_and_end_when_cancelled() {
    let mut job = JobControl::new();
    assert_eq!(job.wait_ready(), Ok(true));
    job.pause();
    assert_eq!(job.wait_ready(), Ok(false));
    job.resume();
    assert_eq!(job.wait_ready(), Ok(true));
    job.pause();
    job.cancel();
    assert!(job.is_cancelled());
    assert_eq!(job.wait_ready(), Err(TransferError::Cancelled));
    job.resume();
    assert_eq!(job.wait_ready(), Err(TransferError::Cancelled));
}

#[test]
fn paired_sessions_are_let_in_with_the_grant_only() {
    let refused = |text: &str| Err(TransferError::Network(text.into()));
    assert_eq!(admission(Ok(false), None), Ok(()));
    assert_eq!(admission(Ok(false), Some(Err("denied".into()))), Ok(()));
    assert_eq!(admission(Ok(true), Some(Ok(()))), Ok(()));
    assert_eq!(
        admission(Ok(true), Some(Err("denied".into()))),
        refused("denied")
    );
    assert_eq!(
        admission(Ok(true), None),
        refused("transfer grant has not been asked for")
    );
    assert_eq!(
        admission(Err("down".into()), Some(Ok(()))),
        refused("down")
    );
}

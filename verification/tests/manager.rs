use arcrelay_transfer::application::control::ReceiveDecision;
use arcrelay_transfer::application::manager::discovery::Advertisement;
use arcrelay_transfer::application::manager::{CancelRoute, DeviceIdentity};
use arcrelay_transfer::application::policies::StoredReceivePolicy;
use arcrelay_transfer::application::trust::{PairedPeer, Trust};
use arcrelay_transfer::application::{TransferConfig, TransferManager};
use arcrelay_transfer::infrastructure::encoding::encode_key;
use arcrelay_transfer::infrastructure::router::{
    Route, SessionRouter, StreamHead, FAILED_STREAM_CODE,
};
use arcrelay_transfer::infrastructure::grants::FileStreamOpen;
use arcrelay_transfer::subscription::{Notice, Signal, TransferSubscription};
use arcrelay_transfer::{
    FileKind, NearbyPeer, ReceivePolicy, TransferDirection, TransferError, TransferEvent,
    TransferFileProgress, TransferFileView, TransferProgress, TransferStatus, TransferView,
};

fn config(receive_directory: &str) -> TransferConfig {
    TransferConfig::described(
        "config".into(),
        receive_directory.into(),
        "Test Device".into(),
        "test".into(),
        "model".into(),
    )
}

fn manager() -> TransferManager {
    TransferManager::with_resources(config("Downloads"), None, &vec![], vec![])
}

fn started() -> TransferManager {
    let mut manager = manager();
    assert!(manager.start(
        DeviceIdentity {
            device_id: "me".into(),
            public_key: vec![1; 32],
            certificate_sha256: vec![2; 32],
        },
        "Network Name",
    ));
    manager.finish_start(Ok(())).unwrap();
    manager
}

fn unpaired(id: &str) -> Trust {
    Trust {
        device_id: Some(id.into()),
        peers: Ok(vec![]),
    }
}

fn paired(id: &str, key: Vec<u8>) -> Trust {
    Trust {
        device_id: Some(id.into()),
        peers: Ok(vec![PairedPeer {
            device_id: id.into(),
            public_key: key,
        }]),
    }
}

fn transfer(id: &str) -> TransferView {
    TransferView {
        id: id.into(),
        wire_id: 1,
        peer_id: "p".into(),
        peer_name: "Peer".into(),
        direction: TransferDirection::Sending,
        status: TransferStatus::Transferring,
        files: vec![TransferFileView {
            id: 1,
            name: "a".into(),
            relative_path: "a".into(),
            local_path: None,
            receive_directory: None,
            size: 1024,
            media_type: "text/plain".into(),
            kind: FileKind::File,
            thumbnail_data_url: Some("expensive-preview".into()),
            completed_bytes: 0,
        }],
        total_bytes: 1024,
        completed_bytes: 0,
        speed_bytes_per_second: 0,
        remaining_seconds: None,
        error_message: None,
        created_at_ms: 0,
        updated_at_ms: 0,
    }
}

fn discovered_peer(peer_id: &str, public_key: &[u8]) -> NearbyPeer {
    NearbyPeer {
        id: peer_id.into(),
        name: "Discovered Peer".into(),
        platform: "macOS".into(),
        model: "Mac".into(),
        address: "192.0.2.10".into(),
        addresses: vec!["192.0.2.10".into()],
        port: 18_765,
        public_key: encode_key(public_key),
        certificate_sha256: "pinned-certificate".into(),
        paired: false,
        automatic_receive: false,
        last_seen_at_ms: 1,
    }
}

fn told(notice: Notice) -> TransferEvent {
    match notice {
        Notice::Event(event) => event,
        other => panic!("{other:?}"),
    }
}

#[test]
fn independent_subscribers_recover_after_progress_lag_and_stop() {
    let mut manager = manager();
    manager.push_transfer(transfer("t"));
    let mut fast = TransferSubscription::new();
    let mut slow = TransferSubscription::new();
    assert!(matches!(
        told(fast.ask(&manager)),
        TransferEvent::Snapshot { .. }
    ));
    assert!(matches!(
        told(slow.ask(&manager)),
        TransferEvent::Snapshot { .. }
    ));
    for bytes in 1..=300 {
        let delta = manager
            .record_progress_live("t", 1, bytes, bytes * 100, 5, |_| 0)
            .unwrap()
            .unwrap();
        assert_eq!(fast.ask(&manager), Notice::Pending);
        match told(fast.next(&manager, Signal::Told(delta))) {
            TransferEvent::Progress(delta) => assert_eq!(delta.completed_bytes, bytes),
            _ => panic!("the current subscriber must receive a contiguous delta"),
        }
    }
    assert_eq!(slow.ask(&manager), Notice::Pending);
    match told(slow.next(&manager, Signal::Missed)) {
        TransferEvent::Snapshot { snapshot, .. } => {
            assert_eq!(snapshot.transfers[0].completed_bytes, 300)
        }
        _ => panic!("a lagged subscriber needs a fresh baseline"),
    }
    manager.shutdown();
    assert_eq!(fast.ask(&manager), Notice::Ended);
    assert_eq!(slow.next(&manager, Signal::Stopping), Notice::Ended);
}

#[test]
fn small_progress_uses_deltas_and_terminal_state_is_persisted() {
    let mut manager = manager();
    manager.push_transfer(transfer("t"));
    let baseline = manager.snapshot().revision;
    let delta = manager
        .record_progress_live("t", 1, 512, 10, 1, |_| 512)
        .unwrap()
        .unwrap();
    assert_eq!(delta.completed_bytes, 512);
    assert_eq!(delta.base_revision, baseline);
    assert!(!format!("{delta:?}").contains("expensive-preview"));
    assert_eq!(manager.event_baseline().1, baseline);
    assert!(!manager.tells_no_progress());
    manager
        .record_progress_live("t", 1, 1024, 11, 2, |_| 512)
        .unwrap();
    manager
        .transition("t", TransferStatus::Completed, 3)
        .unwrap();
    assert_ne!(manager.event_baseline().1, baseline);
    assert!(manager.tells_no_progress());
    manager.shutdown();
    let stored = manager.take_history().unwrap();
    assert!(stored.iter().any(|item| item.id == "t"
        && item.status == TransferStatus::Completed
        && item.completed_bytes == 1024));
    assert_eq!(stored[0].files[0].thumbnail_data_url, None);
    assert_eq!(manager.take_history(), None);
}

#[test]
fn missing_settings_uses_supplied_receive_directory() {
    let manager =
        TransferManager::with_resources(config("Downloads"), None, &vec![], vec![]);

    assert_eq!(manager.receive_directory(), "Downloads");
    assert_eq!(manager.snapshot().receive_directory, "Downloads");
}

#[test]
fn persisted_receive_directory_overrides_next_supplied_default() {
    let mut manager =
        TransferManager::with_resources(config("Downloads"), None, &vec![], vec![]);
    let snapshot = manager.set_receive_directory("Selected");
    assert_eq!(snapshot.receive_directory, "Selected");
    let selected = manager.receive_directory();
    drop(manager);

    let restarted = TransferManager::with_resources(
        config("Different Default"),
        Some(selected),
        &vec![],
        vec![],
    );

    assert_eq!(restarted.receive_directory(), "Selected");
}

#[test]
fn incoming_connection_does_not_downgrade_discovered_endpoint() {
    let mut manager = manager();
    let peer_id = "paired-peer";
    let public_key = [7_u8; 32];
    manager
        .upsert_peer(discovered_peer(peer_id, &public_key), &unpaired(peer_id))
        .unwrap();

    manager
        .observe_incoming_peer(
            peer_id,
            "Incoming Peer",
            &public_key.to_vec(),
            "192.0.2.11",
            &unpaired(peer_id),
            50,
        )
        .unwrap();

    let peer = manager
        .snapshot()
        .peers
        .into_iter()
        .find(|peer| peer.id == peer_id)
        .unwrap();
    assert_eq!(peer.port, 18_765);
    assert_eq!(peer.certificate_sha256, "pinned-certificate");
    assert_eq!(peer.platform, "macOS");
    assert_eq!(peer.model, "Mac");
    assert!(!peer.paired);
    assert!(!peer.automatic_receive);
    assert!(peer.addresses.contains(&"192.0.2.10".to_string()));
    assert!(peer.addresses.contains(&"192.0.2.11".to_string()));
    assert_eq!(peer.name, "Incoming Peer");
    assert_eq!(peer.last_seen_at_ms, 50);
}

#[test]
fn unknown_caller_is_shown_without_a_port() {
    let mut manager = manager();
    manager
        .observe_incoming_peer("x", "Caller", &vec![1, 2, 3], "10.0.0.1", &unpaired("x"), 9)
        .unwrap();
    let peer = manager.peer("x").unwrap();
    assert_eq!(peer.port, 0);
    assert_eq!(peer.platform, "ArcRelay");
    assert_eq!(peer.model, "LAN device");
    assert_eq!(peer.public_key, "AQID");
    assert_eq!(peer.addresses, vec!["10.0.0.1"]);
    assert_eq!(
        manager.peer("y"),
        Err(TransferError::PeerNotFound("y".into()))
    );
}

#[test]
fn peers_are_listed_by_name_and_trusted_by_key() {
    let mut manager = started();
    let mut own = discovered_peer("me", &[9; 32]);
    own.name = "Myself".into();
    manager.upsert_peer(own, &unpaired("me")).unwrap();
    assert!(manager.snapshot().peers.is_empty());
    for (id, name) in [("a", "Zoe"), ("b", "Ann"), ("c", "Ann")] {
        let mut peer = discovered_peer(id, &[3; 32]);
        peer.name = name.into();
        peer.paired = true;
        peer.automatic_receive = true;
        manager.upsert_peer(peer, &unpaired(id)).unwrap();
    }
    let listed: Vec<_> = manager
        .snapshot()
        .peers
        .into_iter()
        .map(|peer| (peer.id, peer.paired, peer.automatic_receive))
        .collect();
    assert_eq!(
        listed,
        vec![
            ("b".to_string(), false, false),
            ("c".to_string(), false, false),
            ("a".to_string(), false, false)
        ]
    );
    manager
        .upsert_peer(discovered_peer("b", &[3; 32]), &paired("b", vec![3; 32]))
        .unwrap();
    assert!(manager.peer("b").unwrap().paired);
    manager
        .upsert_peer(discovered_peer("b", &[4; 32]), &paired("b", vec![3; 32]))
        .unwrap();
    assert!(!manager.peer("b").unwrap().paired);
    let mut broken = discovered_peer("d", &[1; 32]);
    broken.public_key = "?".into();
    assert_eq!(
        manager.upsert_peer(broken, &unpaired("d")),
        Err(TransferError::Invalid("invalid peer public key".into()))
    );
    assert_eq!(
        manager.upsert_peer(
            discovered_peer("d", &[1; 32]),
            &Trust {
                device_id: Some("d".into()),
                peers: Err("down".into()),
            }
        ),
        Err(TransferError::Network("down".into()))
    );
}

#[test]
fn automatic_receive_is_set_for_paired_peers_only() {
    let mut manager = manager();
    manager
        .upsert_peer(discovered_peer("b", &[3; 32]), &paired("b", vec![3; 32]))
        .unwrap();
    assert_eq!(
        manager.set_receive_policy("b", true, &unpaired("b")),
        Err(TransferError::InvalidState(
            "device has not completed unified pairing".into()
        ))
    );
    let items = manager
        .set_receive_policy("b", true, &paired("b", vec![3; 32]))
        .unwrap();
    assert_eq!(
        items,
        vec![StoredReceivePolicy {
            peer_id: "b".into(),
            receive_policy: ReceivePolicy::Automatic,
        }]
    );
    let snapshot = manager.show_receive_policy("b", true);
    assert!(snapshot.peers[0].automatic_receive);
    assert_eq!(manager.receive_policy("b"), ReceivePolicy::Automatic);
    let restarted = TransferManager::with_resources(config("Downloads"), None, &items, vec![]);
    assert_eq!(restarted.receive_policy("b"), ReceivePolicy::Automatic);
    manager
        .set_receive_policy("b", false, &paired("b", vec![3; 32]))
        .unwrap();
    assert_eq!(manager.receive_policy("b"), ReceivePolicy::AskEveryTime);
}

#[test]
fn busy_peers_are_not_forgotten() {
    let mut manager = manager();
    for id in ["p", "q"] {
        manager
            .upsert_peer(discovered_peer(id, &[3; 32]), &unpaired(id))
            .unwrap();
    }
    manager.push_transfer(transfer("t"));
    manager.remove_peer("p");
    manager.remove_peer("q");
    let ids: Vec<_> = manager.snapshot().peers.into_iter().map(|peer| peer.id).collect();
    assert_eq!(ids, vec!["p"]);
    manager.fail_transfer("t", "gone", 4);
    manager.remove_peer("p");
    assert!(manager.snapshot().peers.is_empty());
}

fn announced(id: &str, addresses: Vec<String>) -> Advertisement {
    Advertisement {
        device_id: id.into(),
        name: id.into(),
        platform: "os".into(),
        model: "box".into(),
        addresses,
        port: 9,
        public_key: vec![1, 2, 3],
        certificate_sha256: vec![0xab, 0x01],
        last_seen_at_ms: 4,
    }
}

#[test]
fn search_shows_what_is_announced_and_forgets_the_rest() {
    let mut manager = manager();
    manager
        .upsert_peer(discovered_peer("old", &[3; 32]), &unpaired("old"))
        .unwrap();
    let devices = vec![
        announced("local", vec!["10.0.0.1".into()]),
        announced("new", vec!["10.0.0.2".into(), "10.0.0.3".into()]),
        announced("nowhere", vec![]),
    ];
    let trusts = vec![unpaired("local"), unpaired("new"), unpaired("nowhere")];
    manager.project_snapshot("local", &devices, &trusts);
    let peers = manager.snapshot().peers;
    assert_eq!(peers.len(), 1);
    assert_eq!(peers[0].id, "new");
    assert_eq!(peers[0].address, "10.0.0.2");
    assert_eq!(peers[0].addresses.len(), 2);
    assert_eq!(peers[0].public_key, "AQID");
    assert_eq!(peers[0].certificate_sha256, "ab01");
}

#[test]
fn search_keeps_a_silent_peer_while_a_transfer_goes_on() {
    let mut manager = manager();
    for id in ["p", "q"] {
        manager
            .upsert_peer(discovered_peer(id, &[3; 32]), &unpaired(id))
            .unwrap();
    }
    manager.push_transfer(transfer("t"));
    let listed = |manager: &TransferManager| {
        let peers = manager.snapshot().peers;
        peers.into_iter().map(|peer| peer.id).collect::<Vec<_>>()
    };
    manager.project_snapshot("local", &vec![], &vec![]);
    assert_eq!(listed(&manager), vec!["p"]);
    manager.fail_transfer("t", "gone", 4);
    manager.project_snapshot("local", &vec![], &vec![]);
    assert!(listed(&manager).is_empty());
}

#[test]
fn pairing_refreshes_an_already_visible_nearby_peer_as_trusted() {
    let mut manager = manager();
    let devices = vec![announced("right", vec!["127.0.0.1".into()])];
    manager.project_snapshot("left", &devices, &vec![unpaired("right")]);
    assert!(manager
        .snapshot()
        .peers
        .iter()
        .any(|peer| peer.id == "right" && !peer.paired));
    manager.project_snapshot("left", &devices, &vec![paired("right", vec![1, 2, 3])]);
    assert!(manager
        .snapshot()
        .peers
        .iter()
        .any(|peer| peer.id == "right" && peer.paired));
}

#[test]
fn service_knows_itself_once_started() {
    let mut manager = manager();
    assert_eq!(manager.device_id(), "");
    assert_eq!(manager.public_key_base64(), "");
    assert_eq!(manager.certificate_sha256(), "");
    assert_eq!(manager.snapshot().device_name, "Test Device");
    assert!(!manager.has_identity());
    let identity = || DeviceIdentity {
        device_id: "me".into(),
        public_key: vec![1, 2, 3],
        certificate_sha256: vec![0xff, 0x00],
    };
    assert!(manager.start(identity(), "Network Name"));
    assert_eq!(
        manager.finish_start(Err(TransferError::Network("no".into()))),
        Err(TransferError::Network("no".into()))
    );
    assert!(manager.start(identity(), "Network Name"));
    manager.finish_start(Ok(())).unwrap();
    assert!(!manager.start(identity(), "Other"));
    assert_eq!(manager.device_id(), "me");
    assert_eq!(manager.public_key(), vec![1, 2, 3]);
    assert_eq!(manager.public_key_base64(), "AQID");
    assert_eq!(manager.certificate_sha256(), "ff00");
    assert_eq!(manager.snapshot().device_id, "me");
    assert_eq!(manager.snapshot().device_name, "Network Name");
    assert_eq!(manager.device_name(), "Test Device");
    manager.set_device_name("New");
    assert_eq!(manager.device_name(), "New");
    assert_eq!(manager.snapshot().device_name, "New");
    let before = manager.snapshot().revision;
    manager.set_discoverable(false);
    assert!(!manager.is_discoverable());
    assert_eq!(manager.snapshot().revision, before + 1);
    assert_eq!(manager.refresh_devices().revision, before + 2);
}

#[test]
fn config_takes_the_name_of_the_machine_as_model() {
    let config = TransferConfig::new("c".into(), "r".into(), "d".into(), "os".into());
    let machine = hostname::get().unwrap_or_default();
    assert_eq!(config.model, machine.to_string_lossy());
    assert_eq!(config.listen_port, 0);
    assert_eq!(config.platform, "os");
}

fn send(manager: &mut TransferManager, paths: &[&str]) -> Result<String, TransferError> {
    let paths: Vec<String> = paths.iter().map(|path| path.to_string()).collect();
    manager
        .send_files("p", &paths, |_| Ok(true), |place| Ok(place as u64 + 10), 5)
        .map(|(id, _)| id)
}

#[test]
fn sending_begins_with_a_preparing_transfer() {
    let mut manager = manager();
    manager
        .upsert_peer(discovered_peer("p", &[3; 32]), &unpaired("p"))
        .unwrap();
    let id = send(&mut manager, &["/x/a.png", "/x/b.txt"]).unwrap();
    assert_eq!(id.len(), 36);
    assert!(manager.job(&id).is_ok());
    let shown = manager.snapshot().transfers.remove(0);
    assert_eq!(shown.id, id);
    assert_ne!(shown.wire_id, 0);
    assert_eq!(manager.wire_id(&id), Ok(shown.wire_id));
    assert_eq!(shown.status, TransferStatus::Preparing);
    assert_eq!(shown.direction, TransferDirection::Sending);
    assert_eq!(shown.peer_name, "Discovered Peer");
    assert_eq!(shown.total_bytes, 21);
    assert_eq!(shown.files[0].name, "a.png");
    assert_eq!(shown.files[0].kind, FileKind::Image);
    assert_eq!((shown.files[1].id, shown.files[1].size), (2, 11));
    assert_eq!(shown.files[1].media_type, "text/plain");
    assert_eq!(shown.created_at_ms, 5);
    assert_ne!(send(&mut manager, &["a"]).unwrap(), id);
}

#[test]
fn requests_to_send_are_refused_for_a_reason() {
    let mut manager = manager();
    assert_eq!(
        send(&mut manager, &[]),
        Err(TransferError::Invalid("select at least one file".into()))
    );
    assert_eq!(
        send(&mut manager, &["a"; 257]),
        Err(TransferError::Invalid(
            "no more than 256 files can be sent at once".into()
        ))
    );
    assert_eq!(
        send(&mut manager, &["a"]),
        Err(TransferError::PeerNotFound("p".into()))
    );
    manager
        .upsert_peer(discovered_peer("p", &[3; 32]), &unpaired("p"))
        .unwrap();
    let paths = vec!["link".to_string()];
    assert_eq!(
        manager.send_files("p", &paths, |_| Ok(false), |_| Ok(1), 5).err(),
        Some(TransferError::Invalid(
            "not a regular file that can be sent: link".into()
        ))
    );
    assert_eq!(
        manager
            .send_files(
                "p",
                &paths,
                |_| Err(TransferError::Io("gone".into())),
                |_| Ok(1),
                5
            )
            .err(),
        Some(TransferError::Io("gone".into()))
    );
    let two = vec!["a".to_string(), "b".to_string()];
    assert_eq!(
        manager
            .send_files("p", &two, |_| Ok(true), |_| Ok(u64::MAX), 5)
            .err(),
        Some(TransferError::Invalid("transfer file is too large".into()))
    );
    assert_eq!(
        send(&mut manager, &[".."]),
        Err(TransferError::Invalid("invalid file name: ..".into()))
    );
    for _ in 0..16 {
        send(&mut manager, &["a"]).unwrap();
    }
    assert_eq!(
        send(&mut manager, &["a"]),
        Err(TransferError::InvalidState(
            "transfer capacity exhausted".into()
        ))
    );
    manager.shutdown();
    assert_eq!(
        send(&mut manager, &["a"]),
        Err(TransferError::InvalidState(
            "transfer runtime is stopping".into()
        ))
    );
}

#[test]
fn job_that_ends_leaves_its_transfer_so_and_makes_room() {
    let mut manager = manager();
    manager
        .upsert_peer(discovered_peer("p", &[3; 32]), &unpaired("p"))
        .unwrap();
    let failed = send(&mut manager, &["a"]).unwrap();
    let cancelled = send(&mut manager, &["b"]).unwrap();
    manager.finish_job(&failed, &Err(TransferError::Io("disk".into())), 8);
    manager.finish_job(&cancelled, &Err(TransferError::Cancelled), 9);
    let shown = manager.snapshot().transfers;
    assert_eq!(shown[0].status, TransferStatus::Cancelled);
    assert_eq!(shown[1].status, TransferStatus::Failed);
    assert_eq!(
        shown[1].error_message.as_deref(),
        Some("I/O failed: disk")
    );
    assert_eq!(
        manager.job(&failed),
        Err(TransferError::TransferNotFound(failed.clone()))
    );
    for _ in 0..16 {
        send(&mut manager, &["a"]).unwrap();
    }
    manager.fail_transfer(&failed, "again", 10);
    let shown = manager.snapshot().transfers;
    let first = shown.iter().find(|transfer| transfer.id == failed).unwrap();
    assert_eq!(first.error_message.as_deref(), Some("I/O failed: disk"));
}

#[test]
fn transfers_are_paused_resumed_and_cancelled() {
    let mut manager = manager();
    manager.push_transfer(transfer("t"));
    assert_eq!(
        manager.pause("t", 1),
        Err(TransferError::TransferNotFound("t".into()))
    );
    manager.register_job("t");
    manager.pause("t", 1).unwrap();
    assert_eq!(manager.job("t").unwrap().wait_ready(), Ok(false));
    assert_eq!(manager.snapshot().transfers[0].status, TransferStatus::Paused);
    manager.resume("t", 2).unwrap();
    assert_eq!(manager.job("t").unwrap().wait_ready(), Ok(true));
    let (route, result) = manager.cancel("t", 3);
    assert_eq!((route, result), (CancelRoute::Job, Ok(())));
    assert!(manager.job("t").unwrap().is_cancelled());
    assert_eq!(
        manager.resume("t", 4),
        Err(TransferError::InvalidState(
            "cannot transition Cancelled to Transferring".into()
        ))
    );
    manager.remove_job("t");
    assert_eq!(manager.cancel("t", 5).0, CancelRoute::Nobody);
    assert_eq!(
        manager.cancel("unknown", 5).1,
        Err(TransferError::TransferNotFound("unknown".into()))
    );
}

#[test]
fn incoming_offers_are_answered_once() {
    let mut manager = manager();
    let mut waiting = transfer("t");
    waiting.status = TransferStatus::AwaitingApproval;
    manager.push_transfer(waiting);
    let handled = Err(TransferError::InvalidState(
        "receive request was already handled or expired".into(),
    ));
    assert_eq!(
        manager.respond_incoming("t", true, false, |_| panic!("nobody waits")),
        handled
    );
    manager.await_decision("t");
    let mut heard = None;
    manager
        .respond_incoming("t", true, true, |decision| {
            heard = Some(decision);
            true
        })
        .unwrap();
    assert_eq!(
        heard,
        Some(ReceiveDecision {
            accept: true,
            automatic_receive: true,
            cancelled: false,
        })
    );
    manager.await_decision("t");
    assert_eq!(
        manager.respond_incoming("t", false, false, |_| false),
        Err(TransferError::InvalidState(
            "receive connection is already closed".into()
        ))
    );
    manager.await_decision("t");
    let (route, result) = manager.cancel("t", 3);
    assert_eq!(
        route,
        CancelRoute::Decision(ReceiveDecision {
            accept: false,
            automatic_receive: false,
            cancelled: true,
        })
    );
    assert!(result.is_ok());
    assert_eq!(manager.respond_incoming("t", true, false, |_| true), handled);
}

#[test]
fn progress_is_told_at_most_ten_times_a_second() {
    let mut manager = manager();
    let mut value = transfer("t");
    value.files.push(TransferFileView {
        id: 2,
        ..value.files[0].clone()
    });
    value.total_bytes = 2048;
    manager.push_transfer(value);
    let first = manager
        .record_progress_live("t", 1, 100, 1_000, 7, |bytes| bytes)
        .unwrap()
        .unwrap();
    assert_eq!(first.remaining_seconds, Some(19));
    assert_eq!(first.speed_bytes_per_second, 100);
    assert_eq!(first.updated_at_ms, 7);
    for (file, bytes, now) in [(2, 50, 1_050), (1, 200, 1_099), (2, 60, 1_010)] {
        assert_eq!(
            manager.record_progress_live("t", file, bytes, now, 8, |_| 0),
            Ok(None)
        );
    }
    let second = manager
        .record_progress_live("t", 1, 300, 1_100, 9, |_| 0)
        .unwrap()
        .unwrap();
    assert_eq!(second.revision, first.revision + 1);
    assert_eq!(second.remaining_seconds, None);
    assert_eq!(second.completed_bytes, 360);
    let mut files = second.files.clone();
    files.sort_by_key(|file| file.id);
    assert_eq!(
        files,
        vec![
            TransferFileProgress {
                id: 1,
                completed_bytes: 300
            },
            TransferFileProgress {
                id: 2,
                completed_bytes: 60
            },
        ]
    );
    let done = manager
        .record_progress_live("t", 2, 1024, 1_101, 9, |_| 0)
        .unwrap()
        .unwrap();
    assert_eq!(done.files.len(), 1);
    assert_eq!(
        manager.record_progress_live("x", 2, 1024, 1_101, 9, |_| 0),
        Err(TransferError::TransferNotFound("x".into()))
    );
    assert_eq!(
        manager.record_progress_live("t", 2, 1000, 1_101, 9, |_| 0),
        Err(TransferError::Invalid("invalid file progress".into()))
    );
}

#[test]
fn subscriber_passes_over_what_it_knows_and_is_told_what_went_wrong() {
    let mut manager = manager();
    manager.push_transfer(transfer("t"));
    let mut cursor = TransferSubscription::new();
    cursor.ask(&manager);
    let progress = |revision, base_revision| TransferProgress {
        revision,
        base_revision,
        transfer_id: "t".into(),
        completed_bytes: 1,
        speed_bytes_per_second: 0,
        remaining_seconds: None,
        updated_at_ms: 1,
        files: vec![],
    };
    assert_eq!(
        cursor.next(&manager, Signal::Told(progress(1, 1))),
        Notice::Pending
    );
    for delta in [progress(3, 1), progress(2, 0)] {
        assert!(matches!(
            told(cursor.next(&manager, Signal::Told(delta))),
            TransferEvent::Snapshot { .. }
        ));
    }
    assert!(matches!(
        told(cursor.next(&manager, Signal::Told(progress(2, 1)))),
        TransferEvent::Progress(_)
    ));
    assert!(matches!(
        told(cursor.next(&manager, Signal::Shown)),
        TransferEvent::Snapshot { .. }
    ));
    assert_eq!(
        told(cursor.next(&manager, Signal::Diagnostic("x".into()))),
        TransferEvent::Error { message: "x".into() }
    );
    assert_eq!(
        told(cursor.next(&manager, Signal::DiagnosticsDropped(12))),
        TransferEvent::Error {
            message: "12 transfer diagnostics were dropped".into()
        }
    );
    for signal in [
        Signal::ViewsClosed,
        Signal::ProgressClosed,
        Signal::DiagnosticsClosed,
    ] {
        assert_eq!(cursor.next(&manager, signal), Notice::Ended);
    }
}

fn head(operation: &str, bare: bool, open: Option<u64>) -> StreamHead {
    StreamHead {
        feature_id: "arcrelay.transfer".into(),
        compatible: true,
        operation: operation.into(),
        bare,
        open: open.map(|transfer_id| FileStreamOpen {
            transfer_id,
            file_id: 1,
            ticket: vec![],
        }),
    }
}

#[test]
fn streams_reach_only_what_expects_them() {
    let mut manager = manager();
    let mut router = SessionRouter::new();
    let reject = Route::Reject(FAILED_STREAM_CODE);
    assert_eq!(router.route(&mut manager, &head("offer", true, None)), Route::Offer);
    assert_eq!(router.route(&mut manager, &head("offer", false, None)), reject);
    assert_eq!(router.route(&mut manager, &head("other", true, None)), reject);
    assert_eq!(router.route(&mut manager, &head("file", false, None)), reject);
    assert_eq!(router.route(&mut manager, &head("file", false, Some(7))), reject);
    let mut foreign = head("offer", true, None);
    foreign.feature_id = "arcrelay.chat".into();
    assert_eq!(router.route(&mut manager, &foreign), reject);
    let mut newer = head("offer", true, None);
    newer.compatible = false;
    assert_eq!(router.route(&mut manager, &newer), reject);
    router.register(7).unwrap();
    assert_eq!(
        router.register(7),
        Err(TransferError::Invalid("duplicate active transfer id".into()))
    );
    for _ in 0..4 {
        assert_eq!(
            router.route(&mut manager, &head("file", false, Some(7))),
            Route::File(7)
        );
    }
    assert_eq!(router.route(&mut manager, &head("file", false, Some(7))), reject);
    router.take(7);
    assert_eq!(
        router.route(&mut manager, &head("file", false, Some(7))),
        Route::File(7)
    );
    router.unregister(7);
    assert_eq!(router.route(&mut manager, &head("file", false, Some(7))), reject);
    router.register(7).unwrap();
    for _ in 1..16 {
        assert_eq!(router.route(&mut manager, &head("offer", true, None)), Route::Offer);
    }
    assert_eq!(router.route(&mut manager, &head("offer", true, None)), reject);
    manager.release_slot();
    assert!(manager.acquire_slot());
}

#[test]
fn resuming_gives_back_what_was_paused() {
    let mut manager = manager();
    manager.push_transfer(transfer("t"));
    manager.register_job("t");
    manager.pause("t", 5).unwrap();
    assert!(manager.job("t").unwrap().paused);
    manager.resume("t", 9).unwrap();
    assert!(!manager.job("t").unwrap().paused);
    assert_eq!(
        manager.snapshot().transfers,
        vec![TransferView {
            updated_at_ms: 9,
            ..transfer("t")
        }]
    );
}

#[test]
fn peers_are_listed_once() {
    let mut manager = manager();
    for name in ["Zoe", "Ann", "Zoe"] {
        for id in ["a", "b"] {
            let mut peer = discovered_peer(id, &[3; 32]);
            peer.name = name.into();
            manager.upsert_peer(peer, &unpaired(id)).unwrap();
        }
    }
    manager
        .observe_incoming_peer("a", "Eve", &vec![3; 32], "10.0.0.1", &unpaired("a"), 9)
        .unwrap();
    let ids: Vec<_> = manager.snapshot().peers.into_iter().map(|peer| peer.id).collect();
    assert_eq!(ids, vec!["a", "b"]);
}

#[test]
fn totals_meet_when_the_last_file_is_complete() {
    let mut manager = manager();
    let mut value = transfer("t");
    value.files.push(TransferFileView {
        id: 2,
        thumbnail_data_url: None,
        name: "b".into(),
        relative_path: "b".into(),
        local_path: None,
        receive_directory: None,
        size: 6,
        media_type: "text/plain".into(),
        kind: FileKind::File,
        completed_bytes: 0,
    });
    value.total_bytes = 1030;
    manager.push_transfer(value);
    for (file, bytes, met) in [(2, 6, false), (1, 1000, false), (1, 1024, true)] {
        manager
            .record_progress_live("t", file, bytes, 1, 1, |_| 0)
            .unwrap();
        let shown = manager.snapshot().transfers.remove(0);
        assert_eq!(shown.completed_bytes == shown.total_bytes, met);
    }
}

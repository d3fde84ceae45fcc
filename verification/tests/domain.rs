use arcrelay_transfer::domain::peer::{Endpoint, IpAddress};
use arcrelay_transfer::{
    FileKind, NearbyPeer, ReceivePolicy, TransferDirection, TransferError, TransferFileView,
    TransferStatus, TransferView,
};

fn transfer() -> TransferView {
    TransferView {
        id: "t".into(),
        wire_id: 1,
        peer_id: "p".into(),
        peer_name: "peer".into(),
        direction: TransferDirection::Sending,
        status: TransferStatus::Preparing,
        files: vec![TransferFileView {
            id: 1,
            name: "a".into(),
            relative_path: "a".into(),
            local_path: None,
            receive_directory: None,
            size: 10,
            media_type: "application/octet-stream".into(),
            kind: FileKind::File,
            thumbnail_data_url: None,
            completed_bytes: 0,
        }],
        total_bytes: 10,
        completed_bytes: 0,
        speed_bytes_per_second: 0,
        remaining_seconds: None,
        error_message: None,
        created_at_ms: 1,
        updated_at_ms: 1,
    }
}

#[test]
fn automatic_receive_never_bypasses_pairing() {
    assert!(!ReceivePolicy::Automatic.may_receive_silently(false));
    assert!(ReceivePolicy::Automatic.may_receive_silently(true));
    assert!(!ReceivePolicy::AskEveryTime.may_receive_silently(true));
}

#[test]
fn state_machine_rejects_skipping_approval() {
    let mut value = transfer();
    assert!(value.transition(TransferStatus::Completed, 2).is_err());
    value.transition(TransferStatus::Connecting, 2).unwrap();
    value.transition(TransferStatus::Transferring, 3).unwrap();
    value.record_progress(1, 10, 4).unwrap();
    value.transition(TransferStatus::Completed, 5).unwrap();
}

#[test]
fn refused_transition_names_both_statuses_and_changes_nothing() {
    let mut value = transfer();
    let error = value.transition(TransferStatus::Completed, 2).unwrap_err();
    assert_eq!(
        error,
        TransferError::InvalidState("cannot transition Preparing to Completed".into())
    );
    assert_eq!(value, transfer());
}

#[test]
fn only_the_listed_transitions_are_allowed() {
    let all = [
        TransferStatus::Preparing,
        TransferStatus::AwaitingApproval,
        TransferStatus::Connecting,
        TransferStatus::Transferring,
        TransferStatus::Paused,
        TransferStatus::Completed,
        TransferStatus::Rejected,
        TransferStatus::Cancelled,
        TransferStatus::Failed,
    ];
    let mut allowed = 0;
    for from in all {
        for to in all {
            let mut value = transfer();
            value.status = from;
            if value.transition(to, 7).is_ok() {
                assert_eq!(value.status, to);
                assert_eq!(value.updated_at_ms, 7);
                allowed += 1;
            } else {
                assert_eq!(value.status, from);
                assert_eq!(value.updated_at_ms, 1);
            }
        }
    }
    assert_eq!(allowed, 9 + 3 + 4 + 4 + 4 + 3);
}

#[test]
fn terminal_statuses_cannot_be_left() {
    for status in [
        TransferStatus::Completed,
        TransferStatus::Rejected,
        TransferStatus::Cancelled,
        TransferStatus::Failed,
    ] {
        assert!(status.terminal());
        let mut value = transfer();
        value.status = status;
        assert!(value.transition(TransferStatus::Connecting, 2).is_err());
        value.transition(status, 9).unwrap();
        assert_eq!(value.updated_at_ms, 9);
    }
    assert!(!TransferStatus::Paused.terminal());
}

#[test]
fn progress_is_counted_and_never_goes_back() {
    let mut value = transfer();
    value.files.push(TransferFileView {
        id: 7,
        size: 5,
        ..value.files[0].clone()
    });
    value.total_bytes = 15;
    assert!(!value.record_progress(1, 4, 2).unwrap());
    assert!(value.record_progress(7, 5, 3).unwrap());
    assert_eq!(value.completed_bytes, 9);
    assert_eq!(value.files[0].completed_bytes, 4);
    assert_eq!(value.updated_at_ms, 3);
    assert_eq!(
        value.record_progress(1, 3, 4),
        Err(TransferError::Invalid("invalid file progress".into()))
    );
    assert_eq!(
        value.record_progress(1, 11, 4),
        Err(TransferError::Invalid("invalid file progress".into()))
    );
    assert_eq!(
        value.record_progress(3, 1, 4),
        Err(TransferError::Invalid("unknown file id".into()))
    );
    assert_eq!(value.completed_bytes, 9);
    value.transition(TransferStatus::Connecting, 5).unwrap();
    assert_eq!(
        value.record_progress(1, 5, 6),
        Err(TransferError::InvalidState("transfer is not active".into()))
    );
}

fn peer(address: &str, addresses: &[&str]) -> NearbyPeer {
    NearbyPeer {
        id: "peer".into(),
        name: "Peer".into(),
        platform: "test".into(),
        model: "test".into(),
        address: address.into(),
        addresses: addresses.iter().map(|value| (*value).into()).collect(),
        port: 18765,
        public_key: "key".into(),
        certificate_sha256: "digest".into(),
        paired: true,
        automatic_receive: false,
        last_seen_at_ms: 0,
    }
}

fn parse(text: &str) -> Option<IpAddress> {
    let mut value: u32 = 0;
    let mut count = 0;
    for part in text.split('.') {
        value = value.checked_mul(256)? + u32::from(part.parse::<u8>().ok()?);
        count += 1;
    }
    if count == 4 {
        Some(IpAddress::V4(value))
    } else {
        None
    }
}

fn address(octets: [u8; 4]) -> IpAddress {
    IpAddress::V4(u32::from_be_bytes(octets))
}

#[test]
fn endpoints_keep_all_valid_unique_addresses() {
    let endpoints = peer("10.1.1.91", &["10.1.1.91", "invalid", "10.1.1.249"])
        .endpoints(parse)
        .unwrap();

    assert_eq!(endpoints.len(), 2);
    assert_eq!(endpoints[0].address, address([10, 1, 1, 91]));
    assert_eq!(endpoints[1].address, address([10, 1, 1, 249]));
}

#[test]
fn endpoints_reject_peer_without_any_valid_address() {
    assert!(peer("invalid", &["also-invalid"]).endpoints(parse).is_err());
}

#[test]
fn first_endpoint_is_the_preferred_address() {
    assert_eq!(
        peer("10.1.1.91", &["10.1.1.7"]).endpoint(parse).unwrap(),
        Endpoint {
            address: address([10, 1, 1, 91]),
            port: 18765
        }
    );
    assert_eq!(
        peer("nowhere", &["10.1.1.7"]).endpoint(parse).unwrap().address,
        address([10, 1, 1, 7])
    );
    assert_eq!(
        peer("nowhere", &[]).endpoint(parse),
        Err(TransferError::Invalid("invalid peer address".into()))
    );
}

#[test]
fn errors_have_stable_codes_and_messages() {
    let cases = [
        (
            TransferError::Cancelled,
            "transfer.cancelled",
            "transfer cancelled",
        ),
        (
            TransferError::Invalid("x".into()),
            "transfer.invalid_argument",
            "invalid transfer: x",
        ),
        (
            TransferError::PeerNotFound("x".into()),
            "transfer.peer_not_found",
            "peer not found: x",
        ),
        (
            TransferError::TransferNotFound("x".into()),
            "transfer.not_found",
            "transfer not found: x",
        ),
        (
            TransferError::InvalidState("x".into()),
            "transfer.failed_precondition",
            "transfer state does not allow this operation: x",
        ),
        (
            TransferError::Io("x".into()),
            "transfer.unavailable",
            "I/O failed: x",
        ),
        (
            TransferError::Serialization("x".into()),
            "transfer.internal",
            "serialization failed: x",
        ),
        (
            TransferError::Network("x".into()),
            "transfer.unavailable",
            "network failed: x",
        ),
        (
            TransferError::Integrity("x".into()),
            "transfer.integrity",
            "integrity validation failed: x",
        ),
    ];
    for (error, code, message) in cases {
        assert_eq!(error.code(), code);
        assert_eq!(error.message(), message);
    }
}

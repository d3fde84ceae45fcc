use arcrelay_transfer::infrastructure::grants::{
    accept_offer, chunk_size, draw_tickets, ensure_receive_capacity, issue_grants,
    issue_grants_with, verify_accept, FileGrant, FileGrants, FileStreamOpen, FileTransferGrant,
    TransferAccept, FILE_GRANT_TTL_MS,
};
use arcrelay_transfer::infrastructure::offer::FileManifestEntry;
use arcrelay_transfer::infrastructure::preparation::PreparedFile;
use arcrelay_transfer::TransferError;

fn manifest(file_id: u64) -> FileManifestEntry {
    FileManifestEntry {
        file_id,
        relative_path: format!("{file_id}.txt"),
        size: 1,
        media_type: "text/plain".into(),
        modified_at_ms: 0,
    }
}

fn prepared(ids: &[u64]) -> Vec<PreparedFile> {
    ids.iter()
        .map(|id| PreparedFile {
            manifest: manifest(*id),
            preview: None,
        })
        .collect()
}

fn grant(file_id: u64) -> FileTransferGrant {
    FileTransferGrant {
        file_id,
        ticket: vec![file_id as u8; 32],
        expires_at_ms: 10,
    }
}

fn accept(ids: &[u64]) -> TransferAccept {
    TransferAccept {
        request_id: 5,
        transfer_id: 7,
        grants: ids.iter().map(|id| grant(*id)).collect(),
        chunk_size: 64 * 1024,
    }
}

#[test]
fn file_grant_expires_and_is_single_use() {
    let mut grants = FileGrants::new();
    grants.insert(
        1,
        FileGrant {
            ticket: vec![9; 32],
            expires_at_ms: 100,
            used: false,
        },
    );
    let open = FileStreamOpen {
        transfer_id: 7,
        file_id: 1,
        ticket: vec![9; 32],
    };

    grants.consume_file_grant(&open, 7, 100).unwrap();
    assert!(grants.consume_file_grant(&open, 7, 100).is_err());

    let mut expired = FileGrants::new();
    expired.insert(
        1,
        FileGrant {
            ticket: vec![9; 32],
            expires_at_ms: 99,
            used: false,
        },
    );
    assert!(expired.consume_file_grant(&open, 7, 100).is_err());
}

#[test]
fn grant_is_bound_to_transfer_file_and_ticket() {
    let refused = Err(TransferError::Invalid(
        "invalid or expired file authorization".into(),
    ));
    let (_, mut held) = issue_grants_with(&vec![manifest(1)], &vec![vec![4; 32]], 0);
    let open = |transfer_id, file_id, byte| FileStreamOpen {
        transfer_id,
        file_id,
        ticket: vec![byte; 32],
    };
    assert_eq!(held.consume_file_grant(&open(8, 1, 4), 7, 1), refused);
    assert_eq!(held.consume_file_grant(&open(7, 2, 4), 7, 1), refused);
    assert_eq!(held.consume_file_grant(&open(7, 1, 5), 7, 1), refused);
    assert_eq!(
        held.consume_file_grant(&open(7, 1, 4), 7, FILE_GRANT_TTL_MS + 1),
        refused
    );
    assert_eq!(
        held.consume_file_grant(&open(7, 1, 4), 7, FILE_GRANT_TTL_MS),
        Ok(())
    );
}

#[test]
fn issued_grants_are_verified_and_redeemed() {
    let files = vec![manifest(1), manifest(2)];
    let (grants, mut held) = issue_grants(&files, 1_000);
    assert_eq!(grants.len(), 2);
    assert!(grants
        .iter()
        .all(|grant| grant.ticket.len() == 32 && grant.expires_at_ms == 1_000 + 234_000_000));
    assert_ne!(grants[0].ticket, vec![0; 32]);
    assert_ne!(grants[0].ticket, grants[1].ticket);
    let accept = accept_offer(5, 7, grants);
    assert_eq!(accept.chunk_size, 256 * 1024);
    verify_accept(&accept, 7, 5, &prepared(&[1, 2])).unwrap();
    for id in [2, 1] {
        let open = FileStreamOpen {
            transfer_id: 7,
            file_id: id,
            ticket: accept.grant_for(id).unwrap().ticket.clone(),
        };
        held.consume_file_grant(&open, 7, 2_000).unwrap();
    }
    assert_eq!(
        accept.grant_for(3),
        Err(TransferError::Network(
            "receiver did not authorize the file".into()
        ))
    );
}

#[test]
fn grants_do_not_outlive_time_itself() {
    let (grants, _) = issue_grants_with(&vec![manifest(1)], &vec![vec![4; 32]], i64::MAX - 1);
    assert_eq!(grants[0].expires_at_ms, i64::MAX);
}

#[test]
fn tickets_are_drawn_at_random() {
    let tickets = draw_tickets(3);
    assert_eq!(tickets.len(), 3);
    assert!(tickets.iter().all(|ticket| ticket.len() == 32));
    assert_ne!(tickets[0], tickets[1]);
}

#[test]
fn accept_must_answer_the_request() {
    let invalid = Err(TransferError::Network(
        "receiver returned invalid authorization".into(),
    ));
    let files = prepared(&[1, 2]);
    assert_eq!(verify_accept(&accept(&[1, 2]), 7, 5, &files), Ok(()));
    assert_eq!(verify_accept(&accept(&[2, 1]), 7, 5, &files), Ok(()));
    assert_eq!(verify_accept(&accept(&[1, 2]), 8, 5, &files), invalid);
    assert_eq!(verify_accept(&accept(&[1, 2]), 7, 6, &files), invalid);
    let mut small = accept(&[1, 2]);
    small.chunk_size = 16 * 1024 - 1;
    assert_eq!(verify_accept(&small, 7, 5, &files), invalid);
    let mut large = accept(&[1, 2]);
    large.chunk_size = 256 * 1024 + 1;
    assert_eq!(verify_accept(&large, 7, 5, &files), invalid);
}

#[test]
fn accept_must_cover_just_the_files() {
    let incomplete = Err(TransferError::Network(
        "receiver returned incomplete file authorization".into(),
    ));
    let files = prepared(&[1, 2]);
    for ids in [&[1][..], &[1, 2, 3], &[1, 3], &[1, 1], &[]] {
        assert_eq!(verify_accept(&accept(ids), 7, 5, &files), incomplete);
    }
    let mut short = accept(&[1, 2]);
    short.grants[1].ticket.pop();
    assert_eq!(verify_accept(&short, 7, 5, &files), incomplete);
    let mut never = accept(&[1, 2]);
    never.grants[0].expires_at_ms = 0;
    assert_eq!(verify_accept(&never, 7, 5, &files), incomplete);
}

#[test]
fn chunks_keep_within_bounds() {
    assert_eq!(chunk_size(0), 16 * 1024);
    assert_eq!(chunk_size(100_000), 100_000);
    assert_eq!(chunk_size(u32::MAX), 256 * 1024);
}

#[test]
fn receive_capacity_keeps_a_free_space_reserve() {
    let directory = tempfile::tempdir().unwrap();
    let available = fs2::available_space(directory.path()).unwrap();
    assert!(ensure_receive_capacity(available, available).is_err());
}

#[test]
fn reserve_is_a_twentieth_but_not_less_than_its_minimum() {
    const MIB: u64 = 1024 * 1024;
    assert!(ensure_receive_capacity(65 * MIB, MIB).is_ok());
    assert_eq!(
        ensure_receive_capacity(65 * MIB - 1, MIB),
        Err(TransferError::Invalid(
            "not enough free space to receive files (need 68157440 bytes, have 68157439)".into()
        ))
    );
    assert!(ensure_receive_capacity(21_000 * MIB, 20_000 * MIB).is_ok());
    assert!(ensure_receive_capacity(21_000 * MIB - 1, 20_000 * MIB).is_err());
    assert_eq!(
        ensure_receive_capacity(u64::MAX, u64::MAX - 5),
        Err(TransferError::Invalid(
            "required receive space overflow".into()
        ))
    );
}

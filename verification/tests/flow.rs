use std::cell::RefCell;
use std::collections::BTreeMap;

use arcrelay_transfer::application::control::ReceiveDecision;
use arcrelay_transfer::application::incoming::{
    Caller, IncomingAction, IncomingEvent, IncomingStage, IncomingTransfer,
};
use arcrelay_transfer::application::manager::{CancelRoute, DeviceIdentity};
use arcrelay_transfer::application::outgoing::{OutgoingStage, OutgoingTransfer};
use arcrelay_transfer::application::trust::{PairedPeer, Trust};
use arcrelay_transfer::application::{TransferConfig, TransferManager};
use arcrelay_transfer::infrastructure::destination::{
    finalize_staged, EntryKind, LinkOutcome,
};
use arcrelay_transfer::infrastructure::encoding::encode_key;
use arcrelay_transfer::infrastructure::file_stream::{
    Arrival, FileReceiver, FileSender, ReceiveAction,
};
use arcrelay_transfer::infrastructure::grants::{FileStreamOpen, TransferAccept};
use arcrelay_transfer::infrastructure::messages::Reply;
use arcrelay_transfer::infrastructure::offer::TransferOffer;
use arcrelay_transfer::infrastructure::preparation::prepare_file;
use arcrelay_transfer::infrastructure::preview::image_thumbnail;
use arcrelay_transfer::infrastructure::router::{failed_read, Route, SessionRouter, StreamHead};
use arcrelay_transfer::infrastructure::schedule::{
    Joined, ReceiveSchedule, ScheduleStep, SendSchedule,
};
use arcrelay_transfer::{NearbyPeer, ReceivePolicy, TransferError, TransferStatus, TransferView};

const NOW: i64 = 1_000;
const FRAME_LIMIT: usize = 1024 * 1024;

struct Side {
    id: String,
    key: Vec<u8>,
    manager: TransferManager,
    router: SessionRouter,
    trusted: Vec<(String, Vec<u8>)>,
    inbox: RefCell<BTreeMap<String, Vec<u8>>>,
}

fn side(name: &str, key: u8) -> Side {
    let mut manager = TransferManager::with_resources(
        TransferConfig::described(
            "config".into(),
            "inbox".into(),
            name.into(),
            "test".into(),
            "test".into(),
        ),
        None,
        &vec![],
        vec![],
    );
    let id = format!("device-{name}");
    assert!(manager.start(
        DeviceIdentity {
            device_id: id.clone(),
            public_key: vec![key; 32],
            certificate_sha256: vec![key; 32],
        },
        name,
    ));
    manager.finish_start(Ok(())).unwrap();
    Side {
        id,
        key: vec![key; 32],
        manager,
        router: SessionRouter::new(),
        trusted: vec![],
        inbox: RefCell::new(BTreeMap::new()),
    }
}

fn pair(left: &mut Side, right: &mut Side) {
    left.trusted.push((right.id.clone(), right.key.clone()));
    right.trusted.push((left.id.clone(), left.key.clone()));
}

impl Side {
    fn trust(&self, id: &str) -> Trust {
        Trust {
            device_id: Some(id.into()),
            peers: Ok(self
                .trusted
                .iter()
                .map(|(device_id, public_key)| PairedPeer {
                    device_id: device_id.clone(),
                    public_key: public_key.clone(),
                })
                .collect()),
        }
    }

    fn sees(&mut self, other: &Side, name: &str) {
        let peer = NearbyPeer {
            id: other.id.clone(),
            name: name.into(),
            platform: "test".into(),
            model: "test".into(),
            address: "127.0.0.1".into(),
            addresses: vec!["127.0.0.1".into()],
            port: 4,
            public_key: encode_key(&other.key),
            certificate_sha256: "00".into(),
            paired: true,
            automatic_receive: false,
            last_seen_at_ms: NOW,
        };
        let trust = self.trust(&other.id);
        self.manager.upsert_peer(peer, &trust).unwrap();
    }

    fn transfer(&self, id: &str) -> TransferView {
        self.manager
            .snapshot()
            .transfers
            .into_iter()
            .find(|transfer| transfer.id == id)
            .unwrap()
    }

    fn status(&self, id: &str) -> TransferStatus {
        self.transfer(id).status
    }

    fn allow(&mut self, peer_id: &str) {
        let trust = self.trust(peer_id);
        self.manager
            .set_receive_policy(peer_id, true, &trust)
            .unwrap();
        self.manager.show_receive_policy(peer_id, true);
    }

    fn route(&mut self, operation: &str, open: Option<FileStreamOpen>) -> Route {
        let head = StreamHead {
            feature_id: "arcrelay.transfer".into(),
            compatible: true,
            operation: operation.into(),
            bare: open.is_none(),
            open,
        };
        self.router.route(&mut self.manager, &head)
    }

    fn respond(&mut self, id: &str, accept: bool, automatic: bool) -> ReceiveDecision {
        let mut told = None;
        self.manager
            .respond_incoming(id, accept, automatic, |decision| {
                told = Some(decision);
                true
            })
            .unwrap();
        told.unwrap()
    }
}

fn frame_length(offer: &TransferOffer) -> usize {
    64 + offer.files.len() * 64
        + offer
            .previews
            .iter()
            .map(|preview| preview.data.len() + 32)
            .sum::<usize>()
}

struct Sending {
    id: String,
    transfer: OutgoingTransfer,
    content: Vec<u8>,
}

/// Makes one file ready, connects, and writes the offer.
fn offer_file(
    from: &mut Side,
    to: &Side,
    path: &str,
    content: &[u8],
) -> (Sending, TransferOffer) {
    let size = content.len() as u64;
    let (id, peer) = from
        .manager
        .send_files(
            &to.id,
            &vec![path.to_string()],
            |_| Ok(true),
            |_| Ok(size),
            NOW,
        )
        .unwrap();
    assert_eq!(peer.id, to.id);
    let preview = image_thumbnail(path, || Ok(content.to_vec())).unwrap();
    let prepared = prepare_file(0, path, true, size, Some(5), preview).unwrap();
    let mut transfer = OutgoingTransfer::begin(&id);
    transfer
        .prepare(&mut from.manager, vec![prepared], NOW)
        .unwrap();
    assert_eq!(from.status(&id), TransferStatus::Connecting);
    let offer = transfer.make_offer(NOW, frame_length, FRAME_LIMIT).unwrap();
    transfer.offer_written(&mut from.manager, NOW).unwrap();
    assert_eq!(from.status(&id), TransferStatus::AwaitingApproval);
    (
        Sending {
            id,
            transfer,
            content: content.to_vec(),
        },
        offer,
    )
}

/// Takes an offer in, as far as the first thing that is to be done about it.
fn take_offer(
    side: &mut Side,
    from: &Side,
    name: &str,
    offer: TransferOffer,
) -> (IncomingTransfer, IncomingAction) {
    assert_eq!(side.route("offer", None), Route::Offer);
    let mut transfer = IncomingTransfer::begin(&mut side.manager);
    assert_eq!(transfer.stage(), IncomingStage::Offer);
    let caller = Caller {
        id: from.id.clone(),
        name: name.into(),
        public_key: from.key.clone(),
        address: "127.0.0.1".into(),
    };
    let trust = side.trust(&from.id);
    let action = transfer
        .step(
            &mut side.manager,
            &mut side.router,
            IncomingEvent::Offered {
                offer: Some(offer),
                caller,
                trust,
            },
            NOW,
        )
        .ok()
        .unwrap();
    (transfer, action)
}

fn decide(
    side: &mut Side,
    from: &Side,
    transfer: &mut IncomingTransfer,
    decision: Option<ReceiveDecision>,
) -> IncomingAction {
    let trust = side.trust(&from.id);
    transfer
        .step(
            &mut side.manager,
            &mut side.router,
            IncomingEvent::Decided { decision, trust },
            NOW,
        )
        .ok()
        .unwrap()
}

fn step(side: &mut Side, transfer: &mut IncomingTransfer, event: IncomingEvent) -> IncomingAction {
    transfer
        .step(&mut side.manager, &mut side.router, event, NOW)
        .ok()
        .unwrap()
}

/// Measures the room and writes the consent.
fn consent(side: &mut Side, transfer: &mut IncomingTransfer) -> (TransferAccept, ReceiveSchedule) {
    let accept = match step(side, transfer, IncomingEvent::Space(Ok(u64::MAX))) {
        IncomingAction::Write(Reply::Accept(accept)) => accept,
        _ => panic!("there is room for the files"),
    };
    match step(side, transfer, IncomingEvent::Written) {
        IncomingAction::ReceiveFiles(schedule) => (accept, schedule),
        _ => panic!("the files come next"),
    }
}

/// Sends the one file of a transfer over, and concludes the transfer.
fn complete(
    from: &mut Side,
    sending: &mut Sending,
    to: &mut Side,
    incoming: &mut IncomingTransfer,
    accept: TransferAccept,
    mut schedule: ReceiveSchedule,
) -> String {
    let ticket = accept.grant_for(1).unwrap().ticket.clone();
    let chunk = sending
        .transfer
        .take_reply(&mut from.manager, &Reply::Accept(accept), NOW)
        .unwrap();
    assert_eq!(from.status(&sending.id), TransferStatus::Transferring);
    let wire_id = sending.transfer.wire_id();

    let mut sender = FileSender::new(&sending.transfer.prepared()[0].manifest, chunk);
    let open = sender.open(wire_id, &ticket);
    let again = sender.open(wire_id, &ticket);
    assert_eq!(schedule.step(), ScheduleStep::Begin(0));
    assert_eq!(to.route("file", Some(open)), Route::File(wire_id));
    to.router.take(wire_id);
    let manifest = schedule.open(&again, NOW).unwrap();
    let (mut receiver, path) = FileReceiver::new(wire_id, &manifest).ok().unwrap();
    sender.confirm_header(&receiver.header()).unwrap();

    let local_id = incoming.local_id();
    while sender.wanted() > 0 {
        assert_eq!(
            from.manager.job(&sending.id).unwrap().wait_ready(),
            Ok(true)
        );
        let start = sender.offset() as usize;
        let bytes = sending.content[start..start + sender.wanted()].to_vec();
        sender.send(&bytes).unwrap();
        from.manager
            .record_progress_live(&sending.id, 1, sender.offset(), 1, NOW, |_| 1)
            .unwrap();
        receiver.receive(Arrival::Bytes(bytes)).unwrap();
        to.manager
            .record_progress_live(&local_id, 1, receiver.offset(), 1, NOW, |_| 1)
            .unwrap();
    }
    let sent = sender
        .finish(sending.content.len() as u64, Some(1), Some(1))
        .ok()
        .unwrap();
    receiver
        .receive(Arrival::Bytes(sent.digest().clone()))
        .unwrap();
    receiver.receive(Arrival::End).unwrap();
    assert_eq!(receiver.action(), ReceiveAction::Store);
    let claimed = finalize_staged(
        &path,
        |_, _, _| Ok(EntryKind::Directory),
        |_, _| panic!("the inbox is there"),
        |_, name| to.inbox.borrow().contains_key(name),
        |_, name| {
            to.inbox
                .borrow_mut()
                .insert(name.clone(), sending.content.clone());
            LinkOutcome::Linked
        },
    );
    let stored = claimed.as_ref().unwrap().clone();
    let report = to
        .manager
        .store_received(&local_id, &receiver, claimed, "inbox/", "inbox")
        .unwrap();
    sent.confirm(&report).unwrap();

    schedule.join(Joined::Ended(Ok(()))).unwrap();
    assert_eq!(schedule.step(), ScheduleStep::Done);
    let mut sends = SendSchedule::new(1);
    sends.begin();
    sends.join(Joined::Ended(Ok(()))).unwrap();
    assert_eq!(sends.step(), ScheduleStep::Done);
    assert!(!sending.transfer.files_sent(&sends));
    let last = match step(to, incoming, IncomingEvent::Received(schedule)) {
        IncomingAction::Write(reply) => reply,
        _ => panic!("the sender is told"),
    };
    assert_eq!(to.status(&local_id), TransferStatus::Completed);
    assert!(sending.transfer.take_conclusion(&last).unwrap());
    assert!(matches!(
        step(to, incoming, IncomingEvent::Written),
        IncomingAction::Done
    ));
    sending.transfer.complete(&mut from.manager, NOW).unwrap();
    assert_eq!(sending.transfer.stage(), OutgoingStage::Ended);
    assert_eq!(
        sending.transfer.end(&mut from.manager, &Ok(()), NOW),
        None
    );
    assert_eq!(
        incoming.end(&mut to.manager, &mut to.router, &Ok(()), NOW),
        None
    );
    stored
}

#[test]
fn paired_peers_transfer_a_file_without_overwriting() {
    let mut left = side("Left", 1);
    let mut right = side("Right", 2);
    pair(&mut left, &mut right);
    let left_id = left.id.clone();
    right.allow(&left_id);
    left.sees(&right, "Right");
    right
        .inbox
        .borrow_mut()
        .insert("hello.txt".into(), b"existing file".to_vec());

    let (mut sending, offer) = offer_file(&mut left, &right, "/left/hello.txt", b"hello from ArcRelay");
    let (mut incoming, action) = take_offer(&mut right, &left, "Left", offer);
    assert!(matches!(action, IncomingAction::MeasureSpace));
    let (accept, schedule) = consent(&mut right, &mut incoming);
    complete(
        &mut left,
        &mut sending,
        &mut right,
        &mut incoming,
        accept,
        schedule,
    );
    assert_eq!(left.status(&sending.id), TransferStatus::Completed);
    assert_eq!(
        right.inbox.borrow()["hello (1).txt"],
        b"hello from ArcRelay"
    );
    let received = right.manager.snapshot();
    let file = &received.transfers[0].files[0];
    assert_eq!(file.local_path.as_deref(), Some("inbox/hello (1).txt"));
    assert_eq!(file.receive_directory.as_deref(), Some("inbox"));
    assert_eq!(right.inbox.borrow()["hello.txt"], b"existing file");
}

#[test]
fn unpaired_nearby_peer_can_send_after_explicit_approval() {
    let mut left = side("Unpaired Sender", 1);
    let mut right = side("Unpaired Receiver", 2);
    left.sees(&right, "Unpaired Receiver");
    assert!(!left.manager.snapshot().peers[0].paired);

    let (mut sending, offer) = offer_file(
        &mut left,
        &right,
        "/left/one-off.txt",
        b"approved one-off transfer",
    );
    let (mut incoming, action) = take_offer(&mut right, &left, "Unpaired Sender", offer);
    assert!(matches!(action, IncomingAction::AwaitDecision));
    let incoming_id = incoming.local_id();
    assert_eq!(right.status(&incoming_id), TransferStatus::AwaitingApproval);
    assert!(!right.manager.snapshot().peers[0].paired);
    let decision = right.respond(&incoming_id, true, false);
    let action = decide(&mut right, &left, &mut incoming, Some(decision));
    assert!(matches!(action, IncomingAction::MeasureSpace));
    let (accept, schedule) = consent(&mut right, &mut incoming);
    complete(
        &mut left,
        &mut sending,
        &mut right,
        &mut incoming,
        accept,
        schedule,
    );
    assert_eq!(left.status(&sending.id), TransferStatus::Completed);
    assert_eq!(
        right.inbox.borrow()["one-off.txt"],
        b"approved one-off transfer"
    );
}

fn pending_transfer_pair() -> (Side, Side, Sending, IncomingTransfer) {
    let mut left = side("Sender", 1);
    let mut right = side("Receiver", 2);
    left.sees(&right, "Receiver");
    let (sending, offer) = offer_file(
        &mut left,
        &right,
        "/left/pending.txt",
        b"cancel before approval",
    );
    let (incoming, action) = take_offer(&mut right, &left, "Sender", offer);
    assert!(matches!(action, IncomingAction::AwaitDecision));
    (left, right, sending, incoming)
}

#[test]
fn sender_cancellation_closes_the_pending_request_on_the_receiver() {
    let (mut left, mut right, sending, mut incoming) = pending_transfer_pair();
    let incoming_id = incoming.local_id();

    let (route, result) = left.manager.cancel(&sending.id, NOW);
    assert_eq!((route, result), (CancelRoute::Job, Ok(())));
    let code = sending
        .transfer
        .end(&mut left.manager, &Err(TransferError::Cancelled), NOW)
        .unwrap();
    let seen = failed_read(Some(u64::from(code)), "reset by peer");
    incoming.end(&mut right.manager, &mut right.router, &Err(seen), NOW);
    assert_eq!(right.status(&incoming_id), TransferStatus::Cancelled);

    assert_eq!(left.status(&sending.id), TransferStatus::Cancelled);
    assert!(right
        .manager
        .respond_incoming(&incoming_id, true, false, |_| true)
        .is_err());
    assert!(right.manager.job(&incoming_id).is_err());
}

#[test]
fn receiver_cancellation_is_reported_as_cancelled_to_the_sender() {
    let (mut left, mut right, mut sending, mut incoming) = pending_transfer_pair();
    let incoming_id = incoming.local_id();

    let decision = match right.manager.cancel(&incoming_id, NOW) {
        (CancelRoute::Decision(decision), Ok(())) => decision,
        other => panic!("{other:?}"),
    };
    let reply = match decide(&mut right, &left, &mut incoming, Some(decision)) {
        IncomingAction::Write(reply) => reply,
        _ => panic!("the sender is told"),
    };
    let error = sending
        .transfer
        .take_reply(&mut left.manager, &reply, NOW)
        .unwrap_err();
    assert_eq!(
        error,
        TransferError::InvalidState("receiver canceled the transfer".into())
    );
    sending
        .transfer
        .end(&mut left.manager, &Err(error), NOW);
    assert_eq!(left.status(&sending.id), TransferStatus::Cancelled);

    assert!(matches!(
        step(&mut right, &mut incoming, IncomingEvent::Written),
        IncomingAction::Done
    ));
    incoming.end(&mut right.manager, &mut right.router, &Ok(()), NOW);
    assert_eq!(right.status(&incoming_id), TransferStatus::Cancelled);
}

#[test]
fn receiver_rejection_is_reported_as_rejected_to_the_sender() {
    let (mut left, mut right, mut sending, mut incoming) = pending_transfer_pair();
    let incoming_id = incoming.local_id();
    let reply = match decide(&mut right, &left, &mut incoming, None) {
        IncomingAction::Write(reply) => reply,
        _ => panic!("the sender is told"),
    };
    assert_eq!(
        sending
            .transfer
            .take_reply(&mut left.manager, &reply, NOW),
        Err(TransferError::InvalidState(
            "receiver rejected the transfer".into()
        ))
    );
    assert_eq!(left.status(&sending.id), TransferStatus::Rejected);
    step(&mut right, &mut incoming, IncomingEvent::Written);
    assert_eq!(right.status(&incoming_id), TransferStatus::Rejected);
}

#[test]
fn receiver_cancellation_stops_an_in_progress_transfer_on_both_sides() {
    let mut left = side("Sender", 1);
    let mut right = side("Receiver", 2);
    pair(&mut left, &mut right);
    left.sees(&right, "Receiver");

    let content = vec![0; 4 * 1024 * 1024];
    let (mut sending, offer) = offer_file(&mut left, &right, "/left/large.bin", &content);
    let (mut incoming, action) = take_offer(&mut right, &left, "Sender", offer);
    assert!(matches!(action, IncomingAction::AwaitDecision));
    let incoming_id = incoming.local_id();

    let decision = right.respond(&incoming_id, true, false);
    decide(&mut right, &left, &mut incoming, Some(decision));
    let (accept, _schedule) = consent(&mut right, &mut incoming);
    assert_eq!(right.status(&incoming_id), TransferStatus::Transferring);
    sending
        .transfer
        .take_reply(&mut left.manager, &Reply::Accept(accept), NOW)
        .unwrap();
    left.manager.pause(&sending.id, NOW).unwrap();
    assert_eq!(
        left.manager.job(&sending.id).unwrap().wait_ready(),
        Ok(false)
    );

    let (route, result) = right.manager.cancel(&incoming_id, NOW);
    assert_eq!((route, result), (CancelRoute::Job, Ok(())));
    assert_eq!(
        right.manager.job(&incoming_id).unwrap().wait_ready(),
        Err(TransferError::Cancelled)
    );
    let code = incoming
        .end(
            &mut right.manager,
            &mut right.router,
            &Err(TransferError::Cancelled),
            NOW,
        )
        .unwrap();
    let seen = failed_read(Some(u64::from(code)), "reset by peer");
    assert_eq!(
        sending.transfer.end(&mut left.manager, &Err(seen), NOW),
        Some(code)
    );
    assert_eq!(left.status(&sending.id), TransferStatus::Cancelled);
    assert_eq!(right.status(&incoming_id), TransferStatus::Cancelled);
    let late = FileStreamOpen {
        transfer_id: sending.transfer.wire_id(),
        file_id: 1,
        ticket: vec![],
    };
    assert!(matches!(right.route("file", Some(late)), Route::Reject(_)));
}

fn png(width: u32, height: u32) -> Vec<u8> {
    let mut file = std::io::Cursor::new(Vec::new());
    image::RgbaImage::from_pixel(width, height, image::Rgba([80, 90, 220, 255]))
        .write_to(&mut file, image::ImageFormat::Png)
        .unwrap();
    file.into_inner()
}

#[test]
fn paired_image_offer_respects_receive_policy_and_contains_thumbnail() {
    let mut left = side("Sender", 1);
    let mut right = side("Receiver", 2);
    pair(&mut left, &mut right);
    left.sees(&right, "Receiver");
    let (mut sending, offer) = offer_file(&mut left, &right, "/left/preview.png", &png(8, 8));
    assert!(left.transfer(&sending.id).files[0]
        .thumbnail_data_url
        .is_some());

    let (mut incoming, action) = take_offer(&mut right, &left, "Sender", offer);
    assert!(matches!(action, IncomingAction::AwaitDecision));
    let incoming_id = incoming.local_id();
    assert!(right.transfer(&incoming_id).files[0]
        .thumbnail_data_url
        .as_deref()
        .is_some_and(|value| value.starts_with("data:image/jpeg;base64,")));
    let decision = right.respond(&incoming_id, true, true);
    let policies = match decide(&mut right, &left, &mut incoming, Some(decision)) {
        IncomingAction::SavePolicies(policies) => policies,
        _ => panic!("the consent for later offers is written down"),
    };
    assert_eq!(policies.len(), 1);
    assert_eq!(policies[0].peer_id, left.id);
    assert_eq!(policies[0].receive_policy, ReceivePolicy::Automatic);
    assert!(matches!(
        step(&mut right, &mut incoming, IncomingEvent::PoliciesSaved),
        IncomingAction::MeasureSpace
    ));
    let (accept, schedule) = consent(&mut right, &mut incoming);
    complete(
        &mut left,
        &mut sending,
        &mut right,
        &mut incoming,
        accept,
        schedule,
    );
    assert_eq!(left.status(&sending.id), TransferStatus::Completed);
    assert!(right.manager.peer(&left.id).unwrap().paired);
    assert!(right.inbox.borrow().contains_key("preview.png"));

    let (_, offer) = offer_file(&mut left, &right, "/left/next.png", &png(8, 8));
    let (_, action) = take_offer(&mut right, &left, "Sender", offer);
    assert!(matches!(action, IncomingAction::MeasureSpace));
}

#[test]
fn concurrent_bidirectional_jobs_share_session_without_sharing_cancellation() {
    let mut left = side("Left", 1);
    let mut right = side("Right", 2);
    pair(&mut left, &mut right);
    left.sees(&right, "Right");
    right.sees(&left, "Left");
    let right_id = right.id.clone();
    left.allow(&right_id);

    let (a, a_offer) = offer_file(&mut left, &right, "/left/cancelled.txt", b"cancel me");
    let (mut b, b_offer) = offer_file(&mut left, &right, "/left/survivor.txt", b"keep me");
    let (mut a_incoming, _) = take_offer(&mut right, &left, "Left", a_offer);
    let (mut b_incoming, _) = take_offer(&mut right, &left, "Left", b_offer);
    assert_eq!(right.manager.snapshot().transfers.len(), 2);

    left.manager.cancel(&a.id, NOW).1.unwrap();
    let code = a
        .transfer
        .end(&mut left.manager, &Err(TransferError::Cancelled), NOW)
        .unwrap();
    a_incoming.end(
        &mut right.manager,
        &mut right.router,
        &Err(failed_read(Some(u64::from(code)), "reset")),
        NOW,
    );
    let incoming_b = right
        .manager
        .snapshot()
        .transfers
        .into_iter()
        .find(|transfer| transfer.files[0].name == "survivor.txt")
        .unwrap()
        .id;
    assert_eq!(incoming_b, b_incoming.local_id());
    assert_eq!(
        right.manager.job(&incoming_b).unwrap().wait_ready(),
        Ok(true)
    );
    let decision = right.respond(&incoming_b, true, false);
    decide(&mut right, &left, &mut b_incoming, Some(decision));
    let (b_accept, b_schedule) = consent(&mut right, &mut b_incoming);

    let (mut d, d_offer) = offer_file(&mut right, &left, "/right/reverse.txt", b"reverse direction");
    let (mut d_incoming, action) = take_offer(&mut left, &right, "Right", d_offer);
    assert!(matches!(action, IncomingAction::MeasureSpace));
    let (d_accept, d_schedule) = consent(&mut left, &mut d_incoming);
    complete(
        &mut right,
        &mut d,
        &mut left,
        &mut d_incoming,
        d_accept,
        d_schedule,
    );
    complete(
        &mut left,
        &mut b,
        &mut right,
        &mut b_incoming,
        b_accept,
        b_schedule,
    );
    assert_eq!(left.status(&b.id), TransferStatus::Completed);
    assert_eq!(right.status(&d.id), TransferStatus::Completed);
    assert_eq!(left.status(&a.id), TransferStatus::Cancelled);
    assert_eq!(right.inbox.borrow()["survivor.txt"], b"keep me");
    assert_eq!(left.inbox.borrow()["reverse.txt"], b"reverse direction");
    left.manager.shutdown();
    right.manager.shutdown();
    assert!(left.manager.is_stopping() && right.manager.is_stopping());
}

#[test]
fn offers_that_do_not_fit_are_refused_for_want_of_room() {
    let (mut left, mut right, mut sending, mut incoming) = pending_transfer_pair();
    let incoming_id = incoming.local_id();
    let decision = right.respond(&incoming_id, true, false);
    decide(&mut right, &left, &mut incoming, Some(decision));
    let reply = match step(&mut right, &mut incoming, IncomingEvent::Space(Ok(1))) {
        IncomingAction::Write(reply) => reply,
        _ => panic!("the sender is told"),
    };
    let message =
        "invalid transfer: not enough free space to receive files (need 67108886 bytes, have 1)";
    assert_eq!(
        sending
            .transfer
            .take_reply(&mut left.manager, &reply, NOW),
        Err(TransferError::InvalidState(message.into()))
    );
    assert_eq!(left.status(&sending.id), TransferStatus::Rejected);
    assert!(matches!(
        step(&mut right, &mut incoming, IncomingEvent::Written),
        IncomingAction::Done
    ));
    assert_eq!(right.status(&incoming_id), TransferStatus::Failed);
    assert_eq!(
        right.transfer(&incoming_id).error_message.as_deref(),
        Some(message)
    );
}

#[test]
fn answers_that_are_no_consent_are_not_acted_on() {
    let (mut left, _right, mut sending, _incoming) = pending_transfer_pair();
    assert_eq!(
        sending.transfer.unanswered(),
        TransferError::Network("timed out waiting for receiver confirmation".into())
    );
    assert_eq!(
        sending
            .transfer
            .take_reply(&mut left.manager, &Reply::Other, NOW),
        Err(TransferError::Network(
            "receiver returned an invalid response".into()
        ))
    );
    let forged = TransferAccept {
        request_id: 1,
        transfer_id: sending.transfer.wire_id(),
        grants: vec![],
        chunk_size: 256 * 1024,
    };
    assert!(matches!(
        sending
            .transfer
            .take_reply(&mut left.manager, &Reply::Accept(forged), NOW),
        Err(TransferError::Network(_))
    ));
    assert_eq!(sending.transfer.stage(), OutgoingStage::Asking);
    assert_eq!(left.status(&sending.id), TransferStatus::AwaitingApproval);
}

#[test]
fn streams_without_an_offer_are_ended() {
    let mut right = side("Receiver", 2);
    let mut incoming = IncomingTransfer::begin(&mut right.manager);
    let caller = Caller {
        id: "x".into(),
        name: "x".into(),
        public_key: vec![1; 32],
        address: "127.0.0.1".into(),
    };
    let trust = right.trust("x");
    let error = incoming
        .step(
            &mut right.manager,
            &mut right.router,
            IncomingEvent::Offered {
                offer: None,
                caller,
                trust,
            },
            NOW,
        )
        .err();
    assert_eq!(
        error,
        Some(TransferError::Network(
            "transfer control stream is missing an offer".into()
        ))
    );
    assert!(right.manager.snapshot().transfers.is_empty());
}

#[test]
fn nothing_is_offered_before_the_service_has_started() {
    let mut manager = TransferManager::with_resources(
        TransferConfig::described(
            "config".into(),
            "inbox".into(),
            "Left".into(),
            "test".into(),
            "test".into(),
        ),
        None,
        &vec![],
        vec![],
    );
    let right = side("Right", 2);
    let peer = NearbyPeer {
        id: right.id.clone(),
        name: "Right".into(),
        platform: "test".into(),
        model: "test".into(),
        address: "127.0.0.1".into(),
        addresses: vec![],
        port: 4,
        public_key: encode_key(&right.key),
        certificate_sha256: "00".into(),
        paired: false,
        automatic_receive: false,
        last_seen_at_ms: NOW,
    };
    manager
        .upsert_peer(
            peer,
            &Trust {
                device_id: None,
                peers: Ok(vec![]),
            },
        )
        .unwrap();
    let (id, _) = manager
        .send_files(&right.id, &vec!["a".into()], |_| Ok(true), |_| Ok(1), NOW)
        .unwrap();
    let prepared = prepare_file(0, "a", true, 1, None, None).unwrap();
    let mut transfer = OutgoingTransfer::begin(&id);
    assert_eq!(
        transfer.prepare(&mut manager, vec![prepared], NOW),
        Err(TransferError::InvalidState(
            "transfer service has not started".into()
        ))
    );
    assert_eq!(transfer.stage(), OutgoingStage::Preparing);
}

use rshare_net::file_jobs::{
    check_connection, check_send, final_status, peer_cancel_reason, CancelRequest, FilePeer,
    FileTransferStatus, Jobs, PacketRoute, HISTORY, MAX_ACTIVE,
};
use rshare_net::file_sources::{copy_name, SourceKind, SourceWalk};
use rshare_net::file_transfer::{
    check_reply, is_safe_path, validate_manifest, ExpectedReply, FileEntry, FileTransfer,
    FileTransferBody, FileTransferPacket, FolderDropPoint, ReceiveStep, TransferError,
    MAX_FILE_ENTRIES, MAX_PATH_BYTES,
};
use rshare_net::types::{ControlConnectionId, DeviceId};

const ID: DeviceId = DeviceId(11);
const PEER: DeviceId = DeviceId(12);
const GENERATION: ControlConnectionId = ControlConnectionId(13);

fn file(path: &str, size: u64) -> FileEntry {
    FileEntry { path: path.to_string(), size, directory: false }
}

fn directory(path: &str) -> FileEntry {
    FileEntry { path: path.to_string(), size: 0, directory: true }
}

fn packet(sequence: u64, body: FileTransferBody) -> FileTransferPacket {
    FileTransferPacket { transfer_id: ID, sequence, body }
}

fn offer(sequence: u64) -> FileTransferPacket {
    packet(sequence, FileTransferBody::Offer { entries: vec![file("a", 1)] })
}

fn file_peer() -> FilePeer {
    FilePeer {
        control_connection_id: GENERATION,
        file_transfer_version: 1,
        folder_drop_version: 1,
    }
}

#[test]
fn what_is_read_arrives_whole() {
    let entries = vec![directory("d"), file("d/a", 5), file("e", 0)];
    let (mut sender, total) = FileTransfer::new(ID, entries).ok().unwrap();
    assert_eq!(total, 5);
    let (mut receiver, expected, drop) =
        FileTransfer::from_offer(sender.offer(None)).ok().unwrap();
    assert_eq!(expected, 5);
    assert!(drop.is_none());
    assert_eq!(sender.current(), Some(1));

    let mut written = Vec::new();
    for read in [b"he".to_vec(), b"llo".to_vec(), vec![]] {
        let sent = sender.read(read).ok().unwrap();
        match receiver.accept(sent).ok().unwrap() {
            ReceiveStep::Write { data, .. } => written.extend(data),
            ReceiveStep::EndFile { .. } => assert_eq!(written, b"hello"),
            ReceiveStep::Commit { .. } => panic!("the transfer is not over"),
        }
    }
    assert_eq!(sender.current(), Some(2));
    let sent = sender.read(vec![]).ok().unwrap();
    assert!(matches!(receiver.accept(sent), Ok(ReceiveStep::EndFile { ack: 4 })));
    assert_eq!(sender.current(), None);
    let last = sender.complete();
    assert!(matches!(receiver.accept(last), Ok(ReceiveStep::Commit { ack: 5 })));
}

#[test]
fn offers_may_name_a_folder() {
    let (sender, _) = FileTransfer::new(ID, vec![file("a", 1)]).ok().unwrap();
    let point = FolderDropPoint { x: 3, y: -4 };
    let (_, _, drop) = FileTransfer::from_offer(sender.offer(Some(point))).ok().unwrap();
    assert!(matches!(drop, Some(FolderDropPoint { x: 3, y: -4 })));
    assert_eq!(
        FileTransfer::from_offer(packet(0, FileTransferBody::Complete)).err(),
        Some(TransferError::MissingManifest)
    );
}

#[test]
fn changed_sources_end_a_transfer() {
    let (mut sender, _) = FileTransfer::new(ID, vec![file("a", 2)]).ok().unwrap();
    assert_eq!(sender.read(vec![]).err(), Some(TransferError::SourceChanged));
    assert_eq!(sender.read(vec![1, 2, 3]).err(), Some(TransferError::SourceChanged));
    assert!(sender.read(vec![1, 2]).is_ok());
}

#[test]
fn receivers_take_nothing_out_of_order() {
    let start = || FileTransfer::from_offer(
        packet(0, FileTransferBody::Offer { entries: vec![file("a", 2)] })
    ).ok().unwrap().0;
    let chunk = |sequence, offset, data: &[u8]| {
        packet(sequence, FileTransferBody::Chunk { index: 0, offset, data: data.to_vec() })
    };
    assert_eq!(start().accept(chunk(2, 0, b"x")).err(), Some(TransferError::WrongOrder));
    assert_eq!(
        start().accept(chunk(1, 0, b"xyz")).err(),
        Some(TransferError::ChunkOutOfRange)
    );
    assert_eq!(
        start().accept(chunk(1, 1, b"x")).err(),
        Some(TransferError::ChunkOutOfRange)
    );
    assert_eq!(
        start().accept(packet(1, FileTransferBody::Accepted)).err(),
        Some(TransferError::IllegalState)
    );
    let mut receiver = start();
    assert!(receiver.accept(chunk(1, 0, b"xy")).is_ok());
    let wrong = packet(2, FileTransferBody::FileEnd { index: 0, sha256: vec![0; 32] });
    assert_eq!(receiver.accept(wrong).err(), Some(TransferError::IntegrityMismatch));

    let mut done = FileTransfer::from_offer(
        packet(0, FileTransferBody::Offer { entries: vec![directory("d")] })
    ).ok().unwrap().0;
    assert_eq!(
        done.accept(packet(1, FileTransferBody::Received)).err(),
        Some(TransferError::NotFinished)
    );
    assert!(matches!(
        done.accept(packet(1, FileTransferBody::Complete)),
        Ok(ReceiveStep::Commit { ack: 1 })
    ));
}

#[test]
fn replies_answer_their_packet() {
    let reply = |sequence, body| packet(sequence, body);
    assert_eq!(
        check_reply(4, &reply(4, FileTransferBody::Received), ExpectedReply::Received),
        Ok(())
    );
    assert_eq!(
        check_reply(4, &reply(5, FileTransferBody::Received), ExpectedReply::Received),
        Err(TransferError::InvalidReply)
    );
    assert_eq!(
        check_reply(4, &reply(4, FileTransferBody::Accepted), ExpectedReply::Completed),
        Err(TransferError::InvalidReply)
    );
    assert_eq!(
        check_reply(
            4,
            &reply(9, FileTransferBody::Cancel { reason: "no".to_string() }),
            ExpectedReply::Accepted
        ),
        Err(TransferError::RefusedByPeer)
    );
}

#[test]
fn paths_stay_inside_their_transfer() {
    for path in ["a", "a/b.txt", "...", ".a/..b"] {
        assert!(is_safe_path(path), "{path}");
    }
    for path in ["", "/a", "a/", "a//b", ".", "..", "a/../b", "a/.", "a\\b", "c:a", "a\0"] {
        assert!(!is_safe_path(path), "{path}");
    }
    assert!(is_safe_path(&"x".repeat(MAX_PATH_BYTES)));
    assert!(!is_safe_path(&"x".repeat(MAX_PATH_BYTES + 1)));
}

#[test]
fn manifests_are_looked_over() {
    assert_eq!(validate_manifest(&vec![file("a", 3), file("b", 4)]), Ok(7));
    assert_eq!(validate_manifest(&vec![]), Err(TransferError::EntryCount));
    assert_eq!(
        validate_manifest(&vec![file("a", 0); MAX_FILE_ENTRIES + 1]),
        Err(TransferError::EntryCount)
    );
    assert_eq!(validate_manifest(&vec![file("..", 0)]), Err(TransferError::UnsafePath));
    let mut sized = directory("d");
    sized.size = 1;
    assert_eq!(
        validate_manifest(&vec![sized, file("..", 0)]),
        Err(TransferError::SizedDirectory)
    );
    assert_eq!(
        validate_manifest(&vec![file("a", u64::MAX), file("b", 1), file("..", 1)]),
        Err(TransferError::TotalTooLarge)
    );
    assert_eq!(TransferError::WrongOrder.text(), "文件块顺序错误");
}

#[test]
fn transfers_are_limited_and_end_once() {
    let mut jobs = Jobs::new();
    for id in 0..MAX_ACTIVE as u128 {
        jobs.register(DeviceId(id), PEER, GENERATION, false).unwrap();
    }
    assert_eq!(
        jobs.register(ID, PEER, GENERATION, false),
        Err(TransferError::TooManyTransfers)
    );
    jobs.prepared(DeviceId(0), &vec![file("a", 9)], 9, FileTransferStatus::Waiting);
    jobs.set_status(DeviceId(0), FileTransferStatus::Transferring);
    jobs.progressed(DeviceId(0), 4);
    jobs.set_destination(DeviceId(0), "/there".to_string());
    assert_eq!(jobs.cancel(DeviceId(0)), Ok(CancelRequest::Stop));
    jobs.finish(DeviceId(0), FileTransferStatus::Failed, Some("why".to_string()));
    jobs.finish(DeviceId(0), FileTransferStatus::Completed, None);
    assert_eq!(jobs.cancel(DeviceId(0)), Ok(CancelRequest::Over));
    assert_eq!(jobs.cancel(ID), Err(TransferError::UnknownTransfer));
    let snapshots = jobs.snapshots();
    assert_eq!(snapshots.len(), MAX_ACTIVE);
    let over = snapshots.last().unwrap();
    assert_eq!(over.id, DeviceId(0));
    assert_eq!(over.status, FileTransferStatus::Failed);
    assert_eq!(over.error.as_deref(), Some("why"));
    assert_eq!(over.transferred_bytes, 4);
    assert_eq!(over.total_bytes, 9);
    assert_eq!(over.destination.as_deref(), Some("/there"));
    assert_eq!(
        jobs.register(DeviceId(0), PEER, GENERATION, false),
        Err(TransferError::DuplicateTransfer)
    );
    assert_eq!(
        jobs.disconnect(PEER, GENERATION),
        vec![DeviceId(1), DeviceId(2), DeviceId(3)]
    );
    assert!(jobs.disconnect(PEER, ControlConnectionId(99)).is_empty());
}

#[test]
fn the_oldest_transfers_are_forgotten() {
    let mut jobs = Jobs::new();
    for id in 0..HISTORY as u128 + 2 {
        jobs.record_folder_drag_failure(DeviceId(id), PEER, "no".to_string());
    }
    let snapshots = jobs.snapshots();
    assert_eq!(snapshots.len(), HISTORY);
    assert_eq!(snapshots[0].id, DeviceId(HISTORY as u128 + 1));
    assert_eq!(snapshots[HISTORY - 1].id, DeviceId(2));
    assert_eq!(snapshots[0].status, FileTransferStatus::Failed);
}

#[test]
fn packets_find_their_transfer() {
    let mut jobs = Jobs::new();
    let stranger = FilePeer { control_connection_id: ControlConnectionId(1), ..file_peer() };
    assert_eq!(
        jobs.receive(Some(stranger), PEER, GENERATION, &offer(0), true),
        PacketRoute::Ignore
    );
    assert_eq!(jobs.receive(None, PEER, GENERATION, &offer(0), true), PacketRoute::Ignore);
    assert_eq!(
        jobs.receive(Some(file_peer()), PEER, GENERATION, &offer(1), true),
        PacketRoute::Reject(TransferError::InvalidStart)
    );
    let dropped = packet(
        0,
        FileTransferBody::OfferToFolder {
            entries: vec![file("a", 1)],
            drop: FolderDropPoint { x: 0, y: 0 },
        },
    );
    assert_eq!(
        jobs.receive(Some(file_peer()), PEER, GENERATION, &dropped, false),
        PacketRoute::Reject(TransferError::FolderUnsupported)
    );
    assert_eq!(
        jobs.receive(Some(file_peer()), PEER, GENERATION, &offer(0), true),
        PacketRoute::Start
    );
    assert_eq!(
        jobs.receive(Some(file_peer()), PEER, GENERATION, &offer(0), true),
        PacketRoute::Reject(TransferError::DuplicateTransfer)
    );
    let received = packet(3, FileTransferBody::Received);
    assert_eq!(
        jobs.receive(Some(file_peer()), PEER, GENERATION, &received, true),
        PacketRoute::Deliver
    );
    assert_eq!(
        jobs.receive(Some(file_peer()), DeviceId(99), GENERATION, &received, true),
        PacketRoute::Ignore
    );
    let cancel = packet(3, FileTransferBody::Cancel { reason: "no".to_string() });
    assert_eq!(
        jobs.receive(Some(file_peer()), PEER, GENERATION, &cancel, true),
        PacketRoute::Stop
    );
}

#[test]
fn sending_needs_a_peer_that_takes_files() {
    assert_eq!(check_send(0, Some(file_peer()), false), Err(TransferError::EntryCount));
    assert_eq!(check_send(1, None, false), Err(TransferError::NotConnected));
    let old = FilePeer { file_transfer_version: 0, ..file_peer() };
    assert_eq!(check_send(1, Some(old), false), Err(TransferError::Unsupported));
    let plain = FilePeer { folder_drop_version: 0, ..file_peer() };
    assert_eq!(
        check_send(1, Some(plain), true),
        Err(TransferError::FolderUnsupportedByPeer)
    );
    assert_eq!(check_send(1, Some(plain), false), Ok(()));
    assert_eq!(check_connection(Some(GENERATION), GENERATION), Ok(()));
    assert_eq!(check_connection(None, GENERATION), Err(TransferError::ConnectionLost));
    assert_eq!(
        check_connection(Some(ControlConnectionId(1)), GENERATION),
        Err(TransferError::ConnectionReplaced)
    );
    assert_eq!(peer_cancel_reason("busy"), "远端取消：busy");
    assert_eq!(peer_cancel_reason(&"x".repeat(300)).chars().count(), 5 + 240);
    assert_eq!(final_status(true, true), FileTransferStatus::Completed);
    assert_eq!(final_status(false, true), FileTransferStatus::Cancelled);
    assert_eq!(final_status(false, false), FileTransferStatus::Failed);
}

#[test]
fn copies_are_numbered_before_the_extension() {
    assert_eq!(copy_name("a.txt", false, 1), "a.txt");
    assert_eq!(copy_name("a.txt", false, 2), "a (2).txt");
    assert_eq!(copy_name("a.tar.gz", false, 10), "a.tar (10).gz");
    assert_eq!(copy_name(".profile", false, 3), ".profile (3)");
    assert_eq!(copy_name("d.d", true, 2), "d.d (2)");
}

#[test]
fn sources_are_walked_and_sorted() {
    let mut walk = SourceWalk::new();
    assert_eq!(
        walk.add_root("r".to_string(), false, Some("r".to_string())),
        Err(TransferError::RelativeSource)
    );
    assert_eq!(
        walk.add_root("/r".to_string(), true, None),
        Err(TransferError::InvalidName)
    );
    walk.add_root("/r".to_string(), true, Some("r".to_string())).unwrap();
    let (path, place) = walk.next().unwrap();
    assert_eq!(walk.visit(path, place.clone(), SourceKind::Directory), Ok(true));
    walk.add_child(&place, "/r/b".to_string(), "b").unwrap();
    walk.add_child(&place, "/r/a".to_string(), "a").unwrap();
    while let Some((path, place)) = walk.next() {
        assert_eq!(walk.visit(path, place, SourceKind::File { size: 1 }), Ok(false));
    }
    let places: Vec<String> = walk.finish().into_iter().map(|(entry, _)| entry.path).collect();
    assert_eq!(places, vec!["r", "r/a", "r/b"]);

    let mut walk = SourceWalk::new();
    for path in ["/1/x", "/2/x", "/0/a", "/3/x"] {
        let place = path[3..].to_string();
        assert_eq!(walk.visit(path.to_string(), place, SourceKind::File { size: 1 }), Ok(false));
    }
    let paths: Vec<String> = walk.finish().into_iter().map(|(_, path)| path).collect();
    assert_eq!(paths, vec!["/0/a", "/1/x", "/2/x", "/3/x"]);

    let mut walk = SourceWalk::new();
    assert_eq!(
        walk.visit("/x".to_string(), "x".to_string(), SourceKind::Other),
        Err(TransferError::NotRegular)
    );
    let deep = "x".repeat(MAX_PATH_BYTES + 1);
    assert_eq!(
        walk.visit("/x".to_string(), deep, SourceKind::Directory),
        Err(TransferError::TooDeep)
    );
}

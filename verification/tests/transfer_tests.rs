use sftp_client::manager::{
    cancel_transfer, start_download, start_transfer, start_upload, TransferManager,
};
use sftp_client::session::{connect_sftp, ConnectionPool};
use sftp_client::transfer::{
    Directive, Transfer, TransferEvent, TransferInput, TransferKind, TransferState, CHUNK_SIZE,
};
use sftp_client::types::{ConnectionConfig, ErrorKind};

const MIB: u64 = 1024 * 1024;

fn config() -> ConnectionConfig {
    ConnectionConfig {
        host: "localhost".to_string(),
        port: 2222,
        username: "foo".to_string(),
        private_key_path: None,
        passphrase: None,
        password: Some("pass".to_string()),
    }
}

fn pool_with_session() -> (ConnectionPool<u32>, String) {
    let mut pool: ConnectionPool<u32> = ConnectionPool::new();
    let id = connect_sftp(&mut pool, config(), Ok(1)).ok().unwrap();
    (pool, id)
}

fn upload() -> Transfer {
    Transfer::new(
        "t-1".to_string(),
        TransferKind::Upload,
        "s-1".to_string(),
        "/tmp/a.bin".to_string(),
        "/upload/a.bin".to_string(),
    )
}

fn download() -> Transfer {
    Transfer::new(
        "t-2".to_string(),
        TransferKind::Download,
        "s-1".to_string(),
        "/tmp/b.bin".to_string(),
        "/upload/b.bin".to_string(),
    )
}

fn is_terminal_event(e: &TransferEvent) -> bool {
    !matches!(e, TransferEvent::Progress { .. })
}

/// Runs a transfer over a source of `size` bytes; the flag goes up before
/// the chunk with index `cancel_before`, if any.
fn drive(t: &mut Transfer, size: u64, cancel_before: Option<u64>) -> (Vec<TransferEvent>, Directive) {
    let mut events = Vec::new();
    let mut left = size;
    let mut chunk_index = 0u64;
    let mut step = t.step(TransferInput::Opened { total: Some(size) });
    loop {
        if let Some(e) = step.event.take() {
            events.push(e);
        }
        match step.directive {
            Directive::Open => panic!("opened twice"),
            Directive::CheckFlag => {
                let cancel_requested = cancel_before.map_or(false, |k| chunk_index >= k);
                step = t.step(TransferInput::Flag { cancel_requested });
            }
            Directive::CopyChunk => {
                if left == 0 {
                    step = t.step(TransferInput::Exhausted);
                } else {
                    let len = left.min(CHUNK_SIZE as u64);
                    left -= len;
                    chunk_index += 1;
                    step = t.step(TransferInput::Chunk { len });
                }
            }
            Directive::Stop { .. } => return (events, step.directive),
        }
    }
}

#[test]
fn chunk_size_is_eight_kib() {
    assert_eq!(CHUNK_SIZE, 8192);
}

#[test]
fn new_transfer_is_pending() {
    let t = upload();
    assert_eq!(t.state, TransferState::Pending);
    assert_eq!(t.transferred, 0);
    assert_eq!(t.total, 0);
    assert_eq!(t.directive(), Directive::Open);
    assert!(!t.state.is_terminal());
    assert!(!t.state.is_running());
}

#[test]
fn upload_of_ten_mib_advances_in_chunks() {
    let mut t = upload();
    let (events, last) = drive(&mut t, 10 * MIB, None);
    assert_eq!(events.len(), 1280 + 1);
    for (i, e) in events.iter().take(1280).enumerate() {
        match e {
            TransferEvent::Progress { connection_id, path, transferred, total, kind, transfer_id } => {
                assert_eq!(*transferred, (i as u64 + 1) * 8192);
                assert_eq!(*total, 10 * MIB);
                assert_eq!(connection_id, "s-1");
                assert_eq!(path, "/upload/a.bin");
                assert_eq!(*kind, TransferKind::Upload);
                assert_eq!(transfer_id, "t-1");
            }
            _ => panic!("expected progress"),
        }
    }
    match &events[1280] {
        TransferEvent::Finished { connection_id, path, kind, transfer_id } => {
            assert_eq!(connection_id, "s-1");
            assert_eq!(path, "/upload/a.bin");
            assert_eq!(*kind, TransferKind::Upload);
            assert_eq!(transfer_id, "t-1");
        }
        _ => panic!("expected finished"),
    }
    assert_eq!(last, Directive::Stop { remove_local: false });
    assert_eq!(t.state, TransferState::Completed);
    assert_eq!(t.transferred, 10 * MIB);
    assert_eq!(t.total, 10 * MIB);
}

#[test]
fn cancelled_upload_leaves_the_remote_file() {
    let mut t = upload();
    let (events, last) = drive(&mut t, 10 * MIB, Some(3));
    assert_eq!(events.len(), 4);
    assert_eq!(events.iter().filter(|e| is_terminal_event(e)).count(), 1);
    match &events[3] {
        TransferEvent::Cancelled { transfer_id, kind } => {
            assert_eq!(transfer_id, "t-1");
            assert_eq!(*kind, TransferKind::Upload);
        }
        _ => panic!("expected cancelled"),
    }
    assert_eq!(last, Directive::Stop { remove_local: false });
    assert_eq!(t.state, TransferState::Cancelled);
    assert_eq!(t.transferred, 3 * 8192);
}

#[test]
fn cancelled_download_removes_the_local_file() {
    let mut t = download();
    let (events, last) = drive(&mut t, 10 * MIB, Some(0));
    assert_eq!(events.len(), 1);
    assert!(matches!(&events[0], TransferEvent::Cancelled { transfer_id, kind }
        if transfer_id == "t-2" && *kind == TransferKind::Download));
    assert_eq!(last, Directive::Stop { remove_local: true });
    assert_eq!(t.state, TransferState::Cancelled);
}

#[test]
fn cancel_after_the_last_chunk_still_completes() {
    let mut t = download();
    let (events, last) = drive(&mut t, 3 * 8192, Some(3));
    assert_eq!(events.len(), 4);
    assert!(matches!(&events[3], TransferEvent::Finished { .. }));
    assert_eq!(last, Directive::Stop { remove_local: false });
    assert_eq!(t.state, TransferState::Completed);
    assert_eq!(t.transferred, t.total);
}

#[test]
fn empty_source_completes_without_progress() {
    let mut t = upload();
    let (events, last) = drive(&mut t, 0, None);
    assert_eq!(events.len(), 1);
    assert!(matches!(&events[0], TransferEvent::Finished { .. }));
    assert_eq!(last, Directive::Stop { remove_local: false });
    assert_eq!(t.state, TransferState::Completed);
    assert_eq!(t.transferred, 0);
}

#[test]
fn cancelled_empty_source_is_cancelled() {
    let mut t = upload();
    let (events, last) = drive(&mut t, 0, Some(0));
    assert_eq!(events.len(), 1);
    assert!(matches!(&events[0], TransferEvent::Cancelled { transfer_id, kind }
        if transfer_id == "t-1" && *kind == TransferKind::Upload));
    assert_eq!(last, Directive::Stop { remove_local: false });
    assert_eq!(t.state, TransferState::Cancelled);

    let mut d = download();
    let (events, last) = drive(&mut d, 0, Some(0));
    assert_eq!(events.len(), 1);
    assert!(matches!(&events[0], TransferEvent::Cancelled { .. }));
    assert_eq!(last, Directive::Stop { remove_local: true });
    assert_eq!(d.state, TransferState::Cancelled);
}

#[test]
fn flag_up_at_the_start_moves_nothing() {
    let mut t = upload();
    let (events, last) = drive(&mut t, 10 * MIB, Some(0));
    assert_eq!(events.len(), 1);
    assert!(matches!(&events[0], TransferEvent::Cancelled { transfer_id, kind }
        if transfer_id == "t-1" && *kind == TransferKind::Upload));
    assert_eq!(last, Directive::Stop { remove_local: false });
    assert_eq!(t.transferred, 0);
    assert_eq!(t.state, TransferState::Cancelled);
}

#[test]
fn one_cancelled_of_one_gives_one_cancelled_event() {
    let (pool, session) = pool_with_session();
    for size in [0u64, 1, 8192, 3 * 8192] {
        let mut manager = TransferManager::new();
        let mut t = start_upload(&mut manager, &pool, &session, "l".to_string(), "r".to_string()).ok().unwrap();
        assert!(cancel_transfer(&mut manager, &t.id).is_ok());
        t.step(TransferInput::Opened { total: Some(size) });
        let s = manager.poll(&mut t);
        assert!(matches!(s.event, Some(TransferEvent::Cancelled { .. })));
        assert_eq!(t.state, TransferState::Cancelled);
        assert!(manager.settle(&t));
    }
}

#[test]
fn first_transfer_of_a_manager_starts() {
    let (pool, session) = pool_with_session();
    let mut manager = TransferManager::new();
    let t = start_upload(&mut manager, &pool, &session, "l".to_string(), "r".to_string());
    assert!(t.is_ok());
    assert_eq!(t.ok().unwrap().id.chars().count(), 36);
    let mut other = TransferManager::new();
    let d = start_download(&mut other, &pool, &session, "r".to_string(), "l".to_string());
    assert!(d.is_ok());
    assert_eq!(d.ok().unwrap().id.chars().count(), 36);
}

#[test]
fn last_chunk_may_be_short() {
    let mut t = upload();
    let (events, _) = drive(&mut t, 8192 + 100, None);
    assert_eq!(events.len(), 3);
    assert!(matches!(&events[0], TransferEvent::Progress { transferred: 8192, total: 8292, .. }));
    assert!(matches!(&events[1], TransferEvent::Progress { transferred: 8292, total: 8292, .. }));
    assert!(matches!(&events[2], TransferEvent::Finished { .. }));
}

#[test]
fn unknown_size_can_still_be_cancelled() {
    let mut t = download();
    let s = t.step(TransferInput::Opened { total: None });
    assert!(s.event.is_none());
    assert_eq!(s.directive, Directive::CheckFlag);
    assert_eq!(t.total, 0);
    assert!(!t.total_known);
    let s = t.step(TransferInput::Flag { cancel_requested: false });
    assert_eq!(s.directive, Directive::CopyChunk);
    let s = t.step(TransferInput::Chunk { len: 8192 });
    assert!(matches!(s.event, Some(TransferEvent::Progress { transferred: 8192, total: 0, .. })));
    let s = t.step(TransferInput::Flag { cancel_requested: true });
    assert!(matches!(s.event, Some(TransferEvent::Cancelled { .. })));
    assert_eq!(s.directive, Directive::Stop { remove_local: true });
}

#[test]
fn failure_ends_a_transfer() {
    let mut t = download();
    t.step(TransferInput::Opened { total: Some(100) });
    t.step(TransferInput::Flag { cancel_requested: false });
    let s = t.step(TransferInput::Failure { message: "Read error: reset".to_string() });
    match s.event {
        Some(TransferEvent::Error { transfer_id, error, kind }) => {
            assert_eq!(transfer_id, "t-2");
            assert_eq!(error, "Read error: reset");
            assert_eq!(kind, TransferKind::Download);
        }
        _ => panic!("expected error"),
    }
    assert_eq!(s.directive, Directive::Stop { remove_local: true });
    assert_eq!(t.state, TransferState::Failed);

    let mut u = upload();
    let s = u.step(TransferInput::Failure { message: "Failed to open local file: x".to_string() });
    assert!(matches!(s.event, Some(TransferEvent::Error { .. })));
    assert_eq!(s.directive, Directive::Stop { remove_local: false });
    assert_eq!(u.state, TransferState::Failed);
}

#[test]
fn nothing_leads_out_of_an_ended_transfer() {
    let mut t = upload();
    drive(&mut t, 8192, None);
    assert_eq!(t.state, TransferState::Completed);
    let inputs = vec![
        TransferInput::Opened { total: Some(5) },
        TransferInput::Flag { cancel_requested: true },
        TransferInput::Chunk { len: 5 },
        TransferInput::Exhausted,
        TransferInput::Failure { message: "late".to_string() },
    ];
    for input in inputs {
        let s = t.step(input);
        assert!(s.event.is_none());
        assert_eq!(s.directive, Directive::Stop { remove_local: false });
        assert_eq!(t.state, TransferState::Completed);
        assert_eq!(t.transferred, 8192);
        assert_eq!(t.total, 8192);
    }
}

#[test]
fn inputs_out_of_turn_change_nothing() {
    let mut t = upload();
    let s = t.step(TransferInput::Chunk { len: 10 });
    assert!(s.event.is_none());
    assert_eq!(s.directive, Directive::Open);
    let s = t.step(TransferInput::Flag { cancel_requested: true });
    assert!(s.event.is_none());
    assert_eq!(s.directive, Directive::Open);
    assert_eq!(t.state, TransferState::Pending);
    t.step(TransferInput::Opened { total: Some(10) });
    let s = t.step(TransferInput::Exhausted);
    assert!(s.event.is_none());
    assert_eq!(s.directive, Directive::CheckFlag);
    assert_eq!(t.state, TransferState::Ready);
    assert!(t.state.is_running());
    let s = t.step(TransferInput::Opened { total: Some(99) });
    assert!(s.event.is_none());
    assert_eq!(t.total, 10);
}

#[test]
fn byte_count_out_of_range_fails_the_transfer() {
    let mut t = upload();
    t.step(TransferInput::Opened { total: None });
    t.transferred = u64::MAX - 10;
    t.step(TransferInput::Flag { cancel_requested: false });
    let s = t.step(TransferInput::Chunk { len: 10 });
    assert!(matches!(s.event, Some(TransferEvent::Progress { transferred: u64::MAX, .. })));
    t.step(TransferInput::Flag { cancel_requested: false });
    let s = t.step(TransferInput::Chunk { len: 1 });
    match s.event {
        Some(TransferEvent::Error { error, .. }) => {
            assert_eq!(error, "Transferred byte count out of range")
        }
        _ => panic!("expected error"),
    }
    assert_eq!(t.state, TransferState::Failed);
    assert_eq!(t.transferred, u64::MAX);
}

#[test]
fn oversized_chunk_fails_the_transfer() {
    let mut t = download();
    t.step(TransferInput::Opened { total: Some(100_000) });
    t.step(TransferInput::Flag { cancel_requested: false });
    let s = t.step(TransferInput::Chunk { len: 8193 });
    match s.event {
        Some(TransferEvent::Error { error, kind, .. }) => {
            assert_eq!(error, "Chunk exceeds the chunk size");
            assert_eq!(kind, TransferKind::Download);
        }
        _ => panic!("expected error"),
    }
    assert_eq!(s.directive, Directive::Stop { remove_local: true });
    assert_eq!(t.state, TransferState::Failed);
    assert_eq!(t.transferred, 0);

    let mut u = upload();
    u.step(TransferInput::Opened { total: Some(100_000) });
    u.step(TransferInput::Flag { cancel_requested: false });
    let s = u.step(TransferInput::Chunk { len: 8192 });
    assert!(matches!(s.event, Some(TransferEvent::Progress { transferred: 8192, .. })));
}

#[test]
fn start_upload_registers_a_pending_transfer() {
    let (pool, session) = pool_with_session();
    let mut manager = TransferManager::new();
    let t = start_upload(&mut manager, &pool, &session, "/tmp/a.bin".to_string(), "/upload/a.bin".to_string())
        .ok()
        .unwrap();
    assert_eq!(t.kind, TransferKind::Upload);
    assert_eq!(t.connection_id, session);
    assert_eq!(t.local_path, "/tmp/a.bin");
    assert_eq!(t.remote_path, "/upload/a.bin");
    assert_eq!(t.state, TransferState::Pending);
    assert!(manager.is_registered(&t.id));
    assert!(!manager.is_cancel_requested(&t.id));
}

#[test]
fn start_download_registers_a_pending_transfer() {
    let (pool, session) = pool_with_session();
    let mut manager = TransferManager::new();
    let t = start_download(&mut manager, &pool, &session, "/upload/b.bin".to_string(), "/tmp/b.bin".to_string())
        .ok()
        .unwrap();
    assert_eq!(t.kind, TransferKind::Download);
    assert_eq!(t.local_path, "/tmp/b.bin");
    assert_eq!(t.remote_path, "/upload/b.bin");
    assert!(manager.is_registered(&t.id));
}

#[test]
fn start_on_unknown_session_is_not_found() {
    let (pool, _) = pool_with_session();
    let mut manager = TransferManager::new();
    let e = start_upload(&mut manager, &pool, "nobody", "a".to_string(), "b".to_string()).err().unwrap();
    assert_eq!(e.kind(), ErrorKind::NotFound);
    let e = start_download(&mut manager, &pool, "nobody", "a".to_string(), "b".to_string()).err().unwrap();
    assert_eq!(e.kind(), ErrorKind::NotFound);
}

#[test]
fn transfer_identifiers_are_distinct() {
    let (pool, session) = pool_with_session();
    let mut manager = TransferManager::new();
    let mut seen: Vec<String> = Vec::new();
    for _ in 0..40 {
        let t = start_upload(&mut manager, &pool, &session, "l".to_string(), "r".to_string()).ok().unwrap();
        assert!(!seen.contains(&t.id));
        seen.push(t.id);
    }
}

#[test]
fn a_transfer_identifier_is_issued_once() {
    let (pool, session) = pool_with_session();
    let mut manager = TransferManager::new();
    let t = start_transfer(
        &mut manager,
        &pool,
        "t-9".to_string(),
        TransferKind::Upload,
        &session,
        "l".to_string(),
        "r".to_string(),
    )
    .ok()
    .unwrap();
    assert_eq!(t.id, "t-9");
    assert!(manager.release("t-9"));
    let e = start_transfer(
        &mut manager,
        &pool,
        "t-9".to_string(),
        TransferKind::Download,
        &session,
        "l".to_string(),
        "r".to_string(),
    )
    .err()
    .unwrap();
    assert_eq!(e.kind(), ErrorKind::Io);
    assert_eq!(e.message(), "Transfer identifier already issued");
    assert!(!manager.is_registered("t-9"));
    let e = manager
        .register("t-9".to_string(), TransferKind::Upload, session.clone(), "l".to_string(), "r".to_string())
        .err()
        .unwrap();
    assert_eq!(e.kind(), ErrorKind::Io);
}

#[test]
fn cancel_raises_the_flag_for_good() {
    let (pool, session) = pool_with_session();
    let mut manager = TransferManager::new();
    let a = start_upload(&mut manager, &pool, &session, "l".to_string(), "r".to_string()).ok().unwrap();
    let b = start_upload(&mut manager, &pool, &session, "l".to_string(), "r".to_string()).ok().unwrap();
    assert!(cancel_transfer(&mut manager, &a.id).is_ok());
    assert!(manager.is_cancel_requested(&a.id));
    assert!(!manager.is_cancel_requested(&b.id));
    assert!(cancel_transfer(&mut manager, &a.id).is_ok());
    assert!(manager.is_cancel_requested(&a.id));
    assert!(manager.cancel(&b.id).is_ok());
    assert!(manager.is_cancel_requested(&b.id));
}

#[test]
fn cancel_of_an_ended_transfer_is_not_found() {
    let (pool, session) = pool_with_session();
    let mut manager = TransferManager::new();
    let t = start_upload(&mut manager, &pool, &session, "l".to_string(), "r".to_string()).ok().unwrap();
    assert!(manager.release(&t.id));
    assert!(!manager.release(&t.id));
    let e = cancel_transfer(&mut manager, &t.id).err().unwrap();
    assert_eq!(e.kind(), ErrorKind::NotFound);
    assert!(!manager.is_cancel_requested(&t.id));
    let e = cancel_transfer(&mut manager, "unknown").err().unwrap();
    assert_eq!(e.kind(), ErrorKind::NotFound);
}

#[test]
fn cancelling_some_of_many_transfers() {
    let (pool, session) = pool_with_session();
    let mut manager = TransferManager::new();
    let n = 7usize;
    let k = 3usize;
    let mut transfers: Vec<Transfer> = Vec::new();
    for _ in 0..n {
        transfers.push(start_upload(&mut manager, &pool, &session, "l".to_string(), "r".to_string()).ok().unwrap());
    }
    for t in transfers.iter().take(k) {
        assert!(cancel_transfer(&mut manager, &t.id).is_ok());
    }
    let mut cancelled = 0;
    let mut finished = 0;
    let mut terminal_by_id: Vec<String> = Vec::new();
    for t in transfers.iter_mut() {
        let flag = manager.is_cancel_requested(&t.id);
        let (events, _) = drive(t, 5 * 8192, if flag { Some(2) } else { None });
        for e in events {
            match e {
                TransferEvent::Cancelled { transfer_id, .. } => {
                    cancelled += 1;
                    terminal_by_id.push(transfer_id);
                }
                TransferEvent::Finished { transfer_id, .. } => {
                    finished += 1;
                    terminal_by_id.push(transfer_id);
                }
                TransferEvent::Error { .. } => panic!("no failure expected"),
                TransferEvent::Progress { .. } => {}
            }
        }
        assert!(manager.release(&t.id));
    }
    assert_eq!(cancelled, k);
    assert_eq!(finished, n - k);
    let mut unique = terminal_by_id.clone();
    unique.sort();
    unique.dedup();
    assert_eq!(unique.len(), n);
}

#[test]
fn progress_never_falls_and_ends_at_the_total() {
    let mut t = download();
    let (events, _) = drive(&mut t, 100_000, None);
    let mut last = 0u64;
    for e in &events {
        if let TransferEvent::Progress { transferred, total, .. } = e {
            assert!(*transferred >= last);
            assert_eq!(*total, 100_000);
            last = *transferred;
        }
    }
    assert_eq!(last, 100_000);
    assert!(matches!(events.last(), Some(TransferEvent::Finished { .. })));
}

#[test]
fn manager_shows_a_transfer_its_flag() {
    let (pool, session) = pool_with_session();
    let mut manager = TransferManager::new();
    let mut t = start_download(&mut manager, &pool, &session, "r".to_string(), "l".to_string()).ok().unwrap();
    t.step(TransferInput::Opened { total: Some(3 * 8192) });
    let s = manager.poll(&mut t);
    assert_eq!(s.directive, Directive::CopyChunk);
    assert!(!manager.settle(&t));
    assert!(manager.is_registered(&t.id));
    t.step(TransferInput::Chunk { len: 8192 });
    assert!(cancel_transfer(&mut manager, &t.id).is_ok());
    let s = manager.poll(&mut t);
    assert!(matches!(s.event, Some(TransferEvent::Cancelled { .. })));
    assert_eq!(s.directive, Directive::Stop { remove_local: true });
    assert!(manager.settle(&t));
    assert!(!manager.is_registered(&t.id));
    assert_eq!(cancel_transfer(&mut manager, &t.id).err().unwrap().kind(), ErrorKind::NotFound);
}

#[test]
fn outcome_tells_how_a_transfer_ended() {
    let mut t = upload();
    assert!(t.outcome().is_none());
    t.step(TransferInput::Opened { total: Some(8192) });
    assert!(t.outcome().is_none());
    drive_rest(&mut t, 8192, None);
    assert!(matches!(t.outcome(), Some(Ok(()))));

    let mut c = download();
    c.step(TransferInput::Opened { total: Some(8192) });
    c.step(TransferInput::Flag { cancel_requested: true });
    let e = c.outcome().unwrap().err().unwrap();
    assert_eq!(e.kind(), ErrorKind::Cancelled);
    assert_eq!(e.message(), "Transfer cancelled");

    let mut f = download();
    f.step(TransferInput::Failure { message: "Failed to open remote file: no such file".to_string() });
    let e = f.outcome().unwrap().err().unwrap();
    assert_eq!(e.kind(), ErrorKind::Io);
    assert_eq!(e.message(), "Failed to open remote file: no such file");
    assert_eq!(f.failure.as_deref(), Some("Failed to open remote file: no such file"));
}

fn drive_rest(t: &mut Transfer, size: u64, cancel_at: Option<u64>) {
    let mut left = size;
    let mut moved = 0u64;
    loop {
        match t.directive() {
            Directive::CheckFlag => {
                let cancel_requested = cancel_at.map_or(false, |k| moved >= k);
                t.step(TransferInput::Flag { cancel_requested });
            }
            Directive::CopyChunk => {
                if left == 0 {
                    t.step(TransferInput::Exhausted);
                } else {
                    let len = left.min(CHUNK_SIZE as u64);
                    left -= len;
                    moved += len;
                    t.step(TransferInput::Chunk { len });
                }
            }
            _ => return,
        }
    }
}

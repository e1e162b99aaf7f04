use sftp_client::shell::{decimal, describe_age, format_timestamp, resolve_path};
use sftp_client::transfer::{Transfer, TransferEvent, TransferInput, TransferKind};

#[test]
fn absolute_path_names_itself() {
    assert_eq!(resolve_path("/etc/ssh", "/home/foo"), "/etc/ssh");
    assert_eq!(resolve_path("/", "/home/foo"), "/");
}

#[test]
fn dot_names_the_current_directory() {
    assert_eq!(resolve_path(".", "/home/foo"), "/home/foo");
}

#[test]
fn dot_dot_names_the_parent() {
    assert_eq!(resolve_path("..", "/home/foo"), "/home");
    assert_eq!(resolve_path("..", "/home"), "/");
    assert_eq!(resolve_path("..", "/"), "/");
    assert_eq!(resolve_path("..", "home"), "/");
    assert_eq!(resolve_path("..", ""), "/");
    assert_eq!(resolve_path("..", "/home/foo/"), "/home/foo");
    assert_eq!(resolve_path("..", "a/b"), "a");
}

#[test]
fn relative_path_goes_below_the_current_directory() {
    assert_eq!(resolve_path("docs", "/home/foo"), "/home/foo/docs");
    assert_eq!(resolve_path("docs", "/home/foo///"), "/home/foo/docs");
    assert_eq!(resolve_path("docs/a.txt", "/"), "/docs/a.txt");
    assert_eq!(resolve_path("", "/home"), "/home/");
    assert_eq!(resolve_path("...", "/home"), "/home/...");
    assert_eq!(resolve_path("../x", "/home/foo"), "/home/foo/../x");
}

#[test]
fn numbers_in_decimal() {
    assert_eq!(decimal(0), "0");
    assert_eq!(decimal(7), "7");
    assert_eq!(decimal(10), "10");
    assert_eq!(decimal(1234567890), "1234567890");
    assert_eq!(decimal(u64::MAX), "18446744073709551615");
}

#[test]
fn ages_in_words() {
    assert_eq!(describe_age(100, 100), "0s ago");
    assert_eq!(describe_age(100, 159), "59s ago");
    assert_eq!(describe_age(100, 160), "1m ago");
    assert_eq!(describe_age(0, 3599), "59m ago");
    assert_eq!(describe_age(0, 3600), "1h ago");
    assert_eq!(describe_age(0, 86399), "23h ago");
    assert_eq!(describe_age(0, 86400), "1d ago");
    assert_eq!(describe_age(0, 10 * 86400 + 5), "10d ago");
    assert_eq!(describe_age(101, 100), "future");
}

#[test]
fn timestamps_seen_now() {
    assert_eq!(format_timestamp(u64::MAX), "future");
    let old = format_timestamp(86400);
    assert!(old.ends_with("d ago"));
}

#[test]
fn events_name_their_channel() {
    let mut up = Transfer::new(
        "t".to_string(),
        TransferKind::Upload,
        "s".to_string(),
        "l".to_string(),
        "r".to_string(),
    );
    up.step(TransferInput::Opened { total: Some(4) });
    up.step(TransferInput::Flag { cancel_requested: false });
    let e = up.step(TransferInput::Chunk { len: 4 }).event.unwrap();
    assert_eq!(e.channel(), "upload_progress");
    assert!(!e.is_terminal());
    up.step(TransferInput::Flag { cancel_requested: false });
    let e = up.step(TransferInput::Exhausted).event.unwrap();
    assert_eq!(e.channel(), "process_finished");
    assert!(e.is_terminal());

    let mut down = Transfer::new(
        "t".to_string(),
        TransferKind::Download,
        "s".to_string(),
        "l".to_string(),
        "r".to_string(),
    );
    down.step(TransferInput::Opened { total: Some(4) });
    down.step(TransferInput::Flag { cancel_requested: false });
    let e = down.step(TransferInput::Chunk { len: 2 }).event.unwrap();
    assert_eq!(e.channel(), "download_progress");
    let e = down.step(TransferInput::Flag { cancel_requested: true }).event.unwrap();
    assert_eq!(e.channel(), "transfer_cancelled");
    assert!(matches!(e, TransferEvent::Cancelled { .. }));

    let mut bad = Transfer::new(
        "t".to_string(),
        TransferKind::Download,
        "s".to_string(),
        "l".to_string(),
        "r".to_string(),
    );
    let e = bad.step(TransferInput::Failure { message: "m".to_string() }).event.unwrap();
    assert_eq!(e.channel(), "transfer_error");
    assert_eq!(TransferKind::Upload.label(), "upload");
    assert_eq!(TransferKind::Download.label(), "download");
}

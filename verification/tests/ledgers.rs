use maid::domain::Notification;
use maid::handled_marker::{
    temp_file_name, FilePendingHandledMarkerStore, MemoryPendingHandledMarkerStore,
    PendingHandledMarker, PendingHandledMarkerLedger, PendingHandledMarkerStore,
};
use maid::observed_notification::{
    FileObservedNotificationStore, MemoryObservedNotificationStore, ObservedNotificationLedger,
    ObservedNotificationRecord, ObservedNotificationStore,
};
use std::collections::BTreeMap;
use std::io::{Read, Seek, Write};

fn write(file: &mut tempfile::NamedTempFile, contents: &str) {
    file.as_file().set_len(0).unwrap();
    file.rewind().unwrap();
    file.write_all(contents.as_bytes()).unwrap();
}

fn read(file: &mut tempfile::NamedTempFile) -> String {
    let mut contents = String::new();
    file.rewind().unwrap();
    file.read_to_string(&mut contents).unwrap();
    contents
}

fn save_markers(file: &mut tempfile::NamedTempFile, ledger: &PendingHandledMarkerLedger) {
    let (mentions, pull_requests) = ledger.urls();
    let contents = BTreeMap::from([
        ("mention_api_urls", mentions),
        ("pull_request_html_urls", pull_requests),
    ]);
    write(file, &serde_json::to_string(&contents).unwrap());
}

fn load_markers(file: &mut tempfile::NamedTempFile) -> PendingHandledMarkerLedger {
    let contents: BTreeMap<String, Vec<String>> = serde_json::from_str(&read(file)).unwrap();
    PendingHandledMarkerLedger::from_urls(
        &contents["mention_api_urls"],
        &contents["pull_request_html_urls"],
    )
}

#[test]
fn file_store_persists_pending_markers() {
    let mut file = tempfile::NamedTempFile::new().unwrap();
    let marker = PendingHandledMarker::PullRequest {
        html_url: "https://github.com/o/r/pull/1".to_string(),
    };

    let mut ledger = PendingHandledMarkerLedger::new();
    ledger.insert(&marker);
    save_markers(&mut file, &ledger);

    let mut reloaded = load_markers(&mut file);
    assert!(reloaded.contains(&marker));

    reloaded.remove(&marker);
    save_markers(&mut file, &reloaded);
    assert!(!load_markers(&mut file).contains(&marker));
}

fn mention_marker(number: u64) -> PendingHandledMarker {
    PendingHandledMarker::Mention {
        api_url: format!("https://api.github.com/{number}"),
    }
}

#[test]
fn markers_are_kept_once_and_in_order() {
    let mut store = MemoryPendingHandledMarkerStore::new();
    let pull_request = PendingHandledMarker::PullRequest {
        html_url: "a".to_string(),
    };
    for marker in [
        &mention_marker(2),
        &pull_request,
        &mention_marker(1),
        &mention_marker(2),
    ] {
        store.record(marker).unwrap();
    }

    assert_eq!(
        store.pending().unwrap(),
        vec![mention_marker(1), mention_marker(2), pull_request.clone()]
    );
    assert_eq!(store.contains(&pull_request), Ok(true));
    store.remove(&pull_request).unwrap();
    assert_eq!(store.contains(&pull_request), Ok(false));
    assert_eq!(store.contains(&mention_marker(1)), Ok(true));
}

#[test]
fn ledgers_know_their_files() {
    assert_eq!(FilePendingHandledMarkerStore::new("/a/b").path(), "/a/b");
    assert_eq!(FileObservedNotificationStore::new("/a/c").path(), "/a/c");
    assert_eq!(
        temp_file_name(Some("pending-handled-markers.json")),
        ".pending-handled-markers.json.tmp"
    );
}

fn notification(id: &str, updated_at: &str) -> Notification {
    Notification {
        id: id.to_string(),
        reason: "mention".to_string(),
        subject_kind: "PullRequest".to_string(),
        subject_url: Some("https://api.github.com/repos/o/r/pulls/1".to_string()),
        latest_comment_url: Some("https://api.github.com/repos/o/r/issues/comments/1".to_string()),
        unread: false,
        updated_at: updated_at.to_string(),
    }
}

fn save_observed(file: &mut tempfile::NamedTempFile, ledger: &ObservedNotificationLedger) {
    let mut contents: BTreeMap<String, (String, Option<String>)> = BTreeMap::new();
    for at in 0..ledger.len() {
        let (id, record) = ledger.entry(at);
        contents.insert(
            id.to_string(),
            (record.updated_at.clone(), record.latest_comment_url.clone()),
        );
    }
    write(file, &serde_json::to_string(&contents).unwrap());
}

fn load_observed(file: &mut tempfile::NamedTempFile) -> ObservedNotificationLedger {
    let contents: BTreeMap<String, (String, Option<String>)> =
        serde_json::from_str(&read(file)).unwrap();
    let mut ledger = ObservedNotificationLedger::new();
    for (id, (updated_at, latest_comment_url)) in contents {
        ledger.put(
            &id,
            ObservedNotificationRecord {
                updated_at,
                latest_comment_url,
            },
        );
    }
    ledger
}

#[test]
fn file_store_persists_current_notification_observations() {
    let mut file = tempfile::NamedTempFile::new().unwrap();
    let current = notification("n1", "2026-06-08T04:00:00Z");

    let mut ledger = ObservedNotificationLedger::new();
    ledger.record_current(&current);
    save_observed(&mut file, &ledger);

    let reloaded = load_observed(&mut file);
    assert!(reloaded.contains_current(&current));
    assert!(!reloaded.contains_current(&notification("n1", "2026-06-08T04:05:00Z")));
}

#[test]
fn observations_are_current_until_the_notification_changes() {
    let mut store = MemoryObservedNotificationStore::new();
    let first = notification("n1", "2026-06-08T04:00:00Z");
    let later = notification("n1", "2026-06-08T04:05:00Z");
    let mut commented = notification("n1", "2026-06-08T04:00:00Z");
    commented.latest_comment_url = None;

    assert_eq!(store.contains_current(&first), Ok(false));
    store.record_current(&first).unwrap();
    assert_eq!(store.contains_current(&first), Ok(true));
    assert_eq!(store.contains_current(&commented), Ok(false));
    assert_eq!(
        store.contains_current(&notification("n2", "2026-06-08T04:00:00Z")),
        Ok(false)
    );
    store.record_current(&later).unwrap();
    assert_eq!(store.contains_current(&first), Ok(false));
    assert_eq!(store.contains_current(&later), Ok(true));
}

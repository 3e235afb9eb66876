use speakiput::client::{default_socket_path, default_storage_paths, Directories};
use speakiput::contract::dto::HistoryEntry;
use speakiput::contract::ids::Uuid;
use speakiput::contract::settings::Settings;
use speakiput::storage::{
    check_credential, check_credential_id, default_paths, holds_entry, JsonSettingsRepository,
    JsonlHistoryRepository, RevisionedSettings, StorageError,
};

fn entry(index: usize) -> HistoryEntry {
    HistoryEntry {
        session_id: Uuid { bits: uuid::Uuid::new_v4().as_u128() },
        raw_text: format!("raw {index}"),
        processed_text: format!("processed {index}"),
        rewritten_text: None,
        output_text: format!("output {index}"),
        created_at: format!("2026-08-23T21:30:0{index}Z"),
    }
}

fn held(stored: &RevisionedSettings) -> Option<Result<RevisionedSettings, StorageError>> {
    Some(Ok(stored.clone()))
}

#[test]
fn settings_replace_is_atomic_and_revision_checked() {
    let repository = JsonSettingsRepository::new("settings.json".into());
    assert_eq!(repository.load(None).unwrap().revision, 0);
    let updated = repository.replace(None, 0, Settings::default()).unwrap();
    assert_eq!(updated.revision, 1);
    assert!(matches!(
        repository.replace(held(&updated), 0, Settings::default()),
        Err(StorageError::Conflict { current: 1, .. })
    ));
    assert_eq!(repository.load(held(&updated)).unwrap(), updated);
}

#[test]
fn invalid_settings_are_not_written() {
    let repository = JsonSettingsRepository::new("settings.json".into());
    let mut settings = Settings::default();
    settings.general.auto_stop_ms = 0;
    assert!(matches!(
        repository.replace(None, 0, settings.clone()),
        Err(StorageError::Validation { .. })
    ));
    let stored = RevisionedSettings { revision: 3, settings };
    let error = repository.load(held(&stored)).unwrap_err();
    assert_eq!(
        error.message(),
        "settings validation failed at general.auto_stop_ms: must be between 250 and 10000"
    );
}

#[test]
fn history_is_newest_first_paginated_and_clearable() {
    let repository = JsonlHistoryRepository::new("history.jsonl".into());
    let entries = (0..5).map(entry).collect::<Vec<_>>();
    let (first, cursor) = repository.list(entries.clone(), 3, None);
    assert_eq!(first[0].raw_text, "raw 4");
    assert_eq!(cursor.as_deref(), Some("3"));
    let (second, cursor) = repository.list(entries, 3, cursor.as_deref());
    assert_eq!(second.len(), 2);
    assert_eq!(second[1].raw_text, "raw 0");
    assert!(cursor.is_none());
    assert!(repository.list(Vec::new(), 10, None).0.is_empty());
}

#[test]
fn pages_make_up_the_history() {
    let repository = JsonlHistoryRepository::new("history.jsonl".into());
    let entries = (0..7).map(entry).collect::<Vec<_>>();
    let mut all = Vec::new();
    let mut cursor: Option<String> = None;
    loop {
        let (page, next) = repository.list(entries.clone(), 2, cursor.as_deref());
        assert_eq!(page.len(), if next.is_some() { 2 } else { 1 });
        all.extend(page);
        if next.is_none() {
            break;
        }
        cursor = next;
    }
    let mut newest = entries.clone();
    newest.reverse();
    assert_eq!(all, newest);
    assert_eq!(repository.list(entries.clone(), 2, Some("bad")).0[0], newest[0]);
    assert!(repository.list(entries, 2, Some("70")).0.is_empty());
}

#[test]
fn blank_lines_hold_no_entry() {
    assert!(holds_entry("{}"));
    assert!(!holds_entry(" \t"));
}

#[test]
fn unreadable_files_are_reported() {
    let repository = JsonSettingsRepository::new("settings.json".into());
    assert_eq!(
        repository.load(Some(Err(StorageError::Json("line 1".into())))),
        Err(StorageError::Json("line 1".into()))
    );
    assert_eq!(
        repository.replace(Some(Err(StorageError::Poisoned)), 0, Settings::default()),
        Err(StorageError::Poisoned)
    );
}

#[test]
fn storage_errors_read_well() {
    assert_eq!(StorageError::Io("x".into()).message(), "storage I/O failed: x");
    assert_eq!(StorageError::Json("x".into()).message(), "stored JSON is invalid: x");
    assert_eq!(
        StorageError::Conflict { expected: 1, current: 12 }.message(),
        "settings revision conflict: expected 1, current 12"
    );
    assert_eq!(StorageError::Poisoned.message(), "repository lock is poisoned");
    assert_eq!(
        StorageError::Credential("locked".into()).message(),
        "secure credential storage failed: locked"
    );
}

#[test]
fn credentials_are_checked_before_they_are_stored() {
    assert_eq!(check_credential("id", "secret"), Ok(()));
    assert_eq!(
        check_credential(" ", "").unwrap_err().message(),
        "credential validation failed at secret: must not be empty"
    );
    assert_eq!(
        check_credential_id(" "),
        Err(StorageError::CredentialValidation {
            field: "credential_id",
            message: "must not be empty",
        })
    );
}

fn directories() -> Directories {
    Directories {
        macos: false,
        runtime_dir: None,
        cache_home: None,
        config_home: None,
        data_home: None,
        home: Some("/home/u".into()),
        temp_dir: "/tmp".into(),
    }
}

#[test]
fn paths_follow_the_environment() {
    assert_eq!(
        default_paths("/data", "/config/"),
        (
            "/config/speakiput/settings.json".into(),
            "/data/speakiput/history.jsonl".into()
        )
    );
    let mut d = directories();
    assert_eq!(
        default_socket_path(&d),
        "/home/u/.cache/speakiput/runtime/speakiputd.sock"
    );
    assert_eq!(
        default_storage_paths(&d),
        (
            "/home/u/.config/speakiput/settings.json".into(),
            "/home/u/.local/share/speakiput/history.jsonl".into()
        )
    );
    d.cache_home = Some("/cache".into());
    assert_eq!(default_socket_path(&d), "/cache/speakiput/runtime/speakiputd.sock");
    d.runtime_dir = Some("/run/user/1".into());
    assert_eq!(default_socket_path(&d), "/run/user/1/speakiput/speakiputd.sock");
    d.macos = true;
    assert_eq!(
        default_socket_path(&d),
        "/home/u/Library/Caches/speakiput/runtime/speakiputd.sock"
    );
    assert_eq!(
        default_storage_paths(&d).1,
        "/home/u/Library/Application Support/speakiput/history.jsonl"
    );
    d.home = None;
    d.macos = false;
    d.runtime_dir = None;
    d.cache_home = None;
    assert_eq!(default_socket_path(&d), "/tmp/speakiput/runtime/speakiputd.sock");
}

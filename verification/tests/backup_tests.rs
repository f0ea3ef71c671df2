use ssh_key_manager::backup::{
    build_report, resolve_action, successful_outcomes, BackupEnvironment, BackupManager,
    ExportOptions, ImportOptions, MergeAction, MergeStrategy, PlannedEntry, ImportReport,
    MergeStrategy::{Overwrite, Rename, SkipExisting},
};
use ssh_key_manager::encrypt::EncryptionManager;
use ssh_key_manager::keys::{KeyRecord, KeyType};
use ssh_key_manager::store::{apply_plan, KeyStore};
use ssh_key_manager::SkmError;

fn test_env() -> BackupEnvironment {
    BackupEnvironment {
        created_at: 1_700_000_000,
        hostname: "host".to_string(),
        username: "user".to_string(),
    }
}

fn record(name: &str, private: Option<&[u8]>, public: Option<&[u8]>) -> KeyRecord {
    KeyRecord {
        name: name.to_string(),
        key_type: KeyType::from_filename(name),
        comment: None,
        private_key: private.map(|b| b.to_vec()),
        public_key: public.map(|b| b.to_vec()),
    }
}

fn run_import(
    store: &mut KeyStore,
    container: &[u8],
    passphrase: &str,
    options: &ImportOptions,
) -> Result<(Vec<PlannedEntry>, ImportReport), SkmError> {
    let manager = BackupManager::new("keys");
    let existing = store.file_names();
    let plan = manager.import(container, passphrase, options, &existing, "20240101_000000")?;
    apply_plan(store, &plan);
    let outcomes = successful_outcomes(&plan);
    let report = build_report(&plan, &outcomes);
    Ok((plan, report))
}

#[test]
fn backup_test_export_import_roundtrip() {
    let manager = BackupManager::new("keys");
    let key = record("test_key", Some(b"private"), Some(b"public"));

    let container = manager
        .export(&vec![key], "test_pass", &ExportOptions::default(), &test_env())
        .unwrap();
    assert!(!container.is_empty());

    let mut store = KeyStore::new();
    let (_, report) =
        run_import(&mut store, &container, "test_pass", &ImportOptions::default()).unwrap();

    assert_eq!(report.imported.len(), 1);
    assert!(store.get("test_key").is_some());
}

#[test]
fn backup_test_import_wrong_passphrase() {
    let manager = BackupManager::new("keys");
    let key = record("test_key", Some(b"private"), Some(b"public"));

    let container = manager
        .export(&vec![key], "correct", &ExportOptions::default(), &test_env())
        .unwrap();

    let mut store = KeyStore::new();
    let result = run_import(&mut store, &container, "wrong", &ImportOptions::default());
    assert!(result.is_err());
    assert!(matches!(result, Err(SkmError::InvalidPassphrase)));
}

#[test]
fn test_encrypt_decrypt() {
    let data = b"test data for encryption";
    let passphrase = "test_password";

    let encrypted = EncryptionManager::encrypt_with_passphrase(data, passphrase).unwrap();
    assert_ne!(encrypted, data.to_vec());

    let decrypted = EncryptionManager::decrypt_with_passphrase(&encrypted, passphrase).unwrap();
    assert_eq!(decrypted, data.to_vec());
}

#[test]
fn test_decrypt_wrong_passphrase() {
    let data = b"test data";
    let encrypted = EncryptionManager::encrypt_with_passphrase(data, "correct").unwrap();

    let result = EncryptionManager::decrypt_with_passphrase(&encrypted, "wrong");
    assert!(result.is_err());
}

#[test]
fn test_wrong_passphrase_is_authentication_failure() {
    let encrypted = EncryptionManager::encrypt_with_passphrase(b"payload", "correct").unwrap();
    let result = EncryptionManager::decrypt_with_passphrase(&encrypted, "wrong");
    assert!(matches!(result, Err(SkmError::InvalidPassphrase)));
}

#[test]
fn test_tampered_envelope_fails_closed() {
    // Flip the last byte: the envelope still parses, but its payload no
    // longer authenticates, which is the authentication failure kind.
    let mut encrypted = EncryptionManager::encrypt_with_passphrase(b"payload", "pass").unwrap();
    let last = encrypted.len() - 1;
    encrypted[last] ^= 0x01;
    let result = EncryptionManager::decrypt_with_passphrase(&encrypted, "pass");
    assert!(matches!(result, Err(SkmError::InvalidPassphrase)));
}

#[test]
fn test_encrypt_twice_differs() {
    let data = b"same payload";
    let first = EncryptionManager::encrypt_with_passphrase(data, "pass").unwrap();
    let second = EncryptionManager::encrypt_with_passphrase(data, "pass").unwrap();
    assert_ne!(first, second);
}

#[test]
fn test_invalid_backup_file() {
    let mut store = KeyStore::new();
    let result = run_import(&mut store, b"not a valid backup", "pass", &ImportOptions::default());
    assert!(result.is_err());
    assert!(matches!(result, Err(SkmError::Encryption(_))));
}

#[test]
fn test_corrupt_payload_is_schema_failure() {
    // A well-formed envelope whose plaintext is no container at all.
    let container = EncryptionManager::encrypt_with_passphrase(b"garbage", "pass").unwrap();
    let mut store = KeyStore::new();
    let result = run_import(&mut store, &container, "pass", &ImportOptions::default());
    assert!(matches!(result, Err(SkmError::ImportExport(_))));
}

#[test]
fn test_roundtrip_scenario() {
    // Export one Ed25519 record and import it into an empty store.
    let manager = BackupManager::new("keys");
    let key = record("id_test", Some(b"PRIV"), Some(b"PUB ed25519 test@host"));

    let container = manager
        .export(&vec![key], "hunter2", &ExportOptions::default(), &test_env())
        .unwrap();

    let mut store = KeyStore::new();
    let options = ImportOptions { merge_strategy: SkipExisting, dry_run: false };
    let (_, report) = run_import(&mut store, &container, "hunter2", &options).unwrap();

    assert_eq!(report.imported, vec!["id_test".to_string()]);
    assert!(report.skipped.is_empty());
    assert!(report.errors.is_empty());
    assert_eq!(store.get("id_test").unwrap().as_slice(), b"PRIV");
    assert_eq!(store.get("id_test.pub").unwrap().as_slice(), b"PUB ed25519 test@host");
}

#[test]
fn test_selection_filter_is_exact() {
    let manager = BackupManager::new("keys");
    let keys = vec![
        record("a", Some(b"ka"), None),
        record("b", Some(b"kb"), None),
        record("c", Some(b"kc"), None),
    ];
    let options = ExportOptions {
        description: None,
        include_public_only: false,
        selected_keys: Some(vec!["a".to_string(), "c".to_string()]),
    };

    let container = manager.export(&keys, "pass", &options, &test_env()).unwrap();
    let mut store = KeyStore::new();
    let (_, report) = run_import(&mut store, &container, "pass", &ImportOptions::default()).unwrap();

    assert_eq!(report.imported, vec!["a".to_string(), "c".to_string()]);
    assert!(store.get("a").is_some());
    assert!(store.get("b").is_none());
    assert!(store.get("c").is_some());
}

#[test]
fn test_public_only_omits_secrets() {
    let manager = BackupManager::new("keys");
    let keys = vec![record("id_test", Some(b"PRIV"), Some(b"PUB"))];
    let options = ExportOptions {
        description: None,
        include_public_only: true,
        selected_keys: None,
    };

    let container = manager.export(&keys, "pass", &options, &test_env()).unwrap();
    let mut store = KeyStore::new();
    let (_, report) = run_import(&mut store, &container, "pass", &ImportOptions::default()).unwrap();

    assert_eq!(report.imported.len(), 1);
    assert!(store.get("id_test").is_none());
    assert_eq!(store.get("id_test.pub").unwrap().as_slice(), b"PUB");
}

#[test]
fn test_skip_never_overwrites() {
    let manager = BackupManager::new("keys");
    let container = manager
        .export(
            &vec![record("k", Some(b"incoming"), None)],
            "pass",
            &ExportOptions::default(),
            &test_env(),
        )
        .unwrap();

    let mut store = KeyStore::new();
    store.put("k", b"original".to_vec());
    let options = ImportOptions { merge_strategy: SkipExisting, dry_run: false };
    let (_, report) = run_import(&mut store, &container, "pass", &options).unwrap();

    assert_eq!(report.skipped, vec!["k".to_string()]);
    assert!(report.imported.is_empty());
    assert_eq!(store.get("k").unwrap().as_slice(), b"original");
}

#[test]
fn test_overwrite_replaces_content() {
    let manager = BackupManager::new("keys");
    let container = manager
        .export(
            &vec![record("k", Some(b"incoming"), None)],
            "pass",
            &ExportOptions::default(),
            &test_env(),
        )
        .unwrap();

    let mut store = KeyStore::new();
    store.put("k", b"original".to_vec());
    let options = ImportOptions { merge_strategy: Overwrite, dry_run: false };
    let (_, report) = run_import(&mut store, &container, "pass", &options).unwrap();

    assert_eq!(report.overwritten, vec!["k".to_string()]);
    assert_eq!(store.get("k").unwrap().as_slice(), b"incoming");
}

#[test]
fn test_rename_never_collides() {
    let manager = BackupManager::new("keys");
    let container = manager
        .export(
            &vec![record("k", Some(b"incoming"), None)],
            "pass",
            &ExportOptions::default(),
            &test_env(),
        )
        .unwrap();

    let mut store = KeyStore::new();
    store.put("k", b"original".to_vec());
    let options = ImportOptions { merge_strategy: Rename, dry_run: false };
    let (_, report) = run_import(&mut store, &container, "pass", &options).unwrap();

    assert_eq!(report.imported, vec!["k_20240101_000000".to_string()]);
    assert_eq!(store.get("k").unwrap().as_slice(), b"original");
    assert_eq!(store.get("k_20240101_000000").unwrap().as_slice(), b"incoming");
}

#[test]
fn test_dry_run_is_side_effect_free() {
    let manager = BackupManager::new("keys");
    let container = manager
        .export(
            &vec![record("k", Some(b"incoming"), None), record("n", Some(b"new"), None)],
            "pass",
            &ExportOptions::default(),
            &test_env(),
        )
        .unwrap();

    let mut store = KeyStore::new();
    store.put("k", b"original".to_vec());

    let dry = ImportOptions { merge_strategy: SkipExisting, dry_run: true };
    let (_, dry_report) = run_import(&mut store, &container, "pass", &dry).unwrap();

    // The store is byte-for-byte as before.
    assert_eq!(store.get("k").unwrap().as_slice(), b"original");
    assert!(store.get("n").is_none());

    // A real run puts the same names in the same buckets.
    let real = ImportOptions { merge_strategy: SkipExisting, dry_run: false };
    let (_, real_report) = run_import(&mut store, &container, "pass", &real).unwrap();
    assert_eq!(dry_report.skipped, real_report.skipped);
    assert_eq!(dry_report.imported, real_report.imported);
    assert!(dry_report.errors.is_empty());
}

#[test]
fn test_dry_run_rename_reports_pattern() {
    let manager = BackupManager::new("keys");
    let container = manager
        .export(
            &vec![record("k", Some(b"incoming"), None)],
            "pass",
            &ExportOptions::default(),
            &test_env(),
        )
        .unwrap();

    let mut store = KeyStore::new();
    store.put("k", b"original".to_vec());
    let options = ImportOptions { merge_strategy: Rename, dry_run: true };
    let (_, report) = run_import(&mut store, &container, "pass", &options).unwrap();

    assert_eq!(report.imported, vec!["k -> k_{timestamp}".to_string()]);
    assert_eq!(store.get("k").unwrap().as_slice(), b"original");
    assert!(store.get("k_20240101_000000").is_none());
}

#[test]
fn test_roundtrip_keeps_utf8_fields() {
    // Exercises the container codec's string decoding on non-ASCII text.
    let manager = BackupManager::new("keys");
    let mut key = record("schl\u{00fc}ssel", Some(b"PRIV"), None);
    key.comment = Some("b\u{00fc}ro".to_string());
    let options = ExportOptions {
        description: Some("t\u{00e4}glich".to_string()),
        include_public_only: false,
        selected_keys: None,
    };

    let container = manager.export(&vec![key], "pass", &options, &test_env()).unwrap();
    let mut store = KeyStore::new();
    let (_, report) = run_import(&mut store, &container, "pass", &ImportOptions::default()).unwrap();

    assert_eq!(report.imported, vec!["schl\u{00fc}ssel".to_string()]);
    assert_eq!(store.get("schl\u{00fc}ssel").unwrap().as_slice(), b"PRIV");
}

#[test]
fn test_export_empty_records() {
    let manager = BackupManager::new("keys");
    let container = manager
        .export(&vec![], "pass", &ExportOptions::default(), &test_env())
        .unwrap();
    let mut store = KeyStore::new();
    let (plan, report) = run_import(&mut store, &container, "pass", &ImportOptions::default()).unwrap();
    assert!(plan.is_empty());
    assert!(report.imported.is_empty());
    assert!(report.errors.is_empty());
}

#[test]
fn test_errors_bucket_collects_failed_entries() {
    let manager = BackupManager::new("keys");
    let container = manager
        .export(
            &vec![record("a", Some(b"ka"), None), record("b", Some(b"kb"), None)],
            "pass",
            &ExportOptions::default(),
            &test_env(),
        )
        .unwrap();

    let store = KeyStore::new();
    let existing = store.file_names();
    let plan = manager
        .import(&container, "pass", &ImportOptions::default(), &existing, "20240101_000000")
        .unwrap();

    // The first entry's write failed; the second landed.
    let outcomes = vec![Some("disk full".to_string()), None];
    let report = build_report(&plan, &outcomes);
    assert_eq!(report.errors, vec![("a".to_string(), "disk full".to_string())]);
    assert_eq!(report.imported, vec!["b".to_string()]);
}

#[test]
fn test_resolve_action_table() {
    assert_eq!(resolve_action(false, SkipExisting), MergeAction::Import);
    assert_eq!(resolve_action(false, Overwrite), MergeAction::Import);
    assert_eq!(resolve_action(false, Rename), MergeAction::Import);
    assert_eq!(resolve_action(true, SkipExisting), MergeAction::Skip);
    assert_eq!(resolve_action(true, Overwrite), MergeAction::Overwrite);
    assert_eq!(resolve_action(true, Rename), MergeAction::RenameImport);
}

#[test]
fn test_existing_public_half_counts_as_taken() {
    let manager = BackupManager::new("keys");
    let container = manager
        .export(
            &vec![record("k", Some(b"incoming"), None)],
            "pass",
            &ExportOptions::default(),
            &test_env(),
        )
        .unwrap();

    let mut store = KeyStore::new();
    store.put("k.pub", b"public half only".to_vec());
    let options = ImportOptions { merge_strategy: SkipExisting, dry_run: false };
    let (_, report) = run_import(&mut store, &container, "pass", &options).unwrap();

    assert_eq!(report.skipped, vec!["k".to_string()]);
    assert!(store.get("k").is_none());
}

#[test]
fn test_get_backup_extension() {
    assert_eq!(BackupManager::get_backup_extension(), "skm");
    let _ = MergeStrategy::SkipExisting;
}

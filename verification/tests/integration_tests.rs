use ssh_key_manager::app_state::{next_key_index, previous_key_index};
use ssh_key_manager::backup::{
    build_report, successful_outcomes, BackupEnvironment, BackupManager, ExportOptions,
    ImportOptions, MergeStrategy,
};
use ssh_key_manager::config::Config;
use ssh_key_manager::generate::{KeyGenOptions, KeyGenerator};
use ssh_key_manager::keys::{KeyRecord, KeyType};
use ssh_key_manager::scan::KeyScanner;
use ssh_key_manager::store::{apply_plan, KeyStore};
use ssh_key_manager::SkmError;

fn integration_env() -> BackupEnvironment {
    BackupEnvironment {
        created_at: 1_700_000_000,
        hostname: "host".to_string(),
        username: "user".to_string(),
    }
}

#[test]
fn test_key_gen_options_default() {
    let opts = KeyGenOptions::default();
    assert_eq!(opts.key_type, KeyType::Ed25519);
    assert_eq!(opts.filename, "id_ed25519");
}

#[test]
fn test_generate_ed25519() {
    let generator = KeyGenerator::new("keys");

    let opts = KeyGenOptions {
        key_type: KeyType::Ed25519,
        filename: "id_ed25519".to_string(),
        comment: "test@example.com".to_string(),
        passphrase: None,
        bits: None,
    };

    let key = generator.generate(&opts, false).unwrap();

    assert_eq!(key.name, "id_ed25519");
    assert!(key.private_content.contains("OPENSSH PRIVATE KEY"));
    assert!(key.public_content.starts_with("ssh-ed25519 "));
    assert!(key.public_content.ends_with(" test@example.com"));
}

#[test]
fn test_generate_duplicate_key_fails() {
    let generator = KeyGenerator::new("keys");

    let opts = KeyGenOptions { filename: "test_key".to_string(), ..Default::default() };

    let result = generator.generate(&opts, true);
    assert!(matches!(result, Err(SkmError::KeyAlreadyExists(_))));
}

#[test]
fn test_generate_unsupported_type_fails() {
    let generator = KeyGenerator::new("keys");
    let opts = KeyGenOptions {
        key_type: KeyType::Rsa,
        filename: "id_rsa".to_string(),
        ..Default::default()
    };
    assert!(matches!(generator.generate(&opts, false), Err(SkmError::SshKey(_))));
}

#[test]
fn test_generate_and_scan_key() {
    let config = Config::from_ssh_dir("keys", true).unwrap();

    // Generate a key and place its files in a fresh store.
    let generator = KeyGenerator::new(&config.ssh_dir);
    let opts = KeyGenOptions {
        key_type: KeyType::Ed25519,
        filename: "test_key".to_string(),
        comment: "test@example.com".to_string(),
        passphrase: None,
        bits: None,
    };

    let key = generator.generate(&opts, false).unwrap();
    assert_eq!(key.name, "test_key");
    let mut store = KeyStore::new();
    store.put(&key.name, key.private_content.clone().into_bytes());
    store.put(&format!("{}.pub", key.name), key.public_content.clone().into_bytes());

    // Scan the store's file names and find the key.
    let scanner = KeyScanner::new(&config.ssh_dir);
    let names = ssh_key_manager::scan::sort_names(&store.file_names());
    let keys = scanner.select_key_names(&names);
    assert_eq!(keys.len(), 1);
    assert_eq!(keys[0], "test_key");
}

#[test]
fn test_generate_multiple_key_types() {
    let generator = KeyGenerator::new("keys");

    // Generate an ED25519 key.
    let ed25519_opts = KeyGenOptions {
        key_type: KeyType::Ed25519,
        filename: "id_ed25519".to_string(),
        comment: "ed25519 key".to_string(),
        passphrase: None,
        bits: None,
    };
    let key1 = generator.generate(&ed25519_opts, false).unwrap();
    assert_eq!(KeyType::from_filename(&key1.name), KeyType::Ed25519);

    // List the keys among the produced file names.
    let scanner = KeyScanner::new("keys");
    let names = vec![key1.name.clone(), format!("{}.pub", key1.name)];
    let keys = scanner.select_key_names(&names);
    assert_eq!(keys.len(), 1);
}

#[test]
fn integration_tests_test_export_import_roundtrip() {
    let config = Config::from_ssh_dir("keys", true).unwrap();

    // Create a test key.
    let generator = KeyGenerator::new(&config.ssh_dir);
    let opts = KeyGenOptions {
        key_type: KeyType::Ed25519,
        filename: "backup_test".to_string(),
        comment: "backup test".to_string(),
        passphrase: None,
        bits: None,
    };
    let generated = generator.generate(&opts, false).unwrap();

    let keys = vec![KeyRecord {
        name: generated.name.clone(),
        key_type: KeyType::Ed25519,
        comment: Some("backup test".to_string()),
        private_key: Some(generated.private_content.clone().into_bytes()),
        public_key: Some(generated.public_content.clone().into_bytes()),
    }];

    // Export.
    let manager = BackupManager::new(&config.ssh_dir);
    let export_opts = ExportOptions {
        description: Some("Test backup".to_string()),
        include_public_only: false,
        selected_keys: None,
    };

    let container = manager.export(&keys, "test_passphrase", &export_opts, &integration_env()).unwrap();
    assert!(!container.is_empty());

    // Import into a fresh store.
    let mut store = KeyStore::new();
    let import_opts = ImportOptions { merge_strategy: MergeStrategy::SkipExisting, dry_run: false };
    let existing = store.file_names();
    let plan = manager
        .import(&container, "test_passphrase", &import_opts, &existing, "20240101_000000")
        .unwrap();
    apply_plan(&mut store, &plan);
    let report = build_report(&plan, &successful_outcomes(&plan));

    assert_eq!(report.imported.len(), 1);
    assert!(store.get("backup_test").is_some());
}

#[test]
fn integration_tests_test_import_wrong_passphrase() {
    let config = Config::from_ssh_dir("keys", true).unwrap();

    // Create a key.
    let generator = KeyGenerator::new(&config.ssh_dir);
    let opts = KeyGenOptions {
        key_type: KeyType::Ed25519,
        filename: "pass_test".to_string(),
        comment: "pass test".to_string(),
        passphrase: None,
        bits: None,
    };
    let generated = generator.generate(&opts, false).unwrap();

    let keys = vec![KeyRecord {
        name: generated.name.clone(),
        key_type: KeyType::Ed25519,
        comment: Some("pass test".to_string()),
        private_key: Some(generated.private_content.clone().into_bytes()),
        public_key: Some(generated.public_content.clone().into_bytes()),
    }];

    // Export.
    let manager = BackupManager::new(&config.ssh_dir);
    let container = manager.export(&keys, "correct", &ExportOptions::default(), &integration_env()).unwrap();

    // Try to import with the wrong passphrase.
    let store = KeyStore::new();
    let existing = store.file_names();
    let result = manager.import(
        &container,
        "wrong",
        &ImportOptions::default(),
        &existing,
        "20240101_000000",
    );
    assert!(result.is_err());
}

#[test]
fn test_scan_with_keys() {
    let scanner = KeyScanner::new("keys");
    let names = vec![
        "id_rsa".to_string(),
        "id_rsa.pub".to_string(),
        "id_ed25519".to_string(),
        "id_ed25519.pub".to_string(),
    ];
    let keys = scanner.select_key_names(&names);
    assert_eq!(keys.len(), 2);
}

#[test]
fn test_skip_non_key_files() {
    let scanner = KeyScanner::new("keys");
    let names = vec![
        "id_rsa".to_string(),
        "known_hosts".to_string(),
        "config".to_string(),
        "authorized_keys".to_string(),
        "agent.1234".to_string(),
    ];
    let keys = scanner.select_key_names(&names);
    assert_eq!(keys.len(), 1);
    assert_eq!(keys[0], "id_rsa");
}

#[test]
fn test_sort_names() {
    let names = vec![
        "id_rsa".to_string(),
        "config_backup".to_string(),
        "id_ed25519".to_string(),
        "alpha".to_string(),
    ];
    let sorted = ssh_key_manager::scan::sort_names(&names);
    assert_eq!(
        sorted,
        vec![
            "alpha".to_string(),
            "config_backup".to_string(),
            "id_ed25519".to_string(),
            "id_rsa".to_string(),
        ]
    );
}

#[test]
fn test_sort_names_keeps_duplicates() {
    let names = vec!["b".to_string(), "a".to_string(), "b".to_string()];
    let sorted = ssh_key_manager::scan::sort_names(&names);
    assert_eq!(sorted, vec!["a".to_string(), "b".to_string(), "b".to_string()]);
}

#[test]
fn test_navigation() {
    // Two keys; the selection wraps in both directions.
    let mut selected: usize = 0;
    selected = next_key_index(selected, 2);
    assert_eq!(selected, 1);
    selected = next_key_index(selected, 2);
    assert_eq!(selected, 0);
    selected = previous_key_index(selected, 2);
    assert_eq!(selected, 1);
}

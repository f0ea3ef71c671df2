use ssh_key_manager::keys::KeyType;
use ssh_key_manager::wizard::{CreateWizard, WizardStep};

#[test]
fn test_wizard_new() {
    let wizard = CreateWizard::new("user@host");
    assert!(matches!(wizard.step, WizardStep::SelectType));
    assert_eq!(wizard.options.key_type, KeyType::Ed25519);
}

#[test]
fn test_wizard_default_comment_is_injected() {
    let wizard = CreateWizard::new("alice@workstation");
    assert_eq!(wizard.temp_comment, "alice@workstation");
    assert_eq!(wizard.options.comment, "alice@workstation");
}

#[test]
fn test_select_type() {
    let mut wizard = CreateWizard::new("user@host");
    wizard.select_type(KeyType::Rsa);
    assert_eq!(wizard.options.key_type, KeyType::Rsa);
    assert_eq!(wizard.temp_filename, "id_rsa");
    assert!(matches!(wizard.step, WizardStep::EnterFilename));
}

#[test]
fn test_set_filename_validation() {
    let mut wizard = CreateWizard::new("user@host");

    assert!(!wizard.set_filename(""));
    assert!(wizard.error_message.is_some());

    assert!(!wizard.set_filename("path/to/key"));
    assert!(wizard.error_message.is_some());

    assert!(wizard.set_filename("my_key"));
    assert!(wizard.error_message.is_none());
    assert_eq!(wizard.options.filename, "my_key");
}

#[test]
fn test_passphrase_validation() {
    let mut wizard = CreateWizard::new("user@host");

    // Mismatched passphrases
    assert!(!wizard.set_passphrase("secret", "different"));
    assert!(wizard.error_message.is_some());

    // Matching passphrases
    assert!(wizard.set_passphrase("secret", "secret"));
    assert!(wizard.error_message.is_none());
    assert_eq!(wizard.options.passphrase, Some("secret".to_string()));

    // Empty passphrase (no encryption)
    assert!(wizard.set_passphrase("", ""));
    assert_eq!(wizard.options.passphrase, None);
}

#[test]
fn test_step_navigation() {
    let mut wizard = CreateWizard::new("user@host");

    assert!(matches!(wizard.step, WizardStep::SelectType));

    wizard.next_step();
    assert!(matches!(wizard.step, WizardStep::EnterFilename));

    wizard.next_step();
    assert!(matches!(wizard.step, WizardStep::EnterComment));

    wizard.previous_step();
    assert!(matches!(wizard.step, WizardStep::EnterFilename));
}

#[test]
fn test_set_comment_falls_back_to_default() {
    let mut wizard = CreateWizard::new("user@host");
    let fallback = wizard.temp_comment.clone();
    wizard.set_comment("");
    assert_eq!(wizard.options.comment, fallback);
    assert!(matches!(wizard.step, WizardStep::EnterPassphrase));

    let mut wizard2 = CreateWizard::new("user@host");
    wizard2.set_comment("me@box");
    assert_eq!(wizard2.options.comment, "me@box");
}

#[test]
fn test_backslash_filename_rejected() {
    let mut wizard = CreateWizard::new("user@host");
    assert!(!wizard.set_filename("path\\to\\key"));
    assert!(wizard.error_message.is_some());
}

#[test]
fn test_get_summary() {
    let mut wizard = CreateWizard::new("user@host");
    wizard.select_type(KeyType::Ed25519);
    assert!(wizard.set_filename("my_key"));
    wizard.set_comment("me@box");
    assert!(wizard.set_passphrase("", ""));
    let summary = wizard.get_summary();
    assert_eq!(summary, "Key Type: ED25519\nFilename: my_key\nComment: me@box\nPassphrase: No");
}

#[test]
fn test_get_step_description() {
    let wizard = CreateWizard::new("user@host");
    assert_eq!(wizard.get_step_description(), "Select key type");
}

#[test]
fn test_get_options_hands_settings_out() {
    let mut wizard = CreateWizard::new("user@host");
    assert!(wizard.set_filename("my_key"));
    let options = wizard.get_options();
    assert_eq!(options.filename, "my_key");
}

use ssh_key_manager::config::Config;
use ssh_key_manager::SkmError;

#[test]
fn test_default_config() {
    let config = Config::new();
    assert!(config.ssh_dir.contains(".ssh"));
}

#[test]
fn test_from_ssh_dir() {
    let ssh_dir = "/tmp/workdir/.ssh";
    let config = Config::from_ssh_dir(ssh_dir, true).unwrap();
    assert_eq!(config.ssh_dir, ssh_dir);
}

#[test]
fn test_from_nonexistent_ssh_dir() {
    let result = Config::from_ssh_dir("/tmp/workdir/nonexistent", false);
    assert!(result.is_err());
}

#[test]
fn test_from_missing_dir_is_config_error() {
    let result = Config::from_ssh_dir("elsewhere", false);
    assert!(matches!(result, Err(SkmError::Config(_))));
    let message = result.unwrap_err().message();
    assert_eq!(message, "Configuration error: SSH directory does not exist: elsewhere");
}

#[test]
fn test_export_dir_is_skm() {
    let config = Config::new();
    assert!(config.export_dir.ends_with("/.skm"));
}

//! Error taxonomy for the key manager.
//!
//! The variants keep failures distinguishable by kind, never by message text:
//! callers decide "wrong passphrase" versus "not a backup file" versus
//! "broken container" from the variant alone.

use vstd::prelude::*;

verus! {

/// Every failure the key manager can report.
#[derive(Debug)]
pub enum SkmError {
    /// A file system read or write failed; the payload is the description.
    Io(String),
    /// A key could not be produced or understood by the key machinery.
    SshKey(String),
    /// The encrypted envelope could not be produced, or the input is not a
    /// recognizable envelope at all (format failure).
    Encryption(String),
    /// The envelope is well-formed but the passphrase does not open it
    /// (authentication failure).
    InvalidPassphrase,
    /// A key with the given name was looked up and is not present.
    KeyNotFound(String),
    /// A key with the given name is already present and may not be replaced.
    KeyAlreadyExists(String),
    /// A key file's contents do not have the expected shape.
    InvalidKeyFormat(String),
    /// A decrypted backup payload does not match the container schema
    /// (schema failure), or an export step failed.
    ImportExport(String),
    /// A failure in the terminal front end.
    Tui(String),
    /// The configuration is unusable.
    Config(String),
    /// Anything that fits no other variant.
    Unknown(String),
}

impl SkmError {
    /// A human-readable description of the failure, in place of `Display`.
    pub fn message(&self) -> (r: String)
        ensures
            r@ == self.spec_message(),
    {
        match self {
            SkmError::Io(m) => {
                let mut s = String::from_str("IO error: ");
                s.append(m.as_str());
                s
            },
            SkmError::SshKey(m) => {
                let mut s = String::from_str("SSH key error: ");
                s.append(m.as_str());
                s
            },
            SkmError::Encryption(m) => {
                let mut s = String::from_str("Encryption error: ");
                s.append(m.as_str());
                s
            },
            SkmError::InvalidPassphrase => String::from_str("Invalid passphrase"),
            SkmError::KeyNotFound(m) => {
                let mut s = String::from_str("Key not found: ");
                s.append(m.as_str());
                s
            },
            SkmError::KeyAlreadyExists(m) => {
                let mut s = String::from_str("Key already exists: ");
                s.append(m.as_str());
                s
            },
            SkmError::InvalidKeyFormat(m) => {
                let mut s = String::from_str("Invalid key format: ");
                s.append(m.as_str());
                s
            },
            SkmError::ImportExport(m) => {
                let mut s = String::from_str("Import/Export error: ");
                s.append(m.as_str());
                s
            },
            SkmError::Tui(m) => {
                let mut s = String::from_str("TUI error: ");
                s.append(m.as_str());
                s
            },
            SkmError::Config(m) => {
                let mut s = String::from_str("Configuration error: ");
                s.append(m.as_str());
                s
            },
            SkmError::Unknown(m) => {
                let mut s = String::from_str("Unknown error: ");
                s.append(m.as_str());
                s
            },
        }
    }

    /// What `message` returns, variant by variant.
    pub open spec fn spec_message(&self) -> Seq<char> {
        match self {
            SkmError::Io(m) => "IO error: "@ + m@,
            SkmError::SshKey(m) => "SSH key error: "@ + m@,
            SkmError::Encryption(m) => "Encryption error: "@ + m@,
            SkmError::InvalidPassphrase => "Invalid passphrase"@,
            SkmError::KeyNotFound(m) => "Key not found: "@ + m@,
            SkmError::KeyAlreadyExists(m) => "Key already exists: "@ + m@,
            SkmError::InvalidKeyFormat(m) => "Invalid key format: "@ + m@,
            SkmError::ImportExport(m) => "Import/Export error: "@ + m@,
            SkmError::Tui(m) => "TUI error: "@ + m@,
            SkmError::Config(m) => "Configuration error: "@ + m@,
            SkmError::Unknown(m) => "Unknown error: "@ + m@,
        }
    }
}

} // verus!

//! Producing fresh key pairs.
//!
//! The cryptography is the `ssh-key` crate's; what is decided here — which
//! requests are refused, what the produced files contain — is stated and
//! checked. The caller writes the two produced files to disk and tells this
//! module beforehand whether the target file name is already taken.

use vstd::prelude::*;

use crate::error::SkmError;
use crate::keys::KeyType;

verus! {

/// What to generate: the key type, optional RSA strength, the comment the
/// public half carries, an optional passphrase, and the file name.
pub struct KeyGenOptions {
    pub key_type: KeyType,
    pub bits: Option<u32>,
    pub comment: String,
    pub passphrase: Option<String>,
    pub filename: String,
}

impl Default for KeyGenOptions {
    /// An Ed25519 key under its customary file name. The comment falls back
    /// to the generic user at the generic host; callers that know the local
    /// user and host put them in.
    fn default() -> (r: KeyGenOptions)
        ensures
            r.key_type == KeyType::Ed25519,
            r.bits is None,
            r.comment@ == "user@localhost"@,
            r.passphrase is None,
            r.filename@ == "id_ed25519"@,
    {
        KeyGenOptions {
            key_type: KeyType::Ed25519,
            bits: None,
            comment: String::from_str("user@localhost"),
            passphrase: None,
            filename: String::from_str("id_ed25519"),
        }
    }
}

/// A freshly generated key pair, encoded and ready to be written: the
/// private half as an OpenSSH private key file, the public half as one
/// OpenSSH line ending in the comment.
pub struct GeneratedKey {
    pub name: String,
    pub private_content: String,
    pub public_content: String,
}

/// Generates key pairs destined for one key directory.
pub struct KeyGenerator {
    pub ssh_dir: String,
}

impl KeyGenerator {
    /// A generator for the key directory at `ssh_dir`.
    pub fn new(ssh_dir: &str) -> (r: Self)
        ensures
            r.ssh_dir@ == ssh_dir@,
    {
        KeyGenerator { ssh_dir: ssh_dir.to_owned() }
    }

    /// Relies on `ssh_key::PrivateKey::random` over the operating system's
    /// randomness, `PrivateKey::to_openssh` and `PublicKey::to_openssh`: a
    /// fresh Ed25519 key pair in OpenSSH encoding. The pair is freshly
    /// random, so nothing relates two calls; any failure is a key failure.
    #[verifier::external_body]
    fn ed25519_keypair() -> (r: Result<(String, String), SkmError>)
        ensures
            r matches Err(e) ==> e is SshKey,
    {
        let private_key = ssh_key::PrivateKey::random(
            &mut rand::rngs::OsRng,
            ssh_key::Algorithm::Ed25519,
        ).map_err(|e| SkmError::SshKey(e.to_string()))?;
        let pem = private_key.to_openssh(ssh_key::LineEnding::default()).map_err(
            |e| SkmError::SshKey(e.to_string()),
        )?;
        let public_line = private_key.public_key().to_openssh().map_err(
            |e| SkmError::SshKey(e.to_string()),
        )?;
        Ok((pem.to_string(), public_line))
    }

    /// Produce a new key pair: a taken file name is refused, a key type
    /// generation does not support is refused, and otherwise the encoded
    /// halves come back, the public one ending in the requested comment.
    /// `target_exists` says whether the private file name is already taken
    /// in the destination; writing the files is the caller's step.
    pub fn generate(&self, options: &KeyGenOptions, target_exists: bool) -> (r: Result<GeneratedKey, SkmError>)
        ensures
            target_exists ==> (r matches Err(e) && e is KeyAlreadyExists),
            !target_exists && options.key_type != KeyType::Ed25519 ==> (r matches Err(e)
                && e is SshKey),
            !target_exists && options.key_type == KeyType::Ed25519 ==> (r matches Err(e)
                ==> e is SshKey),
            r matches Ok(k) ==> !target_exists && options.key_type == KeyType::Ed25519 && k.name@
                == options.filename@ && (exists|line: Seq<char>|
                k.public_content@ == line + " "@ + options.comment@),
    {
        if target_exists {
            let mut path = self.ssh_dir.clone();
            path.append("/");
            path.append(options.filename.as_str());
            return Err(SkmError::KeyAlreadyExists(path));
        }
        match options.key_type {
            KeyType::Ed25519 => {
                let (private_content, public_line) = match Self::ed25519_keypair() {
                    Ok(p) => p,
                    Err(e) => {
                        return Err(e);
                    },
                };
                let ghost line = public_line@;
                let mut public_content = public_line;
                public_content.append(" ");
                public_content.append(options.comment.as_str());
                proof {
                    assert(public_content@ == line + " "@ + options.comment@);
                }
                Ok(
                    GeneratedKey {
                        name: options.filename.clone(),
                        private_content,
                        public_content,
                    },
                )
            },
            KeyType::Rsa => {
                Err(SkmError::SshKey(String::from_str("RSA generation not yet implemented")))
            },
            _ => {
                let mut message = String::from_str("Key type ");
                message.append(options.key_type.label());
                message.append(" not yet supported for generation");
                Err(SkmError::SshKey(message))
            },
        }
    }
}

} // verus!

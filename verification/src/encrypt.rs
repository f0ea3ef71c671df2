//! Passphrase-based authenticated encryption of byte payloads.
//!
//! The work is done by the `age` crate: a fresh random salt per call, a
//! deliberately slow scrypt key derivation, and an authenticated ciphertext,
//! all framed in age's self-contained envelope format. Because encryption
//! draws fresh randomness, nothing relates two envelopes of the same payload;
//! what the contracts state is what holds of every envelope that comes back.
//!
//! Decryption is a function of the envelope and the passphrase alone, and
//! [`envelope_plaintext`] names its result. For that to be true the two
//! scrypt work factors must not float with the machine, so both are pinned:
//! every envelope is written with the work factor [`SCRYPT_WORK_FACTOR`], and
//! decryption accepts declared factors up to [`MAX_SCRYPT_WORK_FACTOR`] —
//! never age's defaults, which are picked by timing the current machine and
//! would let one machine open an envelope that another rejects.
//!
//! Failure kinds are kept apart as the callers need them: an input that is
//! not an age envelope at all fails with `SkmError::Encryption` (format
//! failure: "not a backup file"); a parseable envelope that does not open —
//! wrong passphrase, excessive declared work, or a payload that fails
//! authentication — fails with `SkmError::InvalidPassphrase` (authentication
//! failure). That only the encrypting passphrase ever opens an envelope is a
//! cryptographic property of scrypt and the authenticated cipher, not an
//! assumption any contract here makes; the runtime tests exercise it.

use std::io::{Read, Write};

use vstd::prelude::*;

use crate::error::SkmError;

verus! {

/// The scrypt work factor every envelope is written with: `N = 2^14`,
/// scrypt's customary interactive parameter. A fixed factor keeps decryption
/// machine-independent; the value balances brute-force cost against the time
/// one derivation takes.
pub const SCRYPT_WORK_FACTOR: u8 = 14;

/// The largest declared scrypt work factor decryption accepts. It covers
/// everything this library writes with room to spare, and keeps a crafted
/// envelope from demanding hours of key derivation.
pub const MAX_SCRYPT_WORK_FACTOR: u8 = 22;

/// Whether `age::Decryptor::new` recognizes these bytes as an age envelope.
/// A function of the bytes alone.
pub uninterp spec fn is_age_envelope(bytes: Seq<u8>) -> bool;

/// What age's passphrase decryption, with the pinned work-factor bound,
/// recovers from an envelope: the plaintext, or nothing when the envelope is
/// unrecognizable, the passphrase is wrong, the declared work factor is over
/// the bound, or the payload fails authentication. With both factors pinned
/// this is a function of the envelope and the passphrase alone.
pub uninterp spec fn envelope_plaintext(envelope: Seq<u8>, passphrase: Seq<char>) -> Option<
    Seq<u8>,
>;

/// Turns byte payloads into encrypted envelopes and back.
pub struct EncryptionManager;

impl EncryptionManager {
    /// Encrypt `data` under `passphrase` into a self-contained envelope.
    ///
    /// Relies on `age::scrypt::Recipient` (with the pinned
    /// [`SCRYPT_WORK_FACTOR`]), `age::Encryptor::with_recipients`, and the
    /// age envelope round trip: an envelope written this way parses back
    /// (`age::Decryptor::new` accepts it) and — since its declared work
    /// factor is within [`MAX_SCRYPT_WORK_FACTOR`] — decrypting it with the
    /// same passphrase recovers exactly `data`. Those facts hold of every
    /// envelope this call can produce, whatever salt was drawn. That no
    /// *other* passphrase opens the envelope is a cryptographic property the
    /// contract does not assume; the runtime tests exercise it.
    #[verifier::external_body]
    pub fn encrypt_with_passphrase(data: &[u8], passphrase: &str) -> (r: Result<Vec<u8>, SkmError>)
        ensures
            r matches Ok(env) ==> is_age_envelope(env@) && envelope_plaintext(env@, passphrase@)
                == Option::Some(data@),
            r matches Err(e) ==> e is Encryption,
    {
        let secret = age::secrecy::SecretString::from(passphrase);
        let mut recipient = age::scrypt::Recipient::new(secret);
        recipient.set_work_factor(SCRYPT_WORK_FACTOR);
        let once = std::iter::once(&recipient as &dyn age::Recipient);
        let encryptor = age::Encryptor::with_recipients(once)
            .map_err(|e| SkmError::Encryption(e.to_string()))?;
        let mut encrypted = Vec::new();
        let mut writer = encryptor.wrap_output(&mut encrypted)
            .map_err(|e| SkmError::Encryption(e.to_string()))?;
        writer.write_all(data).map_err(|e| SkmError::Encryption(e.to_string()))?;
        writer.finish().map_err(|e| SkmError::Encryption(e.to_string()))?;
        Ok(encrypted)
    }

    /// Decrypt an envelope with `passphrase`.
    ///
    /// Relies on `age::Decryptor::new` and `age::scrypt::Identity` (with the
    /// pinned [`MAX_SCRYPT_WORK_FACTOR`]): header parsing depends on the
    /// envelope bytes alone, and the recovered plaintext on the envelope and
    /// passphrase alone, so success is exactly [`envelope_plaintext`] being
    /// present. Bytes that are no age envelope fail as a format failure; a
    /// parseable envelope that does not open fails as an authentication
    /// failure, whether the passphrase is wrong, the declared work factor is
    /// over the bound, or the payload fails authentication.
    #[verifier::external_body]
    pub fn decrypt_with_passphrase(encrypted: &[u8], passphrase: &str) -> (r: Result<Vec<u8>, SkmError>)
        ensures
            r matches Ok(pt) ==> is_age_envelope(encrypted@) && envelope_plaintext(
                encrypted@,
                passphrase@,
            ) == Option::Some(pt@),
            r is Ok <==> envelope_plaintext(encrypted@, passphrase@) is Some,
            r matches Err(e) ==> (is_age_envelope(encrypted@) ==> e is InvalidPassphrase),
            r matches Err(e) ==> (!is_age_envelope(encrypted@) ==> e is Encryption),
    {
        let decryptor = age::Decryptor::new(encrypted).map_err(
            |e| SkmError::Encryption(e.to_string()),
        )?;
        let mut identity = age::scrypt::Identity::new(age::secrecy::SecretString::from(
            passphrase,
        ));
        identity.set_max_work_factor(MAX_SCRYPT_WORK_FACTOR);
        let mut reader = decryptor.decrypt(
            std::iter::once(&identity as &dyn age::Identity),
        ).map_err(|_| SkmError::InvalidPassphrase)?;
        let mut decrypted = Vec::new();
        reader.read_to_end(&mut decrypted).map_err(|_| SkmError::InvalidPassphrase)?;
        Ok(decrypted)
    }
}

} // verus!

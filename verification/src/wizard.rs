//! The step-by-step state machine behind the "create a key" dialog.
//!
//! Every transition and every validation rule is stated exactly: which step
//! follows which, which inputs are refused and with which message, and what
//! ends up in the generation options.

use vstd::prelude::*;

use crate::generate::KeyGenOptions;
use crate::keys::{spec_default_filename, KeyType};
use crate::text::{contains_sub, str_contains, str_eq};

verus! {

/// The dialog's five steps, in order.
#[derive(Clone, Copy, PartialEq, Eq, Structural, Debug)]
pub enum WizardStep {
    SelectType,
    EnterFilename,
    EnterComment,
    EnterPassphrase,
    Confirm,
}

/// The step after `step` when the dialog advances.
pub open spec fn spec_next_step(step: WizardStep) -> WizardStep {
    match step {
        WizardStep::SelectType => WizardStep::EnterFilename,
        WizardStep::EnterFilename => WizardStep::EnterComment,
        WizardStep::EnterComment => WizardStep::EnterPassphrase,
        WizardStep::EnterPassphrase => WizardStep::Confirm,
        WizardStep::Confirm => WizardStep::Confirm,
    }
}

/// The step before `step` when the dialog goes back.
pub open spec fn spec_previous_step(step: WizardStep) -> WizardStep {
    match step {
        WizardStep::SelectType => WizardStep::SelectType,
        WizardStep::EnterFilename => WizardStep::SelectType,
        WizardStep::EnterComment => WizardStep::EnterFilename,
        WizardStep::EnterPassphrase => WizardStep::EnterComment,
        WizardStep::Confirm => WizardStep::EnterPassphrase,
    }
}

/// The dialog's state: the current step, the options gathered so far, the
/// fields being edited, and the message of the last refused input.
pub struct CreateWizard {
    pub step: WizardStep,
    pub options: KeyGenOptions,
    pub temp_filename: String,
    pub temp_comment: String,
    pub temp_passphrase: String,
    pub confirm_passphrase: String,
    pub error_message: Option<String>,
}

impl CreateWizard {
    /// A fresh dialog at the first step, over the default options. The
    /// default comment — customarily the local user at the local host — is
    /// the caller's to supply, so the dialog itself reads no environment.
    pub fn new(default_comment: &str) -> (r: CreateWizard)
        ensures
            r.step == WizardStep::SelectType,
            r.options.key_type == KeyType::Ed25519,
            r.options.filename@ == "id_ed25519"@,
            r.options.comment@ == default_comment@,
            r.options.passphrase is None,
            r.temp_filename@ == "id_ed25519"@,
            r.temp_comment@ == default_comment@,
            r.error_message is None,
    {
        let mut options = KeyGenOptions::default();
        options.comment = default_comment.to_owned();
        CreateWizard {
            step: WizardStep::SelectType,
            options,
            temp_filename: String::from_str("id_ed25519"),
            temp_comment: default_comment.to_owned(),
            temp_passphrase: String::new(),
            confirm_passphrase: String::new(),
            error_message: None,
        }
    }

    /// Choose the key type: the suggested file name follows the type, and
    /// the dialog moves on to the file name step.
    pub fn select_type(&mut self, key_type: KeyType)
        ensures
            final(self).options.key_type == key_type,
            final(self).options.bits == old(self).options.bits,
            final(self).options.comment == old(self).options.comment,
            final(self).options.passphrase == old(self).options.passphrase,
            final(self).options.filename == old(self).options.filename,
            final(self).temp_filename@ == spec_default_filename(key_type),
            final(self).step == WizardStep::EnterFilename,
            final(self).temp_comment == old(self).temp_comment,
            final(self).temp_passphrase == old(self).temp_passphrase,
            final(self).confirm_passphrase == old(self).confirm_passphrase,
            final(self).error_message == old(self).error_message,
    {
        self.options.key_type = key_type;
        self.temp_filename = key_type.default_filename().to_owned();
        self.step = WizardStep::EnterFilename;
    }

    /// Take the file name: an empty name and a name holding a path
    /// separator are refused with a message and no step change; any other
    /// name is stored and the dialog moves on to the comment step.
    pub fn set_filename(&mut self, filename: &str) -> (r: bool)
        ensures
            r == (filename@.len() > 0 && !contains_sub(filename@, "/"@) && !contains_sub(
                filename@,
                "\\"@,
            )),
            r ==> final(self).options.filename@ == filename@ && final(self).step
                == WizardStep::EnterComment && final(self).error_message is None,
            !r ==> final(self).options.filename == old(self).options.filename && final(self).step
                == old(self).step && final(self).error_message is Some,
            final(self).options.key_type == old(self).options.key_type,
            final(self).options.comment == old(self).options.comment,
            final(self).options.passphrase == old(self).options.passphrase,
            final(self).temp_filename == old(self).temp_filename,
            final(self).temp_comment == old(self).temp_comment,
    {
        if filename.unicode_len() == 0 {
            self.error_message = Some(String::from_str("Filename cannot be empty"));
            return false;
        }
        if str_contains(filename, "/") || str_contains(filename, "\\") {
            self.error_message = Some(
                String::from_str("Filename cannot contain path separators"),
            );
            return false;
        }
        self.options.filename = filename.to_owned();
        self.step = WizardStep::EnterComment;
        self.error_message = None;
        true
    }

    /// Take the comment: an empty one falls back to the dialog's default
    /// comment; the dialog moves on to the passphrase step.
    pub fn set_comment(&mut self, comment: &str)
        ensures
            comment@.len() > 0 ==> final(self).options.comment@ == comment@,
            comment@.len() == 0 ==> final(self).options.comment@ == old(self).temp_comment@,
            final(self).step == WizardStep::EnterPassphrase,
            final(self).options.key_type == old(self).options.key_type,
            final(self).options.filename == old(self).options.filename,
            final(self).options.passphrase == old(self).options.passphrase,
            final(self).temp_comment == old(self).temp_comment,
            final(self).error_message == old(self).error_message,
    {
        if comment.unicode_len() == 0 {
            self.options.comment = self.temp_comment.clone();
        } else {
            self.options.comment = comment.to_owned();
        }
        self.step = WizardStep::EnterPassphrase;
    }

    /// Take the passphrase: a non-empty passphrase that does not match its
    /// confirmation is refused with a message; a matching one is stored, an
    /// empty one means no passphrase.
    pub fn set_passphrase(&mut self, passphrase: &str, confirm: &str) -> (r: bool)
        ensures
            r == (passphrase@.len() == 0 || passphrase@ == confirm@),
            r && passphrase@.len() > 0 ==> (final(self).options.passphrase matches Some(p)
                && p@ == passphrase@) && final(self).error_message is None,
            r && passphrase@.len() == 0 ==> final(self).options.passphrase is None && final(self).error_message is None,
            !r ==> final(self).options.passphrase == old(self).options.passphrase && final(self).error_message is Some,
            final(self).step == old(self).step,
            final(self).options.key_type == old(self).options.key_type,
            final(self).options.filename == old(self).options.filename,
            final(self).options.comment == old(self).options.comment,
    {
        if passphrase.unicode_len() > 0 && !str_eq(passphrase, confirm) {
            self.error_message = Some(String::from_str("Passphrases do not match"));
            return false;
        }
        if passphrase.unicode_len() == 0 {
            self.options.passphrase = None;
        } else {
            self.options.passphrase = Some(passphrase.to_owned());
        }
        self.error_message = None;
        true
    }

    /// Advance one step; the last step stays put.
    pub fn next_step(&mut self)
        ensures
            final(self).step == spec_next_step(old(self).step),
            final(self).options == old(self).options,
            final(self).temp_filename == old(self).temp_filename,
            final(self).temp_comment == old(self).temp_comment,
            final(self).error_message == old(self).error_message,
    {
        self.step = match self.step {
            WizardStep::SelectType => WizardStep::EnterFilename,
            WizardStep::EnterFilename => WizardStep::EnterComment,
            WizardStep::EnterComment => WizardStep::EnterPassphrase,
            WizardStep::EnterPassphrase => WizardStep::Confirm,
            WizardStep::Confirm => WizardStep::Confirm,
        };
    }

    /// Go back one step; the first step stays put.
    pub fn previous_step(&mut self)
        ensures
            final(self).step == spec_previous_step(old(self).step),
            final(self).options == old(self).options,
            final(self).temp_filename == old(self).temp_filename,
            final(self).temp_comment == old(self).temp_comment,
            final(self).error_message == old(self).error_message,
    {
        self.step = match self.step {
            WizardStep::SelectType => WizardStep::SelectType,
            WizardStep::EnterFilename => WizardStep::SelectType,
            WizardStep::EnterComment => WizardStep::EnterFilename,
            WizardStep::EnterPassphrase => WizardStep::EnterComment,
            WizardStep::Confirm => WizardStep::EnterPassphrase,
        };
    }

    /// Hand the gathered options out.
    pub fn get_options(self) -> (r: KeyGenOptions)
        ensures
            r == self.options,
    {
        self.options
    }

    /// What the current step asks the user for.
    pub fn get_step_description(&self) -> (r: &'static str)
        ensures
            self.step == WizardStep::SelectType ==> r@ == "Select key type"@,
            self.step == WizardStep::EnterFilename ==> r@ == "Enter filename"@,
            self.step == WizardStep::EnterComment ==> r@ == "Enter comment (optional)"@,
            self.step == WizardStep::EnterPassphrase ==> r@ == "Enter passphrase (optional)"@,
            self.step == WizardStep::Confirm ==> r@ == "Confirm settings"@,
    {
        match self.step {
            WizardStep::SelectType => "Select key type",
            WizardStep::EnterFilename => "Enter filename",
            WizardStep::EnterComment => "Enter comment (optional)",
            WizardStep::EnterPassphrase => "Enter passphrase (optional)",
            WizardStep::Confirm => "Confirm settings",
        }
    }

    /// The settings summary shown before confirmation, one line per field.
    pub fn get_summary(&self) -> (r: String)
        ensures
            r@ == "Key Type: "@ + crate::keys::spec_key_type_label(self.options.key_type)
                + "\nFilename: "@ + self.options.filename@ + "\nComment: "@
                + self.options.comment@ + "\nPassphrase: "@ + (
            if self.options.passphrase is Some {
                "Yes"@
            } else {
                "No"@
            }),
    {
        let mut summary = String::from_str("Key Type: ");
        summary.append(self.options.key_type.label());
        summary.append("\nFilename: ");
        summary.append(self.options.filename.as_str());
        summary.append("\nComment: ");
        summary.append(self.options.comment.as_str());
        summary.append("\nPassphrase: ");
        if self.options.passphrase.is_some() {
            summary.append("Yes");
        } else {
            summary.append("No");
        }
        summary
    }
}

} // verus!

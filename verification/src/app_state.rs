//! The interactive front end's screen and dialog states, and the pure
//! arithmetic of moving the key-list selection.

use vstd::prelude::*;

verus! {

/// Which screen the front end is on.
#[derive(Clone, Copy, PartialEq, Eq, Structural, Debug)]
pub enum AppState {
    KeyList,
    KeyDetail,
    CreateWizard,
    ExportDialog,
    ImportDialog,
    DeleteConfirm,
    MessageDialog,
    Quit,
}

/// Which step a path-and-passphrase dialog is at.
#[derive(Clone, Copy, PartialEq, Eq, Structural, Debug)]
pub enum DialogState {
    EnterPath,
    EnterPassphrase,
    Confirm,
}

/// How a message dialog is styled.
#[derive(Clone, Copy, PartialEq, Eq, Structural, Debug)]
pub enum MessageType {
    Success,
    Error,
    Info,
}

/// The selection one step down a list of `len` keys, wrapping at the end.
pub fn next_key_index(selected: usize, len: usize) -> (r: usize)
    requires
        0 < len,
        selected < len,
    ensures
        r == (if selected + 1 == len {
            0int
        } else {
            selected + 1
        }),
        r < len,
{
    if selected + 1 == len {
        0
    } else {
        selected + 1
    }
}

/// The selection one step up a list of `len` keys, wrapping at the start.
pub fn previous_key_index(selected: usize, len: usize) -> (r: usize)
    requires
        0 < len,
        selected < len,
    ensures
        r == (if selected == 0 {
            len - 1
        } else {
            selected - 1
        }),
        r < len,
{
    if selected == 0 {
        len - 1
    } else {
        selected - 1
    }
}

} // verus!

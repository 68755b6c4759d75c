//! The application state and the message handler that drives it.
//!
//! The surrounding shell owns an `AppState`, feeds every user action through
//! `update`, and performs the returned `Effect`: file work and clipboard
//! writes happen outside, and their results come back through the report
//! functions below. The handler itself is pure state transformation and is
//! verified.

use crate::error::{spec_error_message, ErrorKind};
use crate::hexcodec::{is_lower_hex_digit, spec_hex_decode, spec_hex_ok};
use crate::paths::{spec_truncate_middle, truncate_middle};
use crate::random::{generate_iv, generate_key};
use vstd::prelude::*;

verus! {

/// The mutable state behind the shell's controls: the three text fields,
/// the status line, and the theme flag.
pub struct AppState {
    pub file_path: String,
    pub key: String,
    pub iv: String,
    pub status_message: String,
    pub dark_mode: bool,
}

/// One user action, as the shell reports it.
#[derive(Debug)]
pub enum Message {
    FilePathChanged(String),
    KeyChanged(String),
    IvChanged(String),
    EncryptFile,
    DecryptFile,
    SelectFile,
    GenerateKey,
    GenerateIv,
    CopyKeyToClipboard,
    CopyIvToClipboard,
    ToggleTheme,
}

/// What the shell must do after a message was handled. The file and
/// clipboard work cannot happen here; the shell performs it and, for the
/// two run effects, hands the outcome back through a report function.
#[derive(Debug)]
pub enum Effect {
    /// Nothing left to do.
    Nothing,
    /// Write the carried text to the clipboard.
    CopyToClipboard(String),
    /// Open the file picker and hand the choice to `apply_picked_file`.
    PickFile,
    /// Encrypt the file named by the state's fields and hand the outcome to
    /// `report_encrypt_outcome`.
    RunEncrypt,
    /// Decrypt the file named by the state's fields and hand the outcome to
    /// `report_decrypt_outcome`.
    RunDecrypt,
}

/// Some required field is still empty, so no file operation may start.
pub open spec fn fields_missing(s: AppState) -> bool {
    s.file_path@.len() == 0 || s.key@.len() == 0 || s.iv@.len() == 0
}

/// The two states agree on everything but the status line.
pub open spec fn same_but_status(a: AppState, b: AppState) -> bool {
    &&& a.file_path@ == b.file_path@
    &&& a.key@ == b.key@
    &&& a.iv@ == b.iv@
    &&& a.dark_mode == b.dark_mode
}

/// The two states agree on every field.
pub open spec fn same_state(a: AppState, b: AppState) -> bool {
    same_but_status(a, b) && a.status_message@ == b.status_message@
}

/// The state a fresh window starts from: empty fields, a ready status,
/// dark mode on.
pub fn init_state() -> (s: AppState)
    ensures
        s.file_path@.len() == 0,
        s.key@.len() == 0,
        s.iv@.len() == 0,
        s.status_message@ == "Ready"@,
        s.dark_mode,
{
    AppState {
        file_path: String::new(),
        key: String::new(),
        iv: String::new(),
        status_message: String::from_str("Ready"),
        dark_mode: true,
    }
}

/// Handle one message: edit the state and say what the shell must do next.
pub fn update(state: &mut AppState, msg: Message) -> (e: Effect)
    ensures
        match msg {
            Message::FilePathChanged(p) => {
                &&& final(state).file_path@ == p@
                &&& final(state).key@ == old(state).key@
                &&& final(state).iv@ == old(state).iv@
                &&& final(state).status_message@ == old(state).status_message@
                &&& final(state).dark_mode == old(state).dark_mode
                &&& e matches Effect::Nothing
            },
            Message::KeyChanged(k) => {
                &&& final(state).key@ == k@
                &&& final(state).file_path@ == old(state).file_path@
                &&& final(state).iv@ == old(state).iv@
                &&& final(state).status_message@ == old(state).status_message@
                &&& final(state).dark_mode == old(state).dark_mode
                &&& e matches Effect::Nothing
            },
            Message::IvChanged(v) => {
                &&& final(state).iv@ == v@
                &&& final(state).file_path@ == old(state).file_path@
                &&& final(state).key@ == old(state).key@
                &&& final(state).status_message@ == old(state).status_message@
                &&& final(state).dark_mode == old(state).dark_mode
                &&& e matches Effect::Nothing
            },
            Message::EncryptFile => {
                &&& same_but_status(*final(state), *old(state))
                &&& if fields_missing(*old(state)) {
                    &&& final(state).status_message@
                        == "Please enter all fields (file path, key, and IV)."@
                    &&& e matches Effect::Nothing
                } else {
                    &&& final(state).status_message@ == old(state).status_message@
                    &&& e matches Effect::RunEncrypt
                }
            },
            Message::DecryptFile => {
                &&& same_but_status(*final(state), *old(state))
                &&& if fields_missing(*old(state)) {
                    &&& final(state).status_message@ == "Please enter file path, key, and IV."@
                    &&& e matches Effect::Nothing
                } else {
                    &&& final(state).status_message@ == old(state).status_message@
                    &&& e matches Effect::RunDecrypt
                }
            },
            Message::SelectFile => {
                &&& same_state(*final(state), *old(state))
                &&& e matches Effect::PickFile
            },
            Message::GenerateKey => {
                &&& final(state).key@.len() == 64
                &&& forall|i: int|
                    0 <= i < 64 ==> is_lower_hex_digit(#[trigger] final(state).key@[i])
                &&& spec_hex_ok(final(state).key@)
                &&& spec_hex_decode(final(state).key@).len() == 32
                &&& final(state).status_message@
                    == "Key generated. Make sure to save it somewhere!"@
                &&& final(state).file_path@ == old(state).file_path@
                &&& final(state).iv@ == old(state).iv@
                &&& final(state).dark_mode == old(state).dark_mode
                &&& e matches Effect::Nothing
            },
            Message::GenerateIv => {
                &&& final(state).iv@.len() == 32
                &&& forall|i: int|
                    0 <= i < 32 ==> is_lower_hex_digit(#[trigger] final(state).iv@[i])
                &&& spec_hex_ok(final(state).iv@)
                &&& spec_hex_decode(final(state).iv@).len() == 16
                &&& final(state).status_message@
                    == "IV generated. Make sure to save it somewhere!"@
                &&& final(state).file_path@ == old(state).file_path@
                &&& final(state).key@ == old(state).key@
                &&& final(state).dark_mode == old(state).dark_mode
                &&& e matches Effect::Nothing
            },
            Message::CopyKeyToClipboard => {
                &&& same_but_status(*final(state), *old(state))
                &&& if old(state).key@.len() == 0 {
                    &&& final(state).status_message@ == "Key field is empty, nothing to copy."@
                    &&& e matches Effect::Nothing
                } else {
                    &&& final(state).status_message@ == "Key has been copied."@
                    &&& e matches Effect::CopyToClipboard(t) && t@ == old(state).key@
                }
            },
            Message::CopyIvToClipboard => {
                &&& same_but_status(*final(state), *old(state))
                &&& if old(state).iv@.len() == 0 {
                    &&& final(state).status_message@ == "IV field is empty, nothing to copy."@
                    &&& e matches Effect::Nothing
                } else {
                    &&& final(state).status_message@ == "IV has been copied."@
                    &&& e matches Effect::CopyToClipboard(t) && t@ == old(state).iv@
                }
            },
            Message::ToggleTheme => {
                &&& final(state).dark_mode == !old(state).dark_mode
                &&& final(state).file_path@ == old(state).file_path@
                &&& final(state).key@ == old(state).key@
                &&& final(state).iv@ == old(state).iv@
                &&& final(state).status_message@ == old(state).status_message@
                &&& e matches Effect::Nothing
            },
        },
{
    match msg {
        Message::ToggleTheme => {
            state.dark_mode = !state.dark_mode;
            Effect::Nothing
        },
        Message::FilePathChanged(new_path) => {
            state.file_path = new_path;
            Effect::Nothing
        },
        Message::KeyChanged(new_key) => {
            state.key = new_key;
            Effect::Nothing
        },
        Message::IvChanged(new_iv) => {
            state.iv = new_iv;
            Effect::Nothing
        },
        Message::EncryptFile => {
            if state.file_path.as_str().is_empty() || state.key.as_str().is_empty()
                || state.iv.as_str().is_empty() {
                state.status_message = String::from_str(
                    "Please enter all fields (file path, key, and IV).",
                );
                Effect::Nothing
            } else {
                Effect::RunEncrypt
            }
        },
        Message::DecryptFile => {
            if state.file_path.as_str().is_empty() || state.key.as_str().is_empty()
                || state.iv.as_str().is_empty() {
                state.status_message = String::from_str("Please enter file path, key, and IV.");
                Effect::Nothing
            } else {
                Effect::RunDecrypt
            }
        },
        Message::SelectFile => Effect::PickFile,
        Message::GenerateKey => {
            state.key = generate_key();
            state.status_message = String::from_str(
                "Key generated. Make sure to save it somewhere!",
            );
            Effect::Nothing
        },
        Message::GenerateIv => {
            state.iv = generate_iv();
            state.status_message = String::from_str(
                "IV generated. Make sure to save it somewhere!",
            );
            Effect::Nothing
        },
        Message::CopyKeyToClipboard => {
            if state.key.as_str().is_empty() {
                state.status_message = String::from_str("Key field is empty, nothing to copy.");
                Effect::Nothing
            } else {
                state.status_message = String::from_str("Key has been copied.");
                Effect::CopyToClipboard(state.key.clone())
            }
        },
        Message::CopyIvToClipboard => {
            if state.iv.as_str().is_empty() {
                state.status_message = String::from_str("IV field is empty, nothing to copy.");
                Effect::Nothing
            } else {
                state.status_message = String::from_str("IV has been copied.");
                Effect::CopyToClipboard(state.iv.clone())
            }
        },
    }
}

/// Record the outcome of the encrypt effect on the status line.
pub fn report_encrypt_outcome(state: &mut AppState, outcome: Result<(), ErrorKind>)
    ensures
        same_but_status(*final(state), *old(state)),
        match outcome {
            Ok(u) => final(state).status_message@ == "File successfully encrypted."@,
            Err(e) => final(state).status_message@ == "Encryption failed: "@ + spec_error_message(
                e,
                false,
            ),
        },
{
    match outcome {
        Ok(_) => {
            state.status_message = String::from_str("File successfully encrypted.");
        },
        Err(e) => {
            state.status_message = String::from_str("Encryption failed: ").concat(
                e.message(false).as_str(),
            );
        },
    }
}

/// Record the outcome of the decrypt effect on the status line.
pub fn report_decrypt_outcome(state: &mut AppState, outcome: Result<(), ErrorKind>)
    ensures
        same_but_status(*final(state), *old(state)),
        match outcome {
            Ok(u) => final(state).status_message@ == "File successfully decrypted."@,
            Err(e) => final(state).status_message@ == "Decryption failed: "@ + spec_error_message(
                e,
                true,
            ),
        },
{
    match outcome {
        Ok(_) => {
            state.status_message = String::from_str("File successfully decrypted.");
        },
        Err(e) => {
            state.status_message = String::from_str("Decryption failed: ").concat(
                e.message(true).as_str(),
            );
        },
    }
}

/// Record the outcome of the file-picker effect: take the chosen path, or
/// note that none was chosen. The status line shows the path with its
/// middle elided beyond 36 characters.
pub fn apply_picked_file(state: &mut AppState, picked: Option<String>)
    ensures
        final(state).key@ == old(state).key@,
        final(state).iv@ == old(state).iv@,
        final(state).dark_mode == old(state).dark_mode,
        match picked {
            Some(p) => {
                &&& final(state).file_path@ == p@
                &&& final(state).status_message@ == "File selected: "@ + spec_truncate_middle(
                    p@,
                    36,
                )
            },
            None => {
                &&& final(state).file_path@ == old(state).file_path@
                &&& final(state).status_message@ == "No file selected."@
            },
        },
{
    match picked {
        Some(p) => {
            let shown = truncate_middle(p.as_str(), 36);
            state.status_message = String::from_str("File selected: ").concat(shown.as_str());
            state.file_path = p;
        },
        None => {
            state.status_message = String::from_str("No file selected.");
        },
    }
}

} // verus!

//! The error taxonomy of the encryption core and the user-facing text of
//! each error.

use vstd::prelude::*;

verus! {

/// Every way an encrypt or decrypt operation can fail. All are terminal and
/// non-retryable without user correction.
#[derive(Debug, Clone, Copy, PartialEq, Eq, Structural)]
pub enum ErrorKind {
    /// The key string is not valid hexadecimal.
    InvalidKeyFormat,
    /// The IV string is not valid hexadecimal.
    InvalidIvFormat,
    /// The decoded key is not 32 bytes or the decoded IV is not 16 bytes.
    InvalidKeyOrIvLength,
    /// The source file is missing, unreadable, or an I/O fault occurred.
    FileReadError,
    /// The destination cannot be written.
    FileWriteError,
    /// The ciphertext is empty, not a multiple of the block size, or its
    /// padding is malformed.
    DecryptionError,
}

/// The short reason text shown for an error, as the status line reports it.
/// The text for a failed write names the file that was being produced, so it
/// depends on the operation that failed.
pub open spec fn spec_error_message(e: ErrorKind, decrypting: bool) -> Seq<char> {
    match e {
        ErrorKind::InvalidKeyFormat => "Invalid key format"@,
        ErrorKind::InvalidIvFormat => "Invalid IV format"@,
        ErrorKind::InvalidKeyOrIvLength => "Invalid key/IV length"@,
        ErrorKind::FileReadError => "Failed to read file"@,
        ErrorKind::FileWriteError => if decrypting {
            "Failed to write decrypted file"@
        } else {
            "Failed to write encrypted file"@
        },
        ErrorKind::DecryptionError => "Failed to decrypt file"@,
    }
}

impl ErrorKind {
    /// The reason text for this error. `decrypting` says which operation
    /// failed, which matters only for a failed write.
    pub fn message(&self, decrypting: bool) -> (r: String)
        ensures
            r@ == spec_error_message(*self, decrypting),
    {
        match self {
            ErrorKind::InvalidKeyFormat => String::from_str("Invalid key format"),
            ErrorKind::InvalidIvFormat => String::from_str("Invalid IV format"),
            ErrorKind::InvalidKeyOrIvLength => String::from_str("Invalid key/IV length"),
            ErrorKind::FileReadError => String::from_str("Failed to read file"),
            ErrorKind::FileWriteError => if decrypting {
                String::from_str("Failed to write decrypted file")
            } else {
                String::from_str("Failed to write encrypted file")
            },
            ErrorKind::DecryptionError => String::from_str("Failed to decrypt file"),
        }
    }
}

} // verus!

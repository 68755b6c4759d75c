//! Symmetric file-encryption core: key/IV validation from hex strings,
//! AES-256-CBC whole-buffer transforms with PKCS#7 padding, output-path
//! derivation, and the message handler that drives the surrounding shell.

pub mod aesblock;
pub mod cbc;
pub mod cipher;
pub mod error;
pub mod hexcodec;
pub mod padding;
pub mod paths;
pub mod random;
pub mod state;

pub use cipher::{decrypt, encrypt};
pub use error::ErrorKind;
pub use paths::{decrypt_output_path, encrypt_output_path, truncate_middle};
pub use random::{generate_iv, generate_key};
pub use state::{
    apply_picked_file, init_state, report_decrypt_outcome, report_encrypt_outcome, update,
    AppState, Effect, Message,
};

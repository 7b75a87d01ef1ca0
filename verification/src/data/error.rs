//! The errors of the data layer.
use vstd::prelude::*;

verus! {

/// Why an operation on a prolock file was refused or failed.
#[derive(Debug)]
pub enum PlError {
    /// A bundle or document with this name exists already.
    Exists(String),
    /// No bundle or document with this name exists.
    Missing(String),
    /// A bundle or document cannot have an empty name.
    EmptyName,
    /// The file is not opened with a password yet.
    PasswordNotAvailable,
    /// The given password is not the one of the file.
    WrongPassword,
    /// The stored cipher text is not of the form `<salt>:<ciphertext>:<nonce>`.
    CipherFormat,
    /// Encryption or decryption failed (for decryption: most likely a wrong password).
    Crypto,
    /// The file was saved by someone else since it was read.
    ConcurrentUpdate,
}

} // verus!

//! Errors of the store's operations.
use vstd::prelude::*;

verus! {

/// What can make an operation of the store fail.
#[derive(Debug)]
pub enum PassageError {
    /// The store file has not been created yet.
    StorageUninitialized,
    /// The blob did not open with the passphrase: a wrong passphrase, a
    /// tampered blob, or a blob that is no encrypted file at all.
    DecryptionFailed,
    /// Encrypting the store failed.
    EncryptionFailed,
    /// The entries could not be written as a document.
    EncodingFailed,
    /// The blob opened, but its content is no valid entry document.
    CorruptStorage,
    /// No entry has the given name.
    EntryNotFound { name: String },
    /// A hook ran and reported failure.
    HookFailed { hook: String },
    /// A hook printed output that is not UTF-8.
    HookOutputInvalid { hook: String },
}

/// The message shown to the user for an error.
pub open spec fn message_of(e: PassageError) -> Seq<char> {
    match e {
        PassageError::StorageUninitialized => "storage not initialized, run `passage init`"@,
        PassageError::DecryptionFailed => "failed to decrypt the storage file"@,
        PassageError::EncryptionFailed => "failed to encrypt the storage file"@,
        PassageError::EncodingFailed => "failed to encode the entries"@,
        PassageError::CorruptStorage => "the storage file holds no valid entries"@,
        PassageError::EntryNotFound { name } => "entry not found: "@ + name@,
        PassageError::HookFailed { hook } => hook@ + " hook failed"@,
        PassageError::HookOutputInvalid { hook } => hook@ + " hook printed invalid output"@,
    }
}

impl PassageError {
    /// The message shown to the user; it names the entry or hook involved.
    pub fn message(&self) -> (r: String)
        ensures
            r@ == message_of(*self),
    {
        match self {
            PassageError::StorageUninitialized => String::from_str(
                "storage not initialized, run `passage init`",
            ),
            PassageError::DecryptionFailed => String::from_str("failed to decrypt the storage file"),
            PassageError::EncryptionFailed => String::from_str("failed to encrypt the storage file"),
            PassageError::EncodingFailed => String::from_str("failed to encode the entries"),
            PassageError::CorruptStorage => String::from_str(
                "the storage file holds no valid entries",
            ),
            PassageError::EntryNotFound { name } => {
                let r = String::from_str("entry not found: ");
                r.concat(name.as_str())
            },
            PassageError::HookFailed { hook } => {
                let r = hook.clone();
                r.concat(" hook failed")
            },
            PassageError::HookOutputInvalid { hook } => {
                let r = hook.clone();
                r.concat(" hook printed invalid output")
            },
        }
    }
}

} // verus!

use vstd::prelude::*;

verus! {

/// The error taxonomy of the vault core. Every crypto or storage failure
/// surfaces as one of these; nothing is swallowed.
#[derive(Debug, Clone)]
pub enum Error {
    /// No vault file exists yet.
    NotInitialized,
    /// The named target already exists (a vault file, or an entry name).
    AlreadyExists(String),
    /// The named target does not exist.
    NotFound(String),
    /// Passphrase verification against the stored hash record failed.
    WrongPassphrase,
    /// Authenticated decryption failed: wrong key or corrupted data,
    /// deliberately not distinguished.
    IntegrityFailure,
    /// A persisted field (salt, hash record, nonce, ciphertext) could not be
    /// parsed.
    MalformedRecord,
    /// An input/output or resource failure, with its cause: a file the
    /// front end could not read or write, or an entropy source that gave
    /// no bytes. Fatal to the current operation, never swallowed.
    IoFailure(String),
    /// A session operation that needs the unlocked state was called while
    /// locked.
    MustUnlock,
    /// A raw crypto operation that needs a held key was called without one.
    MissingKey,
}

impl Error {
    /// The message shown to end users. WrongPassphrase and IntegrityFailure
    /// are reported with one identical text, so no oracle distinguishes a
    /// wrong passphrase from a corrupted vault.
    pub fn message(&self) -> (r: String)
        ensures
            (self is WrongPassphrase || self is IntegrityFailure) ==> r@
                == "invalid passphrase or corrupted vault"@,
    {
        match self {
            Error::NotInitialized => "vault not initialized".to_owned(),
            Error::AlreadyExists(t) => {
                let mut m = "already exists: ".to_owned();
                m.append(t.as_str());
                m
            },
            Error::NotFound(t) => {
                let mut m = "not found: ".to_owned();
                m.append(t.as_str());
                m
            },
            Error::WrongPassphrase => "invalid passphrase or corrupted vault".to_owned(),
            Error::IntegrityFailure => "invalid passphrase or corrupted vault".to_owned(),
            Error::MalformedRecord => "malformed vault record".to_owned(),
            Error::IoFailure(c) => {
                let mut m = "i/o failure: ".to_owned();
                m.append(c.as_str());
                m
            },
            Error::MustUnlock => "vault is locked; unlock first".to_owned(),
            Error::MissingKey => "no key is held".to_owned(),
        }
    }
}

} // verus!

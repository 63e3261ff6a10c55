//! Error taxonomy shared by the vault and the login client.

use vstd::prelude::*;

verus! {

/// Which secret of an account an error concerns.
#[derive(Clone, Copy, Debug, PartialEq, Eq, Structural)]
pub enum VaultField {
    Username,
    Password,
    AuxiliaryToken,
}

/// A failure of the credential vault. Every variant carries the underlying
/// store's diagnostic message.
#[derive(Clone, Debug, PartialEq, Eq)]
pub enum VaultError {
    /// The store could not be opened for the named field's entry.
    Unavailable(VaultField, String),
    /// No remembered username exists, so there are no credentials to load.
    NoCredentials(String),
    /// The named field's entry could not be read back.
    ReadFailed(VaultField, String),
    /// The named field's entry could not be written.
    WriteFailed(VaultField, String),
}

impl VaultError {
    /// The errors a save can produce: a store that cannot be opened for a
    /// field, or a failed write of a field.
    pub open spec fn is_save_error(self) -> bool {
        self matches VaultError::Unavailable(_, _) || self matches VaultError::WriteFailed(_, _)
    }

    /// The errors a load can produce: a store that cannot be opened for the
    /// username or password entry, a missing remembered username, or a
    /// failed password read. Auxiliary-token failures are swallowed.
    pub open spec fn is_load_error(self) -> bool {
        ||| self matches VaultError::Unavailable(f, _) && (f == VaultField::Username || f
            == VaultField::Password)
        ||| self matches VaultError::NoCredentials(_)
        ||| self matches VaultError::ReadFailed(f, _) && f == VaultField::Password
    }
}

/// A failure of the session bootstrap client.
#[derive(Clone, Debug, PartialEq, Eq)]
pub enum LoginError {
    /// The HTTP client itself could not be constructed.
    ClientBuild(String),
    /// The request could not be sent; carries the transport's message.
    Transport(String),
    /// The remote service answered with a non-success status; carries the
    /// raw status and the raw response body for diagnostics.
    Rejected { status: u16, body: String },
}

} // verus!

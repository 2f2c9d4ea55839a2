//! The ways in which a vault operation can fail.

use vstd::prelude::*;

verus! {

/// Why an operation on a vault did not go through.
#[derive(Debug, Clone, Copy, PartialEq, Eq, Structural)]
pub enum Error {
    /// The persisted text is not a container: a field is missing, a field is
    /// not base64, or the text is not a well-formed object.
    MalformedContainer,
    /// The tag does not match: the password is wrong, or the container was
    /// corrupted or tampered with. The two cannot be told apart.
    AuthenticationFailed,
    /// A password and its confirmation differ.
    PasswordMismatch,
    /// No volatile location could be provisioned for the plaintext.
    StagingUnavailable,
    /// The key derivation was handed a work factor that it does not accept.
    KeyDerivation,
    /// The plaintext is longer than one nonce can cover.
    TooLong,
    /// Reading, writing or running a process failed underneath.
    Io,
}

impl Error {
    /// A one-line description fit for showing to the user.
    pub fn message(&self) -> (text: &'static str)
        ensures
            text@ == self.message_text(),
    {
        match self {
            Error::MalformedContainer => "the vault file is not a valid container",
            Error::AuthenticationFailed =>
                "could not decrypt contents (wrong password, or a corrupted or tampered file)",
            Error::PasswordMismatch => "passwords don't match",
            Error::StagingUnavailable => "no in-memory location is available for editing",
            Error::KeyDerivation => "the key derivation parameters are invalid",
            Error::TooLong => "the contents are too long to encrypt",
            Error::Io => "an input or output operation failed",
        }
    }

    /// The text of [`Error::message`].
    pub open spec fn message_text(&self) -> Seq<char> {
        match self {
            Error::MalformedContainer => "the vault file is not a valid container"@,
            Error::AuthenticationFailed =>
                "could not decrypt contents (wrong password, or a corrupted or tampered file)"@,
            Error::PasswordMismatch => "passwords don't match"@,
            Error::StagingUnavailable => "no in-memory location is available for editing"@,
            Error::KeyDerivation => "the key derivation parameters are invalid"@,
            Error::TooLong => "the contents are too long to encrypt"@,
            Error::Io => "an input or output operation failed"@,
        }
    }
}

} // verus!

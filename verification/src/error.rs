//! Errors raised by the account and credential layer.

use vstd::prelude::*;

verus! {

/// Failures of account lookup, creation and credential handling.
#[derive(Clone, Debug, PartialEq, Eq)]
pub enum ModelError {
    /// The supplied password does not match the stored credential.
    AuthenticationFailed,
    /// Signup was attempted with a username that is already taken.
    DuplicateUsername(String),
    /// An otherwise uncategorized failure, with its description.
    Generic(String),
    /// A record could not be stored.
    InsertError,
    /// The stored password hash could not be processed.
    PasswordHashError,
    /// Login was attempted for a username with no account.
    UserDoesNotExist(String),
}

impl ModelError {
    /// The human-readable description of the error, in place of `Display`.
    pub fn message(&self) -> (r: String)
        ensures
            *self == ModelError::AuthenticationFailed ==> r@ == "Authentication failed"@,
            self matches ModelError::DuplicateUsername(u) ==> r@ == "Username '"@ + u@
                + "' already exists."@,
            self matches ModelError::Generic(m) ==> r@ == m@,
            *self == ModelError::InsertError ==> r@ == "Could not insert document"@,
            *self == ModelError::PasswordHashError ==> r@ == "Unable to process password hash"@,
            self matches ModelError::UserDoesNotExist(u) ==> r@ == "User does not exist "@ + u@,
    {
        match self {
            ModelError::AuthenticationFailed => String::from_str("Authentication failed"),
            ModelError::DuplicateUsername(u) => {
                let mut r = String::from_str("Username '");
                r.append(u.as_str());
                r.append("' already exists.");
                r
            },
            ModelError::Generic(m) => m.clone(),
            ModelError::InsertError => String::from_str("Could not insert document"),
            ModelError::PasswordHashError => String::from_str("Unable to process password hash"),
            ModelError::UserDoesNotExist(u) => {
                let mut r = String::from_str("User does not exist ");
                r.append(u.as_str());
                r
            },
        }
    }
}

/// Maps a login or signup failure to the status and body sent to the client:
/// both failure kinds collapse to a generic unauthorized answer so that a
/// caller cannot tell a missing account from a wrong password.
pub fn map_login_error(e: &ModelError) -> (r: (u16, &'static str))
    requires
        *e matches ModelError::AuthenticationFailed || *e matches ModelError::UserDoesNotExist(_),
    ensures
        r.0 == 401,
        r.1@ == "Unauthorized"@,
{
    (401, "Unauthorized")
}

} // verus!

use vstd::prelude::*;

verus! {

/// Why an authentication attempt ended without a session.
#[derive(Debug, PartialEq, Eq)]
pub enum Error {
    /// A URL could not be built or resolved.
    ParseError,
    /// A numeric field of the server's answer was not a valid number.
    ParseIntError,
    /// The server asked for a platform-gated login on a plain attempt.
    Restartup,
    /// The top page held no usable login form.
    MissingLoginForm,
    /// The answer to the credential post held no callback payload.
    LoginFailure,
    /// The server refused the login; holds its error text.
    LoginFailureMessage(String),
    /// The login answer lacks a key that the flow reads; holds the key.
    MissingField(String),
    MissingUsername,
    MissingPassword,
    /// The cipher refused its key.
    InvalidLength,
}

} // verus!

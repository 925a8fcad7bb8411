//! Errors of the Canvas client: transport, parsing, session, credentials
//! and file transfer. Errors raised by outside libraries arrive here as their
//! rendered message.

use vstd::prelude::*;

verus! {

/// What went wrong while talking to NTU COOL.
#[derive(Debug, Clone)]
pub enum Error {
    /// The HTTP layer failed.
    Http(String),
    /// A response or file did not parse as the expected JSON.
    Json(String),
    /// `session.json` could not be read.
    SessionLoad(String),
    /// `session.json` could not be written.
    SessionSave(String),
    /// Logging in failed.
    Auth(String),
    /// The session expired; the user must log in again.
    SessionExpired,
    /// No credentials file at the given path.
    NoCredentials(String),
    /// The password command failed or printed something unusable.
    PasswordCmd(String),
    /// An upload failed.
    Upload(String),
    /// A download failed.
    Download(String),
    /// A local file operation failed.
    Io(String),
}

/// The message an error is shown with.
pub open spec fn error_text(e: Error) -> Seq<char> {
    match e {
        Error::Http(m) => "HTTP error: "@ + m@,
        Error::Json(m) => "JSON error: "@ + m@,
        Error::SessionLoad(m) => "Session load error: "@ + m@,
        Error::SessionSave(m) => "Session save error: "@ + m@,
        Error::Auth(m) => "Authentication error: "@ + m@,
        Error::SessionExpired => "Session expired, please run `cool login`"@,
        Error::NoCredentials(p) => "No credentials found at "@ + p@,
        Error::PasswordCmd(m) => "Password command failed: "@ + m@,
        Error::Upload(m) => "Upload error: "@ + m@,
        Error::Download(m) => "Download error: "@ + m@,
        Error::Io(m) => "IO error: "@ + m@,
    }
}

fn prefixed(prefix: &str, m: &String) -> (r: String)
    ensures
        r@ == prefix@ + m@,
{
    let mut s = crate::strs::owned(prefix);
    crate::strs::push_str(&mut s, m.as_str());
    s
}

impl Error {
    /// The message this error is shown with.
    pub fn message(&self) -> (r: String)
        ensures
            r@ == error_text(*self),
    {
        match self {
            Error::Http(m) => prefixed("HTTP error: ", m),
            Error::Json(m) => prefixed("JSON error: ", m),
            Error::SessionLoad(m) => prefixed("Session load error: ", m),
            Error::SessionSave(m) => prefixed("Session save error: ", m),
            Error::Auth(m) => prefixed("Authentication error: ", m),
            Error::SessionExpired => crate::strs::owned("Session expired, please run `cool login`"),
            Error::NoCredentials(p) => prefixed("No credentials found at ", p),
            Error::PasswordCmd(m) => prefixed("Password command failed: ", m),
            Error::Upload(m) => prefixed("Upload error: ", m),
            Error::Download(m) => prefixed("Download error: ", m),
            Error::Io(m) => prefixed("IO error: ", m),
        }
    }
}

} // verus!

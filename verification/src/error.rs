//! The crate's error type.

use vstd::prelude::*;
use crate::text::{from_chars, push_str, to_chars};

verus! {

/// Everything that can go wrong in the launcher.  Errors raised by I/O, the
/// HTTP client and the JSON parser carry their message as text.
#[derive(Debug)]
pub enum Error {
    Io(String),
    Reqwest(String),
    SerdeJson(String),
    SteamCmd(String),
    /// Cached steamcmd credentials are missing or expired.
    /// The inner string is the exact command the user should run to fix it.
    CredentialsExpired(String),
    InvalidPath(String),
    Config(String),
    Mod(String),
    Server(String),
    /// The remote endpoint returned a Cloudflare bot-protection challenge
    /// instead of the expected payload.
    CloudflareChallenge,
    Other(String),
    A2sQuery(String),
}

/// The text that an error displays as.
pub open spec fn error_message(e: Error) -> Seq<char> {
    match e {
        Error::Io(s) => "IO error: "@ + s@,
        Error::Reqwest(s) => "Network error: "@ + s@,
        Error::SerdeJson(s) => "JSON error: "@ + s@,
        Error::SteamCmd(s) => "SteamCMD error: "@ + s@,
        Error::CredentialsExpired(s) => "SteamCMD credentials expired. Run: "@ + s@,
        Error::InvalidPath(s) => "Invalid path: "@ + s@,
        Error::Config(s) => "Configuration error: "@ + s@,
        Error::Mod(s) => "Mod error: "@ + s@,
        Error::Server(s) => "Server error: "@ + s@,
        Error::CloudflareChallenge => "Blocked by Cloudflare challenge"@,
        Error::Other(s) => "Unknown error: "@ + s@,
        Error::A2sQuery(s) => "A2S query error: "@ + s@,
    }
}

fn prefixed(prefix: &str, s: &String) -> (r: String)
    ensures
        r@ == prefix@ + s@,
{
    let mut v = to_chars(prefix);
    push_str(&mut v, s.as_str());
    from_chars(&v)
}

impl Error {
    /// The message shown for this error.
    pub fn message(&self) -> (r: String)
        ensures
            r@ == error_message(*self),
    {
        match self {
            Error::Io(s) => prefixed("IO error: ", s),
            Error::Reqwest(s) => prefixed("Network error: ", s),
            Error::SerdeJson(s) => prefixed("JSON error: ", s),
            Error::SteamCmd(s) => prefixed("SteamCMD error: ", s),
            Error::CredentialsExpired(s) => prefixed("SteamCMD credentials expired. Run: ", s),
            Error::InvalidPath(s) => prefixed("Invalid path: ", s),
            Error::Config(s) => prefixed("Configuration error: ", s),
            Error::Mod(s) => prefixed("Mod error: ", s),
            Error::Server(s) => prefixed("Server error: ", s),
            Error::CloudflareChallenge => {
                let v = to_chars("Blocked by Cloudflare challenge");
                from_chars(&v)
            },
            Error::Other(s) => prefixed("Unknown error: ", s),
            Error::A2sQuery(s) => prefixed("A2S query error: ", s),
        }
    }
}

} // verus!

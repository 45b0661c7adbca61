//! Self-update: the update's description, its errors, and the check of the
//! downloaded package's minisign signature (the `minisign-verify` crate)
//! against the public key of the application's configuration, and the
//! executable taken out of a package that passes it.

use vstd::prelude::*;
use crate::codec::{base64_decode, base64_decoded, utf8_error_text, utf8_string};
use vstd::utf8::{decode_utf8, valid_utf8};
use crate::archive::{first_entry, first_entry_spec};
use crate::text::{dec_pad, from_chars, push_all, push_str, to_chars, u64_to_dec_pad};

verus! {

#[verifier::external_type_specification]
#[verifier::external_body]
pub struct ExMinisignPublicKey(minisign_verify::PublicKey);

#[verifier::external_type_specification]
#[verifier::external_body]
pub struct ExMinisignSignature(minisign_verify::Signature);

/// An error of the update commands.
#[derive(Debug)]
pub enum UpdateError {
    /// An error of the updater plugin, shown as it is.
    Updater(String),
    NoPendingUpdate,
    Other(String),
}

impl UpdateError {
    /// The text that the error displays as.
    pub open spec fn message_spec(self) -> Seq<char> {
        match self {
            UpdateError::Updater(s) => s@,
            UpdateError::NoPendingUpdate => "no pending update \u{2014} call check_for_update first"@,
            UpdateError::Other(s) => "update error: "@ + s@,
        }
    }

    /// The text that the error displays as (and is serialised as).
    pub fn message(&self) -> (r: String)
        ensures
            r@ == self.message_spec(),
    {
        match self {
            UpdateError::Updater(s) => from_chars(&to_chars(s.as_str())),
            UpdateError::NoPendingUpdate => from_chars(
                &to_chars("no pending update \u{2014} call check_for_update first"),
            ),
            UpdateError::Other(s) => {
                let mut m = to_chars("update error: ");
                push_str(&mut m, s.as_str());
                from_chars(&m)
            },
        }
    }
}

impl From<String> for UpdateError {
    fn from(s: String) -> (r: Self) {
        UpdateError::Other(s)
    }
}

impl vstd::std_specs::convert::FromSpecImpl<String> for UpdateError {
    open spec fn obeys_from_spec() -> bool {
        true
    }

    open spec fn from_spec(v: String) -> Self {
        UpdateError::Other(v)
    }
}

// ------------------------------------------------------------ description

/// A release date as `YYYY-MM-DDTHH:MM:SSZ` (`{:04}` for the year, a
/// negative year keeping its sign before three digits).
pub open spec fn release_date_spec(year: i32, month: u8, day: u8, hour: u8, minute: u8, second: u8) -> Seq<char> {
    let y = if year < 0 {
        "-"@ + dec_pad((-year) as nat, 3)
    } else {
        dec_pad(year as nat, 4)
    };
    y + "-"@ + dec_pad(month as nat, 2) + "-"@ + dec_pad(day as nat, 2) + "T"@ + dec_pad(hour as nat, 2)
        + ":"@ + dec_pad(minute as nat, 2) + ":"@ + dec_pad(second as nat, 2) + "Z"@
}

/// Formats a release date as `YYYY-MM-DDTHH:MM:SSZ`.
pub fn release_date(year: i32, month: u8, day: u8, hour: u8, minute: u8, second: u8) -> (r: String)
    ensures
        r@ == release_date_spec(year, month, day, hour, minute, second),
{
    let mut m: Vec<char>;
    if year < 0 {
        m = to_chars("-");
        let a: i64 = -(year as i64);
        push_all(&mut m, &u64_to_dec_pad(a as u64, 3));
    } else {
        m = u64_to_dec_pad(year as u64, 4);
    }
    push_str(&mut m, "-");
    push_all(&mut m, &u64_to_dec_pad(month as u64, 2));
    push_str(&mut m, "-");
    push_all(&mut m, &u64_to_dec_pad(day as u64, 2));
    push_str(&mut m, "T");
    push_all(&mut m, &u64_to_dec_pad(hour as u64, 2));
    push_str(&mut m, ":");
    push_all(&mut m, &u64_to_dec_pad(minute as u64, 2));
    push_str(&mut m, ":");
    push_all(&mut m, &u64_to_dec_pad(second as u64, 2));
    push_str(&mut m, "Z");
    from_chars(&m)
}

// ------------------------------------------------------------ signature

/// A decoded minisign public key, with the text it was decoded from.
pub struct UpdateKey {
    key: minisign_verify::PublicKey,
    text: String,
}

/// A decoded minisign signature, with the text it was decoded from.
pub struct UpdateSignature {
    sig: minisign_verify::Signature,
    text: String,
}

/// What `PublicKey::decode` reports for a key text: `None` when it
/// decodes, else the error's text.
pub uninterp spec fn minisign_key_error(text: Seq<char>) -> Option<Seq<char>>;

/// What `Signature::decode` reports for a signature text: `None` when it
/// decodes, else the error's text.
pub uninterp spec fn minisign_signature_error(text: Seq<char>) -> Option<Seq<char>>;

/// What `PublicKey::verify` reports for the key and the signature decoded
/// from these texts on a payload: `None` when the signature is good, else
/// the error's text.
pub uninterp spec fn minisign_verdict(
    key_text: Seq<char>,
    signature_text: Seq<char>,
    payload: Seq<u8>,
    allow_legacy: bool,
) -> Option<Seq<char>>;

/// `minisign_verify::PublicKey::decode` (the lines of a `minisign.pub`
/// file); the outcome is the one named by `minisign_key_error`.
#[verifier::external_body]
fn decode_public_key(text: &str) -> (r: Result<UpdateKey, String>)
    ensures
        match minisign_key_error(text@) {
            None => r matches Ok(k) && k.text@ == text@,
            Some(e) => r matches Err(m) && m@ == e,
        },
{
    match minisign_verify::PublicKey::decode(text) {
        Ok(key) => Ok(UpdateKey { key, text: text.to_string() }),
        Err(e) => Err(e.to_string()),
    }
}

/// `minisign_verify::Signature::decode` (the lines of a `.sig` file); the
/// outcome is the one named by `minisign_signature_error`.
#[verifier::external_body]
fn decode_signature(text: &str) -> (r: Result<UpdateSignature, String>)
    ensures
        match minisign_signature_error(text@) {
            None => r matches Ok(s) && s.text@ == text@,
            Some(e) => r matches Err(m) && m@ == e,
        },
{
    match minisign_verify::Signature::decode(text) {
        Ok(sig) => Ok(UpdateSignature { sig, text: text.to_string() }),
        Err(e) => Err(e.to_string()),
    }
}

/// `minisign_verify::PublicKey::verify`; the outcome is the one named by
/// `minisign_verdict` for the texts the key and signature came from.
#[verifier::external_body]
fn verify_signature(key: &UpdateKey, sig: &UpdateSignature, payload: &[u8], allow_legacy: bool) -> (r: Result<(), String>)
    ensures
        match minisign_verdict(key.text@, sig.text@, payload@, allow_legacy) {
            None => r is Ok,
            Some(e) => r matches Err(m) && m@ == e,
        },
{
    key.key.verify(payload, &sig.sig, allow_legacy).map_err(|e| e.to_string())
}

/// Decodes a base64 configuration value into text; the error says which
/// step failed, after `what`.
pub open spec fn b64_text_spec(text: Seq<char>, what: Seq<char>) -> Result<Seq<char>, Seq<char>> {
    match base64_decoded(text) {
        Err(e) => Err(what + " base64 decode: "@ + e),
        Ok(b) => if valid_utf8(b) {
            Ok(decode_utf8(b))
        } else {
            Err(what + " utf8: "@ + utf8_error_text(b))
        },
    }
}

fn b64_text(text: &str, what: &str) -> (r: Result<String, String>)
    ensures
        match b64_text_spec(text@, what@) {
            Ok(t) => r matches Ok(s) && s@ == t,
            Err(e) => r matches Err(m) && m@ == e,
        },
{
    match base64_decode(text) {
        Err(e) => {
            let mut m = to_chars(what);
            push_str(&mut m, " base64 decode: ");
            push_str(&mut m, e.as_str());
            Err(from_chars(&m))
        },
        Ok(bytes) => match utf8_string(bytes) {
            Ok(s) => Ok(s),
            Err(e) => {
                let mut m = to_chars(what);
                push_str(&mut m, " utf8: ");
                push_str(&mut m, e.as_str());
                Err(from_chars(&m))
            },
        },
    }
}

/// The outcome of checking a downloaded update: the public key (base64 of
/// a `minisign.pub` file) from the configuration, the update's signature
/// (base64 of a `.sig` file) and the package's bytes.  Each failing step
/// gives its own message; legacy signatures are refused.
pub open spec fn update_check_spec(pubkey: Option<Seq<char>>, signature: Seq<char>, payload: Seq<u8>) -> Result<(), Seq<char>> {
    match pubkey {
        None => Err("updater pubkey not found in config"@),
        Some(pk) => match b64_text_spec(pk, "pubkey"@) {
            Err(e) => Err(e),
            Ok(key_text) => match b64_text_spec(signature, "signature"@) {
                Err(e) => Err(e),
                Ok(sig_text) => match minisign_key_error(key_text) {
                    Some(e) => Err("pubkey decode: "@ + e),
                    None => match minisign_signature_error(sig_text) {
                        Some(e) => Err("signature decode: "@ + e),
                        None => match minisign_verdict(key_text, sig_text, payload, false) {
                            Some(e) => Err("signature verification failed: "@ + e),
                            None => Ok(()),
                        },
                    },
                },
            },
        },
    }
}

fn prefixed(prefix: &str, s: &String) -> (r: String)
    ensures
        r@ == prefix@ + s@,
{
    let mut m = to_chars(prefix);
    push_str(&mut m, s.as_str());
    from_chars(&m)
}

/// Checks a downloaded update against its minisign signature.
pub fn verify_update(pubkey: &Option<String>, signature: &str, payload: &[u8]) -> (r: Result<(), UpdateError>)
    ensures
        match update_check_spec(
            match pubkey {
                Some(p) => Some(p@),
                None => None,
            },
            signature@,
            payload@,
        ) {
            Ok(()) => r is Ok,
            Err(m) => r matches Err(UpdateError::Other(s)) && s@ == m,
        },
{
    let pk = match pubkey {
        Some(p) => p,
        None => {
            return Err(UpdateError::Other(from_chars(&to_chars("updater pubkey not found in config"))));
        },
    };
    let key_text = match b64_text(pk.as_str(), "pubkey") {
        Ok(t) => t,
        Err(e) => {
            return Err(UpdateError::Other(e));
        },
    };
    let sig_text = match b64_text(signature, "signature") {
        Ok(t) => t,
        Err(e) => {
            return Err(UpdateError::Other(e));
        },
    };
    let key = match decode_public_key(key_text.as_str()) {
        Ok(k) => k,
        Err(e) => {
            return Err(UpdateError::Other(prefixed("pubkey decode: ", &e)));
        },
    };
    let sig = match decode_signature(sig_text.as_str()) {
        Ok(s) => s,
        Err(e) => {
            return Err(UpdateError::Other(prefixed("signature decode: ", &e)));
        },
    };
    match verify_signature(&key, &sig, payload, false) {
        Ok(()) => Ok(()),
        Err(e) => Err(UpdateError::Other(prefixed("signature verification failed: ", &e))),
    }
}

/// What installing a downloaded package yields: the check of its signature
/// first, then the executable in it (its first entry); each failure as the
/// message of `UpdateError::Other`.
pub open spec fn update_executable_spec(pubkey: Option<Seq<char>>, signature: Seq<char>, package: Seq<u8>) -> Result<Seq<u8>, Seq<char>> {
    match update_check_spec(pubkey, signature, package) {
        Err(m) => Err(m),
        Ok(()) => first_entry_spec(package),
    }
}

/// The executable to install from a downloaded package, taken out only
/// once the package's signature checks out.
pub fn update_executable(pubkey: &Option<String>, signature: &str, package: &[u8]) -> (r: Result<Vec<u8>, UpdateError>)
    ensures
        match update_executable_spec(
            match pubkey {
                Some(p) => Some(p@),
                None => None,
            },
            signature@,
            package@,
        ) {
            Ok(b) => r matches Ok(v) && v@ == b,
            Err(m) => r matches Err(UpdateError::Other(s)) && s@ == m,
        },
{
    match verify_update(pubkey, signature, package) {
        Ok(()) => {},
        Err(e) => {
            return Err(e);
        },
    }
    match first_entry(package) {
        Ok(v) => Ok(v),
        Err(m) => Err(UpdateError::Other(m)),
    }
}

} // verus!

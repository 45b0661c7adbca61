use base64::Engine;
use dayz_community_hub_core::avatar::{avatar_data_uri, avatar_summaries_url};
use dayz_community_hub_core::updater::{release_date, verify_update, UpdateError};

fn b64(s: &str) -> String {
    base64::engine::general_purpose::STANDARD.encode(s.as_bytes())
}

const KEY: &str = "untrusted comment: minisign public key\nRWQf6LRCGA9i53mlYecO4IzT51TGPpvWucNSCh1CBM0QTaLn73Y7GFO3";
const PREHASHED_SIG: &str = "untrusted comment: signature from minisign secret key
RUQf6LRCGA9i559r3g7V1qNyJDApGip8MfqcadIgT9CuhV3EMhHoN1mGTkUidF/z7SrlQgXdy8ofjb7bNJJylDOocrCo8KLzZwo=
trusted comment: timestamp:1556193335\tfile:test
y/rUw2y8/hOUYjZU71eHp/Wo1KZ40fGy2VJEDl34XMJM+TX48Ss/17u3IvIfbVR1FkZZSNCisQbuQY+bHwhEBg==";
const LEGACY_SIG: &str = "untrusted comment: signature from minisign secret key
RWQf6LRCGA9i59SLOFxz6NxvASXDJeRtuZykwQepbDEGt87ig1BNpWaVWuNrm73YiIiJbq71Wi+dP9eKL8OC351vwIasSSbXxwA=
trusted comment: timestamp:1555779966\tfile:test
QtKMXWyYcwdpZAlPF7tE2ENJkRd1ujvKjlj1m9RtHTBnZPa5WKU5uWRs5GoP5M/VqE81QFuMKI5k/SfNQUaOAA==";

fn other(r: Result<(), UpdateError>) -> String {
    match r {
        Err(UpdateError::Other(m)) => m,
        other => panic!("unexpected {:?}", other),
    }
}

#[test]
fn good_update_signature() {
    assert!(verify_update(&Some(b64(KEY)), &b64(PREHASHED_SIG), b"test").is_ok());
}

#[test]
fn bad_update_signatures() {
    assert_eq!(
        other(verify_update(&Some(b64(KEY)), &b64(PREHASHED_SIG), b"tesT")),
        "signature verification failed: The signature verification failed"
    );
    assert_eq!(
        other(verify_update(&Some(b64(KEY)), &b64(LEGACY_SIG), b"test")),
        "signature verification failed: Unexpected signature algorithm"
    );
    assert_eq!(
        other(verify_update(&None, &b64(PREHASHED_SIG), b"test")),
        "updater pubkey not found in config"
    );
    assert_eq!(
        other(verify_update(&Some("!!!!".to_string()), &b64(PREHASHED_SIG), b"test")),
        "pubkey base64 decode: Invalid symbol 33, offset 0."
    );
    assert!(other(verify_update(&Some("/w==".to_string()), &b64(PREHASHED_SIG), b"test"))
        .starts_with("pubkey utf8: "));
    assert_eq!(
        other(verify_update(&Some(b64("just one line")), &b64(PREHASHED_SIG), b"test")),
        "pubkey decode: Invalid encoding in minisign data"
    );
    assert_eq!(
        other(verify_update(&Some(b64(KEY)), &b64("one\ntwo"), b"test")),
        "signature decode: Invalid encoding in minisign data"
    );
}

#[test]
fn update_errors_display() {
    assert_eq!(UpdateError::NoPendingUpdate.message(), "no pending update \u{2014} call check_for_update first");
    assert_eq!(UpdateError::Other("x".to_string()).message(), "update error: x");
    assert_eq!(UpdateError::Updater("boom".to_string()).message(), "boom");
    match UpdateError::from("y".to_string()) {
        UpdateError::Other(s) => assert_eq!(s, "y"),
        other => panic!("unexpected {:?}", other),
    }
}

#[test]
fn release_dates() {
    assert_eq!(release_date(2024, 3, 5, 7, 8, 9), "2024-03-05T07:08:09Z");
    assert_eq!(release_date(-5, 12, 31, 23, 59, 59), "-005-12-31T23:59:59Z");
    assert_eq!(release_date(12345, 1, 1, 0, 0, 0), "12345-01-01T00:00:00Z");
}

#[test]
fn avatar_request() {
    assert_eq!(
        avatar_summaries_url(&Some("K".to_string()), &Some("765".to_string())).as_deref(),
        Some("https://api.steampowered.com/ISteamUser/GetPlayerSummaries/v0002/?key=K&steamids=765")
    );
    assert!(avatar_summaries_url(&Some("".to_string()), &Some("765".to_string())).is_none());
    assert!(avatar_summaries_url(&Some("K".to_string()), &None).is_none());
}

#[test]
fn avatar_uri() {
    assert_eq!(
        avatar_data_uri(&Some("image/png; charset=binary".to_string()), b"hello"),
        "data:image/png;base64,aGVsbG8="
    );
    assert_eq!(avatar_data_uri(&None, b"hi!"), "data:image/jpeg;base64,aGkh");
    assert_eq!(avatar_data_uri(&None, b"a"), "data:image/jpeg;base64,YQ==");
    assert_eq!(avatar_data_uri(&None, b""), "data:image/jpeg;base64,");
}

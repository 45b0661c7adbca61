use base64::Engine;
use dayz_community_hub_core::archive::{first_entry, package_entries};
use dayz_community_hub_core::updater::{update_executable, UpdateError};
use std::io::Write;
use zip::write::SimpleFileOptions;

fn b64(s: &str) -> String {
    base64::engine::general_purpose::STANDARD.encode(s.as_bytes())
}

const KEY: &str = "untrusted comment: minisign public key\nRWQf6LRCGA9i53mlYecO4IzT51TGPpvWucNSCh1CBM0QTaLn73Y7GFO3";
const PREHASHED_SIG: &str = "untrusted comment: signature from minisign secret key
RUQf6LRCGA9i559r3g7V1qNyJDApGip8MfqcadIgT9CuhV3EMhHoN1mGTkUidF/z7SrlQgXdy8ofjb7bNJJylDOocrCo8KLzZwo=
trusted comment: timestamp:1556193335\tfile:test
y/rUw2y8/hOUYjZU71eHp/Wo1KZ40fGy2VJEDl34XMJM+TX48Ss/17u3IvIfbVR1FkZZSNCisQbuQY+bHwhEBg==";

/// A stored (uncompressed) zip of the given entries; `None` is a folder.
fn make_zip(entries: &[(&str, Option<&[u8]>)]) -> Vec<u8> {
    let mut w = zip::ZipWriter::new(std::io::Cursor::new(Vec::new()));
    let opts = SimpleFileOptions::default().compression_method(zip::CompressionMethod::Stored);
    for (name, data) in entries {
        match data {
            Some(d) => {
                w.start_file(*name, opts).unwrap();
                w.write_all(d).unwrap();
            }
            None => {
                w.add_directory(*name, opts).unwrap();
            }
        }
    }
    w.finish().unwrap().into_inner()
}

#[test]
fn first_entry_is_the_executable() {
    let pkg = make_zip(&[("hub.exe", Some(b"MZ-program")), ("readme.txt", Some(b"hello"))]);
    assert_eq!(first_entry(&pkg).unwrap(), b"MZ-program".to_vec());
}

#[test]
fn first_entry_of_garbage_fails_to_open() {
    let e = first_entry(b"not a zip at all").unwrap_err();
    assert!(e.starts_with("zip open: "), "{e}");
    assert!(e.len() > "zip open: ".len());
}

#[test]
fn first_entry_of_empty_package() {
    let pkg = make_zip(&[]);
    let e = first_entry(&pkg).unwrap_err();
    assert!(e.starts_with("zip entry: "), "{e}");
}

#[test]
fn package_entries_in_order() {
    let pkg = make_zip(&[
        ("steamcmd.exe", Some(b"binary")),
        ("public/", None),
        ("public/a.txt", Some(b"")),
    ]);
    let es = package_entries(&pkg).unwrap();
    assert_eq!(es.len(), 3);
    assert_eq!(es[0].name, "steamcmd.exe");
    assert!(!es[0].is_dir);
    assert_eq!(es[0].data, b"binary".to_vec());
    assert_eq!(es[1].name, "public/");
    assert!(es[1].is_dir);
    assert!(es[1].data.is_empty());
    assert_eq!(es[2].name, "public/a.txt");
    assert!(!es[2].is_dir);
    assert!(es[2].data.is_empty());
}

#[test]
fn package_entries_of_empty_package() {
    assert!(package_entries(&make_zip(&[])).unwrap().is_empty());
}

#[test]
fn package_entries_of_garbage() {
    let e = package_entries(b"garbage").unwrap_err();
    assert!(e.starts_with("ZIP open failed: "), "{e}");
}

#[test]
fn update_executable_checks_the_signature_first() {
    let pkg = make_zip(&[("hub.exe", Some(b"MZ"))]);
    match update_executable(&Some(b64(KEY)), &b64(PREHASHED_SIG), &pkg) {
        Err(UpdateError::Other(m)) => assert!(m.starts_with("signature verification failed: "), "{m}"),
        other => panic!("unexpected {:?}", other),
    }
    match update_executable(&None, &b64(PREHASHED_SIG), &pkg) {
        Err(UpdateError::Other(m)) => assert_eq!(m, "updater pubkey not found in config"),
        other => panic!("unexpected {:?}", other),
    }
}

#[test]
fn update_executable_of_signed_non_zip() {
    match update_executable(&Some(b64(KEY)), &b64(PREHASHED_SIG), b"test") {
        Err(UpdateError::Other(m)) => assert!(m.starts_with("zip open: "), "{m}"),
        other => panic!("unexpected {:?}", other),
    }
}

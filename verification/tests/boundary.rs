//! The two components driven against a fake of the native library's four
//! entry points, with every allocation it hands out counted, so that the
//! acquire/release discipline can be observed from outside.

use cccolutils::{authenticated, encode_realm, reclaim_text, CBuffer, ForeignBuffer, Handle,
    MarshalError, Presence};

/// A fake credential cache standing in for the native library: a table
/// from realm bytes to the bytes of the principal's allocation, and a
/// count of the buffers handed out.
struct FakeNative {
    realms: Vec<(Vec<u8>, Vec<u8>)>,
    acquires: usize,
}

impl FakeNative {
    fn new(realms: Vec<(&str, &[u8])>) -> FakeNative {
        FakeNative {
            realms: realms
                .into_iter()
                .map(|(r, p)| (r.as_bytes().to_vec(), p.to_vec()))
                .collect(),
            acquires: 0,
        }
    }

    /// The lookup entry point: a buffer handle, or the absence sentinel.
    fn lookup_username(&mut self, realm: &CBuffer) -> Handle {
        let raw = realm.as_bytes();
        let name = &raw[..raw.len() - 1];
        for (known, principal) in &self.realms {
            if known.as_slice() == name {
                self.acquires += 1;
                return Handle::Buffer(ForeignBuffer::new(principal.clone()));
            }
        }
        Handle::Null
    }

    /// The per-realm check entry point: the integer sentinel.
    fn check_realm(&self, realm: &CBuffer) -> i32 {
        let raw = realm.as_bytes();
        let name = &raw[..raw.len() - 1];
        if self.realms.iter().any(|(known, _)| known.as_slice() == name) {
            1
        } else {
            0
        }
    }

    /// The any-credential entry point: the integer sentinel.
    fn check_any(&self) -> i32 {
        if self.realms.is_empty() {
            0
        } else {
            1
        }
    }
}

/// Plays the unverified shell around `has_credentials_for_realm`: encode,
/// call, interpret the sentinel.
fn has_credentials_for_realm(fake: &FakeNative, realm: &str) -> Result<bool, MarshalError> {
    let buffer = encode_realm(realm.to_string())?;
    Ok(authenticated(fake.check_realm(&buffer)))
}

/// Plays the unverified shell around `username_for_realm`: encode, call,
/// reclaim. Returns the releases performed beside the result.
fn username_for_realm(
    fake: &mut FakeNative,
    realm: &str,
) -> (Result<Option<String>, MarshalError>, usize) {
    let buffer = match encode_realm(realm.to_string()) {
        Ok(b) => b,
        Err(e) => return (Err(e), 0),
    };
    let reply = fake.lookup_username(&buffer);
    let r = reclaim_text(reply);
    let releases = r.releases;
    let out = match r.outcome {
        Ok(Presence::Present(name)) => Ok(Some(name)),
        Ok(Presence::Absent) => Ok(None),
        Err(e) => Err(e),
    };
    (out, releases)
}

#[test]
fn no_credentials_for_the_reserved_realm() {
    let fake = FakeNative::new(vec![]);
    assert_eq!(has_credentials_for_realm(&fake, "EXAMPLE.COM"), Ok(false));
}

#[test]
fn no_username_for_the_reserved_realm() {
    let mut fake = FakeNative::new(vec![]);
    let (result, releases) = username_for_realm(&mut fake, "EXAMPLE.COM");
    assert_eq!(result, Ok(None));
    assert_eq!(releases, 0);
    assert_eq!(fake.acquires, 0);
}

#[test]
fn authenticated_realm_reports_its_principal() {
    let mut fake = FakeNative::new(vec![("KDC.TEST", b"alice@KDC.TEST\0")]);
    assert_eq!(has_credentials_for_realm(&fake, "KDC.TEST"), Ok(true));
    let (result, releases) = username_for_realm(&mut fake, "KDC.TEST");
    assert_eq!(result, Ok(Some(String::from("alice@KDC.TEST"))));
    assert_eq!(releases, 1);
    assert_eq!(fake.acquires, 1);
}

#[test]
fn any_credential_check_cannot_fail() {
    let empty = FakeNative::new(vec![]);
    let full = FakeNative::new(vec![("KDC.TEST", b"alice@KDC.TEST\0")]);
    assert!(!authenticated(empty.check_any()));
    assert!(authenticated(full.check_any()));
}

#[test]
fn rejected_realm_makes_no_foreign_call() {
    let mut fake = FakeNative::new(vec![("KDC.TEST", b"alice@KDC.TEST\0")]);
    let (result, releases) = username_for_realm(&mut fake, "KDC\0TEST");
    assert_eq!(result, Err(MarshalError::Encoding));
    assert_eq!(releases, 0);
    assert_eq!(fake.acquires, 0);
}

#[test]
fn repeated_lookups_leak_no_buffer() {
    // A hit, a miss, and a realm whose principal bytes do not decode:
    // across many rounds every acquired buffer must be released exactly
    // once, the failing decode included.
    let mut fake = FakeNative::new(vec![
        ("KDC.TEST", b"alice@KDC.TEST\0"),
        ("BROKEN.TEST", b"\xff\xfe\0"),
    ]);
    let mut releases = 0;
    let mut hits = 0;
    let mut failures = 0;
    for round in 0..100 {
        let realm = match round % 3 {
            0 => "KDC.TEST",
            1 => "NOWHERE.TEST",
            _ => "BROKEN.TEST",
        };
        let (result, r) = username_for_realm(&mut fake, realm);
        releases += r;
        match result {
            Ok(Some(_)) => hits += 1,
            Ok(None) => {}
            Err(MarshalError::Decoding) => failures += 1,
            Err(e) => panic!("unexpected failure {:?}", e),
        }
    }
    assert_eq!(hits, 34);
    assert_eq!(failures, 33);
    assert_eq!(fake.acquires, 67);
    assert_eq!(fake.acquires, releases);
}

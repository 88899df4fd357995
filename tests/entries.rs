use huskey_lib::codec::{entries_from_json, entries_to_json};
use huskey_lib::database::{Database, DatabaseError};
use huskey_lib::encryption::{decrypt, encrypt, generate_nonce, EncryptionError, FixedNonce};
use huskey_lib::entry::PasswordEntry;
use huskey_lib::key::{MasterKey, DEFAULT_ROUNDS, OWASP_RECOMMENDED_PBKDF2_ROUNDS};

fn entry(name: &str, username: &str, password: &str, url: Option<&str>) -> PasswordEntry {
    PasswordEntry {
        name: name.to_string(),
        username: username.to_string(),
        password: password.to_string(),
        url: url.map(|u| u.to_string()),
    }
}

fn names(db: &Database) -> Vec<String> {
    db.entries.iter().map(|e| e.name.clone()).collect()
}

#[test]
fn entries_are_equal_by_all_fields() {
    assert!(entry("a", "b", "c", None) == entry("a", "b", "c", None));
    assert!(entry("a", "b", "c", Some("u")) == entry("a", "b", "c", Some("u")));
    assert!(entry("a", "b", "c", None) != entry("a", "b", "c", Some("")));
    assert!(entry("a", "b", "c", None) != entry("a", "b", "x", None));
    assert!(entry("a", "b", "c", None) != entry("a", "x", "c", None));
    assert!(entry("a", "b", "c", None) != entry("x", "b", "c", None));
}

#[test]
fn default_database_is_empty() {
    let db = Database::default();
    assert!(db.entries.is_empty());
    assert_eq!(db.pbkdf2_rounds, DEFAULT_ROUNDS);
    assert!(DEFAULT_ROUNDS >= 210_000);
}

#[test]
fn add_allows_duplicates() {
    let mut db = Database::default();
    db.add_password(entry("a", "b", "c", None));
    db.add_password(entry("a", "b", "c", None));
    assert_eq!(db.entries.len(), 2);
    assert_eq!(db.clone().get_entries().len(), 2);
}

#[test]
fn index_is_of_first_match() {
    let mut db = Database::default();
    db.add_password(entry("a", "1", "1", None));
    db.add_password(entry("b", "1", "1", None));
    db.add_password(entry("b", "1", "1", None));
    assert_eq!(db.get_entry_index(&entry("b", "1", "1", None)), Some(1));
    assert_eq!(db.get_entry_index(&entry("a", "1", "1", None)), Some(0));
    assert_eq!(db.get_entry_index(&entry("z", "1", "1", None)), None);
}

#[test]
fn remove_takes_first_match_and_swaps_last_in() {
    let mut db = Database::default();
    for n in ["a", "b", "c", "b", "d"] {
        db.add_password(entry(n, "u", "p", None));
    }
    let removed = db.remove_entry(&entry("b", "u", "p", None));
    assert!(removed.unwrap() == entry("b", "u", "p", None));
    assert_eq!(names(&db), vec!["a", "d", "c", "b"]);
    assert!(db.remove_entry(&entry("zz", "u", "p", None)).is_none());
    assert_eq!(names(&db), vec!["a", "d", "c", "b"]);
}

#[test]
fn replace_swaps_and_appends() {
    let mut db = Database::default();
    for n in ["a", "b", "c"] {
        db.add_password(entry(n, "u", "p", None));
    }
    db.replace_entry(entry("a", "u", "p", None), entry("x", "u", "p", None));
    assert_eq!(names(&db), vec!["c", "b", "x"]);
    db.replace_entry(entry("missing", "u", "p", None), entry("y", "u", "p", None));
    assert_eq!(names(&db), vec!["c", "b", "x", "y"]);
}

#[test]
fn replace_with_identical_entry_removes_then_appends() {
    let mut db = Database::default();
    for n in ["a", "b", "c"] {
        db.add_password(entry(n, "u", "p", None));
    }
    db.replace_entry(entry("a", "u", "p", None), entry("a", "u", "p", None));
    assert_eq!(names(&db), vec!["c", "b", "a"]);
    db.replace_entry(entry("q", "u", "p", None), entry("q", "u", "p", None));
    assert_eq!(names(&db), vec!["c", "b", "a", "q"]);
}

#[test]
fn entries_serialize_as_json_objects() {
    let bytes = entries_to_json(&vec![entry("a", "b", "c", None), entry("n", "u", "p", Some("w"))]).unwrap();
    assert_eq!(
        String::from_utf8(bytes).unwrap(),
        r#"[{"name":"a","password":"c","url":null,"username":"b"},{"name":"n","password":"p","url":"w","username":"u"}]"#
    );
    assert_eq!(entries_to_json(&vec![]).unwrap(), b"[]".to_vec());
}

#[test]
fn entries_parse_from_json_in_any_key_order() {
    let text = br#"[ {"name": "a", "username": "b", "password": "c", "url": null},
                    {"url": "w", "password": "p", "username": "u", "name": "n"},
                    {"name": "x", "username": "y", "password": "z"} ]"#;
    let es = entries_from_json(&text.to_vec()).unwrap();
    assert_eq!(es.len(), 3);
    assert!(es[0] == entry("a", "b", "c", None));
    assert!(es[1] == entry("n", "u", "p", Some("w")));
    assert!(es[2] == entry("x", "y", "z", None));
}

#[test]
fn malformed_entry_json_is_a_deserialization_error() {
    for text in [&b"random content"[..], b"", b"{\"random\": \"content\"}", b"[{\"name\": \"a\", \"username\": \"b\"}]", b"[{\"name\": null, \"username\": \"b\", \"password\": \"c\"}]"] {
        let r = entries_from_json(&text.to_vec());
        assert!(matches!(r, Err(DatabaseError::DatabaseDeserializationError(_))));
    }
}

#[test]
fn key_derivation_matches_pbkdf2_sha512_of_the_hex_digest() {
    let key = MasterKey::new("password".to_string());
    let params = key.to_decrypt_params(Some("c2FsdHNhbHQ".to_string()), Some(1000)).unwrap();
    assert_eq!(params.secret_key, "JgX1oPncI+MeSm0eLHjofxzcg1K3xMSO");
    assert_eq!(params.pbkdf2_salt, "c2FsdHNhbHQ");
    assert_eq!(params.pbkdf2_rounds, 1000);

    let fresh = key.to_decrypt_params(None, Some(1000)).unwrap();
    assert_eq!(fresh.pbkdf2_salt.len(), 22);
    assert_eq!(fresh.secret_key.len(), 32);
    assert!(key.to_decrypt_params(Some("no".to_string()), Some(1000)).is_err());
}

#[test]
fn rounds_below_recommendation_are_flagged() {
    assert!(MasterKey::is_below_recommended(1000));
    assert!(!MasterKey::is_below_recommended(OWASP_RECOMMENDED_PBKDF2_ROUNDS));
}

#[test]
fn cipher_round_trip_and_key_length() {
    let key = "0123456789abcdef0123456789abcdef";
    let nonce = FixedNonce::from(*b"nonce-nonce!");
    let plain = b"attack at dawn".to_vec();
    let sealed = encrypt(&plain, key, &nonce).unwrap();
    assert_eq!(sealed.len(), plain.len() + 16);
    assert_ne!(&sealed[..plain.len()], &plain[..]);
    assert_eq!(decrypt(&sealed, key, &nonce).unwrap(), plain);

    let other = FixedNonce::from(*b"nonce-nonce?");
    assert!(matches!(decrypt(&sealed, key, &other), Err(EncryptionError::DecryptError)));
    assert!(matches!(encrypt(&plain, "short", &nonce), Err(EncryptionError::InvalidKeyLength(5))));
    assert!(matches!(decrypt(&sealed, "short", &nonce), Err(EncryptionError::InvalidKeyLength(5))));
}

#[test]
fn nonces_are_fresh_random_bytes() {
    let n = generate_nonce();
    assert_eq!(n.bytes().len(), 12);
    assert_ne!(generate_nonce().bytes(), generate_nonce().bytes());
    // Over many nonces, bytes outside the ASCII letters and digits turn up.
    let outside = (0..64)
        .flat_map(|_| generate_nonce().bytes())
        .any(|b| !b.is_ascii_alphanumeric());
    assert!(outside);
}

#[test]
fn edit_applies_only_to_present_or_identical_entries() {
    let mut db = Database::default();
    for n in ["a", "b", "c"] {
        db.add_password(entry(n, "u", "p", None));
    }
    assert!(db.edit_entry(entry("a", "u", "p", None), entry("a", "u", "p", None)));
    assert_eq!(names(&db), vec!["a", "b", "c"]);
    assert!(db.edit_entry(entry("zz", "u", "p", None), entry("zz", "u", "p", None)));
    assert_eq!(names(&db), vec!["a", "b", "c"]);
    assert!(!db.edit_entry(entry("zz", "u", "p", None), entry("y", "u", "p", None)));
    assert_eq!(names(&db), vec!["a", "b", "c"]);
    assert!(db.edit_entry(entry("b", "u", "p", None), entry("y", "u", "p", None)));
    assert_eq!(names(&db), vec!["a", "c", "y"]);
}

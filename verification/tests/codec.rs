use powda_core::codec::{parse_entries, serialize_entries};
use powda_core::{EntryMetadata, EntryName, Password, PasswordEntry};

fn entry_with_metadata(n: &str, p: &str, tags: Vec<&str>) -> PasswordEntry {
    let mut e = PasswordEntry::new(
        EntryName::new(n.to_string()).unwrap(),
        Password::new(p.to_string()).unwrap(),
    );
    e.metadata = EntryMetadata {
        url: Some(format!("https://{}.example", n)),
        username: Some("user".to_string()),
        notes: None,
        tags: tags.into_iter().map(|t| t.to_string()).collect(),
    };
    e
}

#[test]
fn empty_catalogue_encodes_to_a_zero_count() {
    let bytes = serialize_entries(&Vec::new());
    assert_eq!(bytes, vec![0u8; 8]);
    let back = parse_entries(&bytes).unwrap();
    assert_eq!(back.len(), 0);
}

#[test]
fn catalogue_round_trip_keeps_every_field() {
    let entries = vec![
        entry_with_metadata("caf\u{e9}", "p\u{e2}ss", vec!["tag-one", "tag-two"]),
        entry_with_metadata("plain", "secret", vec![]),
    ];
    let bytes = serialize_entries(&entries);
    let back = parse_entries(&bytes).unwrap();

    assert_eq!(back.len(), 2);
    for (a, b) in entries.iter().zip(back.iter()) {
        assert_eq!(a.name.as_str(), b.name.as_str());
        assert_eq!(a.password.as_str(), b.password.as_str());
        assert_eq!(a.created_at, b.created_at);
        assert_eq!(a.modified_at, b.modified_at);
        assert_eq!(a.metadata.url, b.metadata.url);
        assert_eq!(a.metadata.username, b.metadata.username);
        assert_eq!(a.metadata.notes, b.metadata.notes);
        assert_eq!(a.metadata.tags, b.metadata.tags);
    }
}

#[test]
fn garbage_and_trailing_bytes_are_rejected() {
    assert!(parse_entries(&vec![1u8, 2, 3]).is_none());

    let mut bytes = serialize_entries(&Vec::new());
    bytes.push(0u8);
    assert!(parse_entries(&bytes).is_none());
}

#[test]
fn repeated_names_are_rejected() {
    let distinct = vec![
        entry_with_metadata("same", "one", vec![]),
        entry_with_metadata("other", "two", vec![]),
    ];
    let ok_bytes = serialize_entries(&distinct);
    assert!(parse_entries(&ok_bytes).is_some());

    // hand-build a buffer holding one entry twice under one name
    let one = vec![entry_with_metadata("same", "one", vec![])];
    let one_bytes = serialize_entries(&one);
    let body = &one_bytes[8..];
    let mut dup_bytes: Vec<u8> = Vec::new();
    dup_bytes.extend_from_slice(&2u64.to_le_bytes());
    dup_bytes.extend_from_slice(body);
    dup_bytes.extend_from_slice(body);
    assert!(parse_entries(&dup_bytes).is_none());
}

#[test]
fn entry_name_bounds_are_enforced() {
    assert!(EntryName::new(String::new()).is_err());
    assert!(EntryName::new("x".repeat(101)).is_err());
    let n = EntryName::new("x".repeat(100)).unwrap();
    assert_eq!(n.as_str().len(), 100);
    assert!(Password::new(String::new()).is_err());
}

#[test]
fn fresh_entry_timestamps_agree() {
    let e = PasswordEntry::new(
        EntryName::new("n".to_string()).unwrap(),
        Password::new("p".to_string()).unwrap(),
    );
    assert_eq!(e.created_at, e.modified_at);
    assert!(e.metadata.url.is_none());
    assert!(e.metadata.tags.is_empty());

    let mut e2 = e;
    e2.update_password(Password::new("q".to_string()).unwrap());
    assert_eq!(e2.password.as_str(), "q");
    assert_eq!(e2.name.as_str(), "n");
}

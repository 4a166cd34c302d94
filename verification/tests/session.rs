use powda_core::{EntryName, Error, Password, PasswordEntry, Store};

fn name(s: &str) -> EntryName {
    EntryName::new(s.to_string()).unwrap()
}

fn pw(s: &str) -> Password {
    Password::new(s.to_string()).unwrap()
}

fn entry(n: &str, p: &str) -> PasswordEntry {
    PasswordEntry::new(name(n), pw(p))
}

#[test]
fn scenario_initialize_add_lock_unlock() {
    let mut store = Store::new();
    assert!(!store.vault_exists());
    store.init("correct-horse-battery").unwrap();
    assert!(store.vault_exists());
    assert!(!store.is_locked());
    assert_eq!(store.list().unwrap().len(), 0);

    store.add(entry("email", "s3cr3t")).unwrap();
    assert_eq!(store.list().unwrap().len(), 1);

    store.lock().unwrap();
    assert!(store.is_locked());

    let r = store.unlock("wrong");
    assert!(matches!(r, Err(Error::WrongPassphrase)));
    assert!(store.is_locked());

    store.unlock("correct-horse-battery").unwrap();
    assert!(!store.is_locked());
    let got = store.get(&name("email")).unwrap();
    assert_eq!(got.password.as_str(), "s3cr3t");
}

#[test]
fn add_duplicate_fails_and_changes_nothing() {
    let mut store = Store::new();
    store.init("pass-phrase").unwrap();
    store.add(entry("site", "first")).unwrap();
    let before = store.current_file().unwrap().clone();

    let r = store.add(entry("site", "second"));
    assert!(matches!(r, Err(Error::AlreadyExists(_))));

    let after = store.current_file().unwrap().clone();
    assert_eq!(before.salt, after.salt);
    assert_eq!(before.argon2_params, after.argon2_params);
    assert_eq!(before.nonce, after.nonce);
    assert_eq!(before.ciphertext, after.ciphertext);
    assert_eq!(before.version, after.version);

    assert_eq!(store.list().unwrap().len(), 1);
    assert_eq!(store.get(&name("site")).unwrap().password.as_str(), "first");
}

#[test]
fn lock_purges_state() {
    let mut store = Store::new();
    store.init("pass-phrase").unwrap();
    store.add(entry("a", "s")).unwrap();
    store.lock().unwrap();

    assert!(matches!(store.get(&name("a")), Err(Error::MustUnlock)));
    assert!(matches!(store.add(entry("b", "s")), Err(Error::MustUnlock)));
    assert!(matches!(store.list(), Err(Error::MustUnlock)));
    assert!(matches!(store.remove(&name("a")), Err(Error::MustUnlock)));
    assert!(matches!(
        store.change_master_password("pass-phrase", "other"),
        Err(Error::MustUnlock)
    ));
    assert!(store.is_locked());
}

#[test]
fn rotation_old_fails_new_succeeds() {
    let mut store = Store::new();
    store.init("old-passphrase").unwrap();
    store.add(entry("email", "hunter2")).unwrap();

    store
        .change_master_password("old-passphrase", "new-passphrase")
        .unwrap();

    assert_eq!(store.get(&name("email")).unwrap().password.as_str(), "hunter2");

    store.lock().unwrap();
    assert!(matches!(
        store.unlock("old-passphrase"),
        Err(Error::WrongPassphrase)
    ));
    store.unlock("new-passphrase").unwrap();
    assert_eq!(store.get(&name("email")).unwrap().password.as_str(), "hunter2");
}

#[test]
fn rotation_wrong_current_refused() {
    let mut store = Store::new();
    store.init("right").unwrap();
    let r = store.change_master_password("wrong", "next");
    assert!(matches!(r, Err(Error::WrongPassphrase)));
    assert_eq!(store.list().unwrap().len(), 0);
}

#[test]
fn list_is_sorted_names_only() {
    let mut store = Store::new();
    store.init("pass-phrase").unwrap();
    store.add(entry("b", "secret-b")).unwrap();
    store.add(entry("a", "secret-a")).unwrap();

    let names: Vec<String> = store
        .list()
        .unwrap()
        .iter()
        .map(|n| n.as_str().to_string())
        .collect();
    assert_eq!(names, vec!["a".to_string(), "b".to_string()]);
}

#[test]
fn remove_missing_is_not_found_and_no_rewrite() {
    let mut store = Store::new();
    store.init("pass-phrase").unwrap();
    store.add(entry("kept", "s")).unwrap();
    let before = store.current_file().unwrap().clone();

    let r = store.remove(&name("missing"));
    assert!(matches!(r, Err(Error::NotFound(_))));

    let after = store.current_file().unwrap().clone();
    assert_eq!(before.nonce, after.nonce);
    assert_eq!(before.ciphertext, after.ciphertext);
    assert_eq!(store.list().unwrap().len(), 1);

    store.remove(&name("kept")).unwrap();
    assert_eq!(store.list().unwrap().len(), 0);
}

#[test]
fn update_upserts_and_refreshes() {
    let mut store = Store::new();
    store.init("pass-phrase").unwrap();
    store.add(entry("site", "first")).unwrap();

    store.update(entry("site", "second")).unwrap();
    assert_eq!(store.get(&name("site")).unwrap().password.as_str(), "second");
    assert_eq!(store.list().unwrap().len(), 1);

    store.update(entry("fresh", "third")).unwrap();
    assert_eq!(store.get(&name("fresh")).unwrap().password.as_str(), "third");
    assert_eq!(store.list().unwrap().len(), 2);
}

#[test]
fn not_initialized_and_already_exists() {
    let mut store = Store::new();
    assert!(matches!(store.unlock("x"), Err(Error::NotInitialized)));
    assert!(matches!(store.get(&name("a")), Err(Error::NotInitialized)));
    assert!(matches!(store.list(), Err(Error::NotInitialized)));

    store.init("pass-phrase").unwrap();
    let r = store.init("pass-phrase");
    assert!(matches!(r, Err(Error::AlreadyExists(_))));
}

#[test]
fn reopen_from_persisted_record() {
    let mut store = Store::new();
    store.init("pass-phrase").unwrap();
    store.add(entry("site", "s3cr3t")).unwrap();
    let record = store.current_file().unwrap().clone();

    let mut reopened = Store::from_file(record);
    assert!(reopened.is_locked());
    reopened.unlock("pass-phrase").unwrap();
    assert_eq!(reopened.get(&name("site")).unwrap().password.as_str(), "s3cr3t");
}

use vstd::prelude::*;
use crate::catalogue::{cat_wf, entry_of, has_name, idx_of, Catalogue};
use crate::codec::parse_catalogue_spec;
use crate::domain::{entry_wf, lex_lt, EntryName, EntryView, PasswordEntry};
use crate::encoding::b64_decode_of;
use crate::error::Error;
use crate::manager::{
    created_vault_for, open_spec, vault_key, CryptoManager, OpenFailure,
};
use crate::primitives::chacha_open;
use crate::vault::{EncryptedVault, VaultView};

verus! {

/// The three session states of a vault.
pub ghost enum SessionState {
    /// No vault record exists.
    Uninitialized,
    /// A record exists; no key is held and no catalogue is cached.
    Locked,
    /// The key is held and the decrypted catalogue is cached.
    Unlocked,
}

/// A vault record sealed under a raw key: its nonce and ciphertext decode,
/// the key opens them, and the plaintext parses to exactly `es`.
pub open spec fn sealed_under(v: VaultView, key: Seq<u8>, es: Seq<EntryView>) -> bool {
    &&& b64_decode_of(v.nonce_text) is Some
    &&& b64_decode_of(v.nonce_text)->Some_0.len() == 12
    &&& b64_decode_of(v.ciphertext_text) is Some
    &&& chacha_open(key, b64_decode_of(v.nonce_text)->Some_0, b64_decode_of(v.ciphertext_text)->Some_0) is Some
    &&& parse_catalogue_spec(
        chacha_open(
            key,
            b64_decode_of(v.nonce_text)->Some_0,
            b64_decode_of(v.ciphertext_text)->Some_0,
        )->Some_0,
    ) == Some(es)
}

/// A vault record freshly created for a passphrase whose plaintext is the
/// encoding of the catalogue `es`.
pub open spec fn file_matches(v: VaultView, password: Seq<char>, es: Seq<EntryView>) -> bool {
    exists|bytes: Seq<u8>|
        #[trigger] created_vault_for(v, password, bytes) && parse_catalogue_spec(bytes) == Some(es)
}

/// Salt, hash record and format version carried over unchanged: the shape
/// of a routine save, which re-encrypts without re-deriving.
pub open spec fn same_header(a: VaultView, b: VaultView) -> bool {
    a.salt == b.salt && a.record == b.record && a.version == b.version
}

/// The entry view with its modification time replaced.
pub open spec fn with_modified(e: EntryView, t: u64) -> EntryView {
    EntryView {
        name: e.name,
        secret: e.secret,
        created_at: e.created_at,
        modified_at: t,
        metadata: e.metadata,
    }
}

/// Nothing observable moved.
pub open spec fn unchanged(s0: Store, s1: Store) -> bool {
    &&& s1.file_view() == s0.file_view()
    &&& s1.catalogue() == s0.catalogue()
    &&& s1.held_key() == s0.held_key()
}

/// The session over one vault: the crypto engine with its held key, the
/// authoritative vault record, and the decrypted catalogue cache. The key
/// and the cache move together, only through these operations.
pub struct Store {
    crypto: CryptoManager,
    file: Option<EncryptedVault>,
    cache: Option<Catalogue>,
}

impl Store {
    /// The persisted record, as the front end would read or write it.
    pub closed spec fn file_view(&self) -> Option<VaultView> {
        match self.file {
            Some(f) => Some(f@),
            None => None,
        }
    }

    /// The cached catalogue, present only while unlocked.
    pub closed spec fn catalogue(&self) -> Option<Seq<EntryView>> {
        match self.cache {
            Some(c) => Some(c@),
            None => None,
        }
    }

    /// The held master key, present only while unlocked.
    pub closed spec fn held_key(&self) -> Option<Seq<u8>> {
        self.crypto.held_key()
    }

    pub open spec fn state(&self) -> SessionState {
        if self.file_view() is None {
            SessionState::Uninitialized
        } else if self.catalogue() is None {
            SessionState::Locked
        } else {
            SessionState::Unlocked
        }
    }

    /// The session invariant: key and cache exist together; the cache is a
    /// well-formed catalogue; and while unlocked the authoritative record
    /// always decrypts, under the held key, to exactly the cached
    /// catalogue — no cache/file drift.
    pub open spec fn wf(&self) -> bool {
        &&& (self.held_key() is Some ==> self.held_key()->Some_0.len() == 32)
        &&& (self.catalogue() is Some <==> self.held_key() is Some)
        &&& (self.catalogue() is Some ==> self.file_view() is Some)
        &&& (self.catalogue() is Some ==> cat_wf(self.catalogue()->Some_0))
        &&& (self.catalogue() is Some ==> sealed_under(
            self.file_view()->Some_0,
            self.held_key()->Some_0,
            self.catalogue()->Some_0,
        ))
    }

    /// A session with no vault record yet.
    pub fn new() -> (r: Self)
        ensures
            r.wf(),
            r.state() is Uninitialized,
    {
        Store { crypto: CryptoManager::new(), file: None, cache: None }
    }

    /// A session over an existing record, starting locked.
    pub fn from_file(vault: EncryptedVault) -> (r: Self)
        ensures
            r.wf(),
            r.state() is Locked,
            r.file_view() == Some(vault@),
    {
        Store { crypto: CryptoManager::new(), file: Some(vault), cache: None }
    }

    /// The current record, for the front end to persist.
    pub fn current_file(&self) -> (r: Option<&EncryptedVault>)
        ensures
            match r {
                Some(f) => self.file_view() == Some(f@),
                None => self.file_view() is None,
            },
    {
        self.file.as_ref()
    }

    pub fn vault_exists(&self) -> (r: bool)
        ensures
            r == (self.file_view() is Some),
    {
        self.file.is_some()
    }

    pub fn is_locked(&self) -> (r: bool)
        ensures
            r == (self.catalogue() is None),
    {
        self.cache.is_none()
    }

    /// Creates the vault: only from the uninitialized state, with an empty
    /// catalogue, leaving the session unlocked.
    pub fn init(&mut self, password: &str) -> (r: Result<(), Error>)
        requires
            old(self).wf(),
        ensures
            final (self).wf(),
            old(self).file_view() is Some ==> (r matches Err(Error::AlreadyExists(t)) && t@
                == "vault"@) && unchanged(*old(self), *final (self)),
            old(self).file_view() is None ==> match r {
                Ok(()) => {
                    &&& final (self).state() is Unlocked
                    &&& final (self).catalogue() == Some(Seq::<EntryView>::empty())
                    &&& final (self).file_view() is Some
                    &&& file_matches(
                        final (self).file_view()->Some_0,
                        password@,
                        Seq::<EntryView>::empty(),
                    )
                    &&& final (self).held_key() == Some(
                        vault_key(password@, final (self).file_view()->Some_0),
                    )
                },
                Err(e) => (e is MalformedRecord || e is IoFailure) && unchanged(
                    *old(self),
                    *final (self),
                ),
            },
    {
        if self.file.is_some() {
            return Err(Error::AlreadyExists("vault".to_owned()));
        }
        let empty_cat = Catalogue::new();
        let bytes = crate::codec::serialize_entries(empty_cat.entries());
        if bytes.len() > 0xffff_ffffusize {
            return Err(Error::IoFailure("vault too large".to_owned()));
        }
        match self.crypto.create_vault(password, &bytes) {
            Err(e) => Err(e),
            Ok(v) => {
                self.file = Some(v);
                self.cache = Some(empty_cat);
                Ok(())
            },
        }
    }

    /// Opens the vault with the passphrase. Fail-closed: any failure but a
    /// missing record leaves the session locked with no key held.
    pub fn unlock(&mut self, password: &str) -> (r: Result<(), Error>)
        requires
            old(self).wf(),
        ensures
            final (self).wf(),
            final (self).file_view() == old(self).file_view(),
            old(self).file_view() is None ==> (r matches Err(Error::NotInitialized) && unchanged(*old(self), *final (self))),
            old(self).file_view() matches Some(v) ==> match open_spec(password@, v) {
                Ok(bytes) => match parse_catalogue_spec(bytes) {
                    Some(es) => r is Ok && final (self).catalogue() == Some(es) && final (self).held_key() == Some(vault_key(password@, v)),
                    None => r matches Err(Error::MalformedRecord) && final (self).catalogue()
                        is None && final (self).held_key() is None,
                },
                Err(f) => {
                    &&& final (self).catalogue() is None
                    &&& final (self).held_key() is None
                    &&& match f {
                        OpenFailure::WrongPassphrase => r matches Err(Error::WrongPassphrase),
                        OpenFailure::Malformed => r is Err && (r->Err_0 is MalformedRecord
                            || r->Err_0 is IoFailure),
                        OpenFailure::Integrity => r matches Err(Error::IntegrityFailure),
                    }
                },
            },
    {
        let file = match &self.file {
            None => {
                return Err(Error::NotInitialized);
            },
            Some(f) => f,
        };
        match self.crypto.open_vault(password, file) {
            Err(e) => {
                self.cache = None;
                self.crypto.lock();
                Err(e)
            },
            Ok(bytes) => {
                match crate::codec::parse_entries(&bytes) {
                    None => {
                        self.cache = None;
                        self.crypto.lock();
                        Err(Error::MalformedRecord)
                    },
                    Some(v) => {
                        let cat = Catalogue::from_entries(v);
                        self.cache = Some(cat);
                        Ok(())
                    },
                }
            },
        }
    }

    /// Locks the session: always succeeds, and purges the key and the
    /// cached catalogue together.
    pub fn lock(&mut self) -> (r: Result<(), Error>)
        requires
            old(self).wf(),
        ensures
            final (self).wf(),
            r is Ok,
            final (self).catalogue() is None,
            final (self).held_key() is None,
            final (self).file_view() == old(self).file_view(),
    {
        self.cache = None;
        self.crypto.lock();
        Ok(())
    }

    /// Re-encrypts the given catalogue under the held key and swaps record
    /// and cache in one step; the salt, hash record and version are kept.
    fn reseal(&mut self, newcat: Catalogue) -> (r: Result<(), Error>)
        requires
            old(self).wf(),
            old(self).state() is Unlocked,
            newcat.wf(),
        ensures
            final (self).wf(),
            match r {
                Ok(()) => {
                    &&& final (self).catalogue() == Some(newcat@)
                    &&& final (self).held_key() == old(self).held_key()
                    &&& final (self).file_view() is Some
                    &&& same_header(
                        final (self).file_view()->Some_0,
                        old(self).file_view()->Some_0,
                    )
                    &&& sealed_under(
                        final (self).file_view()->Some_0,
                        old(self).held_key()->Some_0,
                        newcat@,
                    )
                },
                Err(e) => e is IoFailure && unchanged(*old(self), *final (self)),
            },
    {
        let bytes = crate::codec::serialize_entries(newcat.entries());
        if bytes.len() > 0xffff_ffffusize {
            return Err(Error::IoFailure("vault too large".to_owned()));
        }
        match self.crypto.encrypt(&bytes) {
            Err(e) => {
                match e {
                    Error::IoFailure(c) => Err(Error::IoFailure(c)),
                    _ => {
                        proof {
                            assert(false);
                        }
                        Err(Error::MissingKey)
                    },
                }
            },
            Ok(nc) => {
                let nonce_text = crate::encoding::encode(nc.0.as_slice());
                let ct_text = crate::encoding::encode(nc.1.as_slice());
                let header = match &self.file {
                    Some(f) => (f.salt.clone(), f.argon2_params.clone(), f.version),
                    None => {
                        proof {
                            assert(false);
                        }
                        return Err(Error::NotInitialized);
                    },
                };
                self.file = Some(
                    EncryptedVault {
                        salt: header.0,
                        argon2_params: header.1,
                        nonce: nonce_text,
                        ciphertext: ct_text,
                        version: header.2,
                    },
                );
                self.cache = Some(newcat);
                Ok(())
            },
        }
    }

    /// Adds a new entry and persists; an existing name is refused and
    /// nothing — catalogue or record — changes on any failure.
    pub fn add(&mut self, entry: PasswordEntry) -> (r: Result<(), Error>)
        requires
            old(self).wf(),
            entry_wf(entry.deep_view()),
        ensures
            final (self).wf(),
            old(self).state() is Uninitialized ==> (r matches Err(Error::NotInitialized) && unchanged(*old(self), *final (self))),
            old(self).state() is Locked ==> (r matches Err(Error::MustUnlock) && unchanged(*old(self), *final (self))),
            old(self).state() is Unlocked ==> {
                let es = old(self).catalogue()->Some_0;
                let nm = entry.deep_view().name;
                &&& (has_name(es, nm) ==> (r matches Err(Error::AlreadyExists(t)) && t@ == nm)
                    && unchanged(*old(self), *final (self)))
                &&& (!has_name(es, nm) ==> match r {
                    Ok(()) => {
                        &&& final (self).catalogue() == Some(es.push(entry.deep_view()))
                        &&& final (self).held_key() == old(self).held_key()
                        &&& final (self).file_view() is Some
                        &&& same_header(
                            final (self).file_view()->Some_0,
                            old(self).file_view()->Some_0,
                        )
                    },
                    Err(e) => e is IoFailure && unchanged(*old(self), *final (self)),
                })
            },
    {
        if self.file.is_none() {
            return Err(Error::NotInitialized);
        }
        let cat = match &self.cache {
            None => {
                return Err(Error::MustUnlock);
            },
            Some(c) => c,
        };
        if cat.contains(&entry.name) {
            let t = entry.name.as_str().to_owned();
            proof {
                assert(t@ == entry.deep_view().name);
            }
            return Err(Error::AlreadyExists(t));
        }
        let mut newcat = cat.clone();
        newcat.insert_new(entry);
        self.reseal(newcat)
    }

    /// Fetches the entry by name; the secret leaves only in the result.
    pub fn get(&self, name: &EntryName) -> (r: Result<PasswordEntry, Error>)
        requires
            self.wf(),
        ensures
            self.state() is Uninitialized ==> r matches Err(Error::NotInitialized),
            self.state() is Locked ==> r matches Err(Error::MustUnlock),
            self.state() is Unlocked ==> {
                let es = self.catalogue()->Some_0;
                &&& (has_name(es, name@) ==> r is Ok && r->Ok_0@ == entry_of(es, name@))
                &&& (!has_name(es, name@) ==> (r matches Err(Error::NotFound(t)) && t@ == name@))
            },
    {
        if self.file.is_none() {
            return Err(Error::NotInitialized);
        }
        let cat = match &self.cache {
            None => {
                return Err(Error::MustUnlock);
            },
            Some(c) => c,
        };
        match cat.get(name) {
            Some(e) => Ok(e.clone()),
            None => Err(Error::NotFound(name.as_str().to_owned())),
        }
    }

    /// The names only, sorted; never a secret.
    pub fn list(&self) -> (r: Result<Vec<EntryName>, Error>)
        requires
            self.wf(),
        ensures
            self.state() is Uninitialized ==> r matches Err(Error::NotInitialized),
            self.state() is Locked ==> r matches Err(Error::MustUnlock),
            self.state() is Unlocked ==> match r {
                Ok(v) => {
                    let es = self.catalogue()->Some_0;
                    &&& v@.len() == es.len()
                    &&& (forall|p: int, q: int| 0 <= p < q < v@.len() ==> lex_lt(
                        #[trigger] v.deep_view()[p],
                        #[trigger] v.deep_view()[q],
                    ))
                    &&& (forall|n: Seq<char>| #[trigger] has_name(es, n) <==> v.deep_view().contains(n))
                },
                Err(_) => false,
            },
    {
        if self.file.is_none() {
            return Err(Error::NotInitialized);
        }
        match &self.cache {
            None => Err(Error::MustUnlock),
            Some(c) => Ok(c.names_sorted()),
        }
    }

    /// Upserts the entry by name, stamping a fresh modification time, and
    /// persists.
    pub fn update(&mut self, entry: PasswordEntry) -> (r: Result<(), Error>)
        requires
            old(self).wf(),
            entry_wf(entry.deep_view()),
        ensures
            final (self).wf(),
            old(self).state() is Uninitialized ==> (r matches Err(Error::NotInitialized) && unchanged(*old(self), *final (self))),
            old(self).state() is Locked ==> (r matches Err(Error::MustUnlock) && unchanged(*old(self), *final (self))),
            old(self).state() is Unlocked ==> match r {
                Ok(()) => {
                    let es = old(self).catalogue()->Some_0;
                    let nm = entry.deep_view().name;
                    &&& final (self).held_key() == old(self).held_key()
                    &&& final (self).file_view() is Some
                    &&& same_header(
                        final (self).file_view()->Some_0,
                        old(self).file_view()->Some_0,
                    )
                    &&& exists|t: u64|
                        {
                            let ev = #[trigger] with_modified(entry.deep_view(), t);
                            &&& (has_name(es, nm) ==> final (self).catalogue() == Some(
                                es.update(idx_of(es, nm), ev),
                            ))
                            &&& (!has_name(es, nm) ==> final (self).catalogue() == Some(
                                es.push(ev),
                            ))
                        }
                },
                Err(e) => e is IoFailure && unchanged(*old(self), *final (self)),
            },
    {
        if self.file.is_none() {
            return Err(Error::NotInitialized);
        }
        let cat = match &self.cache {
            None => {
                return Err(Error::MustUnlock);
            },
            Some(c) => c,
        };
        let ghost given = entry.deep_view();
        let mut entry = entry;
        let now = crate::primitives::now_secs();
        entry.modified_at = now;
        proof {
            assert(entry.deep_view() == with_modified(given, now));
        }
        let mut newcat = cat.clone();
        newcat.upsert(entry);
        let r = self.reseal(newcat);
        proof {
            if r is Ok {
                assert(with_modified(given, now) == with_modified(given, now));
            }
        }
        r
    }

    /// Removes the entry by name and persists; a missing name is refused
    /// with nothing changed, on catalogue or record.
    pub fn remove(&mut self, name: &EntryName) -> (r: Result<(), Error>)
        requires
            old(self).wf(),
        ensures
            final (self).wf(),
            old(self).state() is Uninitialized ==> (r matches Err(Error::NotInitialized) && unchanged(*old(self), *final (self))),
            old(self).state() is Locked ==> (r matches Err(Error::MustUnlock) && unchanged(*old(self), *final (self))),
            old(self).state() is Unlocked ==> {
                let es = old(self).catalogue()->Some_0;
                &&& (!has_name(es, name@) ==> (r matches Err(Error::NotFound(t)) && t@ == name@)
                    && unchanged(*old(self), *final (self)))
                &&& (has_name(es, name@) ==> match r {
                    Ok(()) => {
                        &&& final (self).catalogue() == Some(es.remove(idx_of(es, name@)))
                        &&& final (self).held_key() == old(self).held_key()
                        &&& final (self).file_view() is Some
                        &&& same_header(
                            final (self).file_view()->Some_0,
                            old(self).file_view()->Some_0,
                        )
                    },
                    Err(e) => e is IoFailure && unchanged(*old(self), *final (self)),
                })
            },
    {
        if self.file.is_none() {
            return Err(Error::NotInitialized);
        }
        let cat = match &self.cache {
            None => {
                return Err(Error::MustUnlock);
            },
            Some(c) => c,
        };
        let mut newcat = cat.clone();
        if !newcat.remove_name(name) {
            return Err(Error::NotFound(name.as_str().to_owned()));
        }
        self.reseal(newcat)
    }

    /// Rotates the passphrase: verifies the current one against the
    /// authoritative record, decrypts it, derives a brand-new salt, key
    /// and hash record for the new passphrase, re-encrypts, and swaps
    /// record, key and cache in one step.
    pub fn change_master_password(&mut self, current: &str, new_pass: &str) -> (r: Result<
        (),
        Error,
    >)
        requires
            old(self).wf(),
        ensures
            final (self).wf(),
            old(self).state() is Uninitialized ==> (r matches Err(Error::NotInitialized) && unchanged(*old(self), *final (self))),
            old(self).state() is Locked ==> (r matches Err(Error::MustUnlock) && unchanged(*old(self), *final (self))),
            old(self).state() is Unlocked ==> {
                let v = old(self).file_view()->Some_0;
                match open_spec(current@, v) {
                    Ok(bytes) => match parse_catalogue_spec(bytes) {
                        Some(es) => match r {
                            Ok(()) => {
                                &&& final (self).catalogue() == Some(es)
                                &&& final (self).file_view() is Some
                                &&& file_matches(
                                    final (self).file_view()->Some_0,
                                    new_pass@,
                                    es,
                                )
                                &&& final (self).held_key() == Some(
                                    vault_key(new_pass@, final (self).file_view()->Some_0),
                                )
                            },
                            Err(e) => (e is MalformedRecord || e is IoFailure) && final (self).file_view() == old(self).file_view(),
                        },
                        None => r matches Err(Error::MalformedRecord) && final (self).catalogue()
                            is None && final (self).held_key() is None && final (self).file_view()
                            == old(self).file_view(),
                    },
                    Err(f) => {
                        &&& final (self).file_view() == old(self).file_view()
                        &&& match f {
                            OpenFailure::WrongPassphrase => r matches Err(Error::WrongPassphrase)
                                && unchanged(*old(self), *final (self)),
                            OpenFailure::Malformed => r is Err && (r->Err_0 is MalformedRecord
                                || r->Err_0 is IoFailure) && final (self).catalogue() is None
                                && final (self).held_key() is None,
                            OpenFailure::Integrity => r matches Err(Error::IntegrityFailure)
                                && final (self).catalogue() is None && final (self).held_key()
                                is None,
                        }
                    },
                }
            },
    {
        if self.file.is_none() {
            return Err(Error::NotInitialized);
        }
        if self.cache.is_none() {
            return Err(Error::MustUnlock);
        }
        let file = match &self.file {
            None => {
                proof {
                    assert(false);
                }
                return Err(Error::NotInitialized);
            },
            Some(f) => f,
        };
        let bytes = match self.crypto.open_vault(current, file) {
            Err(e) => {
                match e {
                    Error::WrongPassphrase => {
                        return Err(Error::WrongPassphrase);
                    },
                    other => {
                        self.cache = None;
                        self.crypto.lock();
                        return Err(other);
                    },
                }
            },
            Ok(b) => b,
        };
        match crate::codec::parse_entries(&bytes) {
            None => {
                self.cache = None;
                self.crypto.lock();
                Err(Error::MalformedRecord)
            },
            Some(v) => {
                let newcat = crate::catalogue::Catalogue::from_entries(v);
                let bytes2 = crate::codec::serialize_entries(newcat.entries());
                if bytes2.len() > 0xffff_ffffusize {
                    self.cache = Some(newcat);
                    return Err(Error::IoFailure("vault too large".to_owned()));
                }
                match self.crypto.create_vault(new_pass, &bytes2) {
                    Err(e) => {
                        self.cache = Some(newcat);
                        Err(e)
                    },
                    Ok(newfile) => {
                        self.file = Some(newfile);
                        self.cache = Some(newcat);
                        Ok(())
                    },
                }
            },
        }
    }
}

} // verus!

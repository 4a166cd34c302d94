use vstd::prelude::*;
use crate::encoding::b64_decode_of;
use crate::error::Error;
use crate::primitives::{
    argon2_hash, argon2_verify, chacha_decrypt, chacha_encrypt, chacha_open, chacha_seal,
    master_key_of, phc_parses, phc_record_of, phc_verifies, random_bytes, sha256,
};
use crate::vault::{EncryptedVault, VaultView};

verus! {

/// The salt lengths that the password hasher accepts.
pub open spec fn salt_len_ok(s: Seq<u8>) -> bool {
    8 <= s.len() <= 48
}

/// How opening a vault record can fail.
pub ghost enum OpenFailure {
    /// A stored field (hash record, salt, nonce, ciphertext) could not be
    /// parsed or used.
    Malformed,
    /// The passphrase does not verify against the stored hash record.
    WrongPassphrase,
    /// Tag verification failed: wrong key or corrupted data.
    Integrity,
}

/// The key a passphrase derives for a vault record, from the record's
/// stored salt.
pub open spec fn vault_key(password: Seq<char>, v: VaultView) -> Seq<u8> {
    master_key_of(password, b64_decode_of(v.salt)->Some_0)
}

/// What opening a vault record with a passphrase yields: the passphrase is
/// verified against the hash record first, then the key is derived from
/// the stored salt and the ciphertext is opened.
pub open spec fn open_spec(password: Seq<char>, v: VaultView) -> Result<Seq<u8>, OpenFailure> {
    if !phc_parses(v.record) {
        Err(OpenFailure::Malformed)
    } else if !phc_verifies(password, v.record) {
        Err(OpenFailure::WrongPassphrase)
    } else if b64_decode_of(v.salt) is None || !salt_len_ok(b64_decode_of(v.salt)->Some_0) {
        Err(OpenFailure::Malformed)
    } else if b64_decode_of(v.nonce_text) is None || b64_decode_of(v.nonce_text)->Some_0.len()
        != 12 {
        Err(OpenFailure::Malformed)
    } else if b64_decode_of(v.ciphertext_text) is None {
        Err(OpenFailure::Malformed)
    } else {
        match chacha_open(
            vault_key(password, v),
            b64_decode_of(v.nonce_text)->Some_0,
            b64_decode_of(v.ciphertext_text)->Some_0,
        ) {
            Some(p) => Ok(p),
            None => Err(OpenFailure::Integrity),
        }
    }
}

/// A vault record freshly created for `password` around plaintext `data`:
/// version 1, a decodable salt of accepted length, the hash record derived
/// from exactly that passphrase and salt, and a ciphertext that the
/// derived key opens back to `data`.
pub open spec fn created_vault_for(v: VaultView, password: Seq<char>, data: Seq<u8>) -> bool {
    &&& v.version == 1
    &&& b64_decode_of(v.salt) is Some
    &&& salt_len_ok(b64_decode_of(v.salt)->Some_0)
    &&& v.record == phc_record_of(password, b64_decode_of(v.salt)->Some_0)
    &&& phc_parses(v.record)
    &&& phc_verifies(password, v.record)
    &&& (forall|p2: Seq<char>| p2 != password ==> !phc_verifies(p2, v.record))
    &&& b64_decode_of(v.nonce_text) is Some
    &&& b64_decode_of(v.nonce_text)->Some_0.len() == 12
    &&& b64_decode_of(v.ciphertext_text) is Some
    &&& chacha_open(
        vault_key(password, v),
        b64_decode_of(v.nonce_text)->Some_0,
        b64_decode_of(v.ciphertext_text)->Some_0,
    ) == Some(data)
}

/// A fresh vault opens back to its plaintext under the passphrase it was
/// created with.
pub proof fn lemma_created_vault_round_trip(v: VaultView, password: Seq<char>, data: Seq<u8>)
    requires
        created_vault_for(v, password, data),
    ensures
        open_spec(password, v) == Ok::<Seq<u8>, OpenFailure>(data),
{
}

/// A fresh vault refuses every other passphrase.
pub proof fn lemma_created_vault_wrong_passphrase(
    v: VaultView,
    p1: Seq<char>,
    p2: Seq<char>,
    data: Seq<u8>,
)
    requires
        created_vault_for(v, p1, data),
        p2 != p1,
    ensures
        open_spec(p2, v) == Err::<Seq<u8>, OpenFailure>(OpenFailure::WrongPassphrase),
{
}

/// The passphrase-based crypto engine: derives keys, verifies passphrases,
/// seals and opens vault payloads, and owns the one live master key.
pub struct CryptoManager {
    master_key: Option<Vec<u8>>,
}

impl CryptoManager {
    /// The key held, if any.
    pub closed spec fn held_key(&self) -> Option<Seq<u8>> {
        match self.master_key {
            Some(k) => Some(k@),
            None => None,
        }
    }

    pub open spec fn wf(&self) -> bool {
        self.held_key() is Some ==> self.held_key()->Some_0.len() == 32
    }

    pub fn new() -> (r: Self)
        ensures
            r.held_key() is None,
            r.wf(),
    {
        CryptoManager { master_key: None }
    }

    /// Derives and holds the master key for the passphrase, under the
    /// given base64 salt or a fresh random one; returns the salt text used.
    pub fn derive_master_key(&mut self, password: &str, salt: Option<&str>) -> (r: Result<
        String,
        Error,
    >)
        requires
            old(self).wf(),
        ensures
            final (self).wf(),
            match r {
                Ok(s) => {
                    &&& b64_decode_of(s@) is Some
                    &&& salt_len_ok(b64_decode_of(s@)->Some_0)
                    &&& final (self).held_key() == Some(
                        master_key_of(password@, b64_decode_of(s@)->Some_0),
                    )
                    &&& (salt is Some ==> s@ == salt->Some_0@)
                },
                Err(e) => {
                    &&& final (self).held_key() == old(self).held_key()
                    &&& (e is MalformedRecord || e is IoFailure)
                    &&& (salt is Some ==> (b64_decode_of(salt->Some_0@) is None || !salt_len_ok(
                        b64_decode_of(salt->Some_0@)->Some_0,
                    )))
                },
            },
    {
        let raw: Vec<u8>;
        let salt_text: String;
        match salt {
            Some(t) => {
                match crate::encoding::decode(t) {
                    Ok(v) => {
                        raw = v;
                        salt_text = t.to_owned();
                    },
                    Err(_) => {
                        return Err(Error::MalformedRecord);
                    },
                }
            },
            None => {
                match random_bytes(16) {
                    Some(v) => {
                        salt_text = crate::encoding::encode(v.as_slice());
                        raw = v;
                    },
                    None => {
                        return Err(Error::IoFailure("no entropy available".to_owned()));
                    },
                }
            },
        }
        match argon2_hash(password, &raw) {
            None => Err(Error::MalformedRecord),
            Some(rd) => {
                let key = sha256(&rd.1);
                self.master_key = Some(key);
                Ok(salt_text)
            },
        }
    }

    /// Checks the passphrase against the stored hash record; on success
    /// also derives and holds the key from the stored salt.
    pub fn verify_password(&mut self, password: &str, vault: &EncryptedVault) -> (r: Result<
        (),
        Error,
    >)
        requires
            old(self).wf(),
        ensures
            final (self).wf(),
            match r {
                Ok(()) => {
                    &&& phc_parses(vault@.record)
                    &&& phc_verifies(password@, vault@.record)
                    &&& b64_decode_of(vault@.salt) is Some
                    &&& salt_len_ok(b64_decode_of(vault@.salt)->Some_0)
                    &&& final (self).held_key() == Some(vault_key(password@, vault@))
                },
                Err(e) => {
                    &&& final (self).held_key() == old(self).held_key()
                    &&& (e is WrongPassphrase <==> (phc_parses(vault@.record) && !phc_verifies(
                        password@,
                        vault@.record,
                    )))
                    &&& (e is WrongPassphrase || e is MalformedRecord || e is IoFailure)
                },
            },
            (phc_parses(vault@.record) && phc_verifies(password@, vault@.record) && b64_decode_of(
                vault@.salt,
            ) is Some && salt_len_ok(b64_decode_of(vault@.salt)->Some_0)) ==> r is Ok,
    {
        match argon2_verify(password, vault.argon2_params.as_str()) {
            None => Err(Error::MalformedRecord),
            Some(false) => Err(Error::WrongPassphrase),
            Some(true) => {
                match self.derive_master_key(password, Some(vault.salt.as_str())) {
                    Ok(_s) => Ok(()),
                    Err(e) => Err(e),
                }
            },
        }
    }

    /// Seals a payload under the held key with a fresh random nonce; never
    /// a caller-supplied one. Without a key it fails with MissingKey.
    pub fn encrypt(&self, plaintext: &Vec<u8>) -> (r: Result<(Vec<u8>, Vec<u8>), Error>)
        requires
            self.wf(),
            plaintext@.len() <= 0xffff_ffff,
        ensures
            self.held_key() is None <==> r matches Err(Error::MissingKey),
            match r {
                Ok(p) => {
                    &&& self.held_key() is Some
                    &&& p.0@.len() == 12
                    &&& p.1@ == chacha_seal(self.held_key()->Some_0, p.0@, plaintext@)
                    &&& chacha_open(self.held_key()->Some_0, p.0@, p.1@) == Some(plaintext@)
                },
                Err(e) => e is MissingKey || e is IoFailure,
            },
    {
        match &self.master_key {
            None => Err(Error::MissingKey),
            Some(k) => {
                match random_bytes(12) {
                    None => Err(Error::IoFailure("no entropy available".to_owned())),
                    Some(nonce) => {
                        let ct = chacha_encrypt(k, &nonce, plaintext);
                        Ok((nonce, ct))
                    },
                }
            },
        }
    }

    /// Opens a sealed payload under the held key. A failed tag check is
    /// IntegrityFailure: wrong key and corrupted data are never told
    /// apart.
    pub fn decrypt(&self, nonce: &Vec<u8>, ciphertext: &Vec<u8>) -> (r: Result<Vec<u8>, Error>)
        requires
            self.wf(),
        ensures
            self.held_key() is None ==> r matches Err(Error::MissingKey),
            self.held_key() is Some && nonce@.len() != 12 ==> r matches Err(
                Error::MalformedRecord,
            ),
            self.held_key() is Some && nonce@.len() == 12 ==> match chacha_open(
                self.held_key()->Some_0,
                nonce@,
                ciphertext@,
            ) {
                Some(p) => r is Ok && r->Ok_0@ == p,
                None => r matches Err(Error::IntegrityFailure),
            },
    {
        match &self.master_key {
            None => Err(Error::MissingKey),
            Some(k) => {
                if nonce.len() != 12 {
                    Err(Error::MalformedRecord)
                } else {
                    match chacha_decrypt(k, nonce, ciphertext) {
                        Some(p) => Ok(p),
                        None => Err(Error::IntegrityFailure),
                    }
                }
            },
        }
    }

    /// Builds a fresh vault record for the passphrase: new random salt,
    /// new hash record, new key (held afterwards), fresh nonce,
    /// re-encrypted payload, format version 1.
    pub fn create_vault(&mut self, password: &str, data: &Vec<u8>) -> (r: Result<
        EncryptedVault,
        Error,
    >)
        requires
            old(self).wf(),
            data@.len() <= 0xffff_ffff,
        ensures
            final (self).wf(),
            match r {
                Ok(v) => {
                    &&& created_vault_for(v@, password@, data@)
                    &&& final (self).held_key() == Some(vault_key(password@, v@))
                },
                Err(e) => {
                    &&& final (self).held_key() == old(self).held_key()
                    &&& (e is MalformedRecord || e is IoFailure)
                },
            },
    {
        let raw = match random_bytes(16) {
            Some(v) => v,
            None => {
                return Err(Error::IoFailure("no entropy available".to_owned()));
            },
        };
        let rd = match argon2_hash(password, &raw) {
            Some(p) => p,
            None => {
                return Err(Error::MalformedRecord);
            },
        };
        let key = sha256(&rd.1);
        let salt_text = crate::encoding::encode(raw.as_slice());
        let nonce = match random_bytes(12) {
            Some(v) => v,
            None => {
                return Err(Error::IoFailure("no entropy available".to_owned()));
            },
        };
        let ct = chacha_encrypt(&key, &nonce, data);
        let nonce_text = crate::encoding::encode(nonce.as_slice());
        let ct_text = crate::encoding::encode(ct.as_slice());
        self.master_key = Some(key);
        Ok(
            EncryptedVault {
                salt: salt_text,
                argon2_params: rd.0,
                nonce: nonce_text,
                ciphertext: ct_text,
                version: 1,
            },
        )
    }

    /// Verifies the passphrase, derives the key from the stored salt, and
    /// decrypts the payload; agrees exactly with `open_spec`.
    pub fn open_vault(&mut self, password: &str, vault: &EncryptedVault) -> (r: Result<
        Vec<u8>,
        Error,
    >)
        requires
            old(self).wf(),
        ensures
            final (self).wf(),
            match open_spec(password@, vault@) {
                Ok(p) => r is Ok && r->Ok_0@ == p && final (self).held_key() == Some(
                    vault_key(password@, vault@),
                ),
                Err(f) => r is Err && match f {
                    OpenFailure::Malformed => (r->Err_0 is MalformedRecord || r->Err_0
                        is IoFailure),
                    OpenFailure::WrongPassphrase => r->Err_0 is WrongPassphrase
                        && final (self).held_key() == old(self).held_key(),
                    OpenFailure::Integrity => r->Err_0 is IntegrityFailure,
                },
            },
    {
        match self.verify_password(password, vault) {
            Err(e) => Err(e),
            Ok(()) => {
                let nonce = match crate::encoding::decode(vault.nonce.as_str()) {
                    Ok(v) => v,
                    Err(_) => {
                        return Err(Error::MalformedRecord);
                    },
                };
                let ct = match crate::encoding::decode(vault.ciphertext.as_str()) {
                    Ok(v) => v,
                    Err(_) => {
                        return Err(Error::MalformedRecord);
                    },
                };
                self.decrypt(&nonce, &ct)
            },
        }
    }

    /// Whether a key is held: the unlocked state of the engine.
    pub fn is_unlocked(&self) -> (r: bool)
        ensures
            r == (self.held_key() is Some),
    {
        self.master_key.is_some()
    }

    /// Purges the held key: the bytes are overwritten with zeros before
    /// the buffer is released, and the engine reports locked at once.
    pub fn lock(&mut self)
        ensures
            final (self).held_key() is None,
            final (self).wf(),
    {
        let taken = self.master_key.take();
        match taken {
            None => {},
            Some(mut k) => {
                let n = k.len();
                let mut i: usize = 0;
                while i < n
                    invariant
                        n == k@.len(),
                        i <= n,
                    decreases n - i,
                {
                    k.set(i, 0);
                    i = i + 1;
                }
            },
        }
    }
}

} // verus!

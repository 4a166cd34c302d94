use vstd::prelude::*;

verus! {

/// The persisted vault record: every field textual, one record per vault
/// file. The salt, nonce and ciphertext are base64; `argon2_params` is the
/// self-describing PHC hash record used to verify the passphrase.
pub struct EncryptedVault {
    pub salt: String,
    pub argon2_params: String,
    pub nonce: String,
    pub ciphertext: String,
    pub version: u32,
}

/// The abstract value of an `EncryptedVault`.
pub ghost struct VaultView {
    pub salt: Seq<char>,
    pub record: Seq<char>,
    pub nonce_text: Seq<char>,
    pub ciphertext_text: Seq<char>,
    pub version: u32,
}

impl View for EncryptedVault {
    type V = VaultView;

    open spec fn view(&self) -> VaultView {
        VaultView {
            salt: self.salt@,
            record: self.argon2_params@,
            nonce_text: self.nonce@,
            ciphertext_text: self.ciphertext@,
            version: self.version,
        }
    }
}

impl Clone for EncryptedVault {
    fn clone(&self) -> (r: Self)
        ensures
            r@ == self@,
    {
        EncryptedVault {
            salt: self.salt.clone(),
            argon2_params: self.argon2_params.clone(),
            nonce: self.nonce.clone(),
            ciphertext: self.ciphertext.clone(),
            version: self.version,
        }
    }
}

} // verus!

use vstd::prelude::*;

verus! {

/// Relies on std::time::SystemTime::now: the current time in whole seconds
/// since the Unix epoch. Nothing is promised of the value; it only stamps
/// entries.
#[verifier::external_body]
pub fn now_secs() -> u64 {
    match std::time::SystemTime::now().duration_since(std::time::UNIX_EPOCH) {
        Ok(d) => d.as_secs(),
        Err(_) => 0,
    }
}

// ---------------------------------------------------------------------
// Names for what the crypto crates return. Each is a pure function of its
// arguments; what is known of it is stated only on the wrappers below.
/// The PHC record string that argon2 (default parameters) produces for a
/// passphrase and a raw salt.
pub uninterp spec fn phc_record_of(password: Seq<char>, salt: Seq<u8>) -> Seq<char>;

/// The raw argon2 hash bytes for a passphrase and a raw salt.
pub uninterp spec fn argon2_digest_of(password: Seq<char>, salt: Seq<u8>) -> Seq<u8>;

/// Whether a text parses as a PHC hash record.
pub uninterp spec fn phc_parses(record: Seq<char>) -> bool;

/// Whether argon2 verification of a passphrase against a PHC record
/// succeeds.
pub uninterp spec fn phc_verifies(password: Seq<char>, record: Seq<char>) -> bool;

/// The SHA-256 digest of a byte string.
pub uninterp spec fn sha256_of(data: Seq<u8>) -> Seq<u8>;

/// The ChaCha20-Poly1305 ciphertext (tag appended) for a key, nonce and
/// plaintext.
pub uninterp spec fn chacha_seal(key: Seq<u8>, nonce: Seq<u8>, plaintext: Seq<u8>) -> Seq<u8>;

/// The result of ChaCha20-Poly1305 decryption: the plaintext when the tag
/// verifies, nothing otherwise.
pub uninterp spec fn chacha_open(key: Seq<u8>, nonce: Seq<u8>, ciphertext: Seq<u8>) -> Option<
    Seq<u8>,
>;

/// The master key a passphrase and salt derive: the argon2 hash passed
/// through SHA-256 to fix the key width.
pub open spec fn master_key_of(password: Seq<char>, salt: Seq<u8>) -> Seq<u8> {
    sha256_of(argon2_digest_of(password, salt))
}

/// Relies on rand's OsRng (RngCore::try_fill_bytes): `n` bytes from the
/// operating system entropy source. Nothing is promised of the values.
#[verifier::external_body]
pub fn random_bytes(n: usize) -> (r: Option<Vec<u8>>)
    ensures
        r is Some ==> r->Some_0@.len() == n,
{
    let mut buf = vec![0u8; n];
    match rand::RngCore::try_fill_bytes(&mut rand::rngs::OsRng, &mut buf) {
        Ok(()) => Some(buf),
        Err(_) => None,
    }
}

/// Relies on argon2's `hash_password_with_salt` under default parameters:
/// the PHC record and the raw hash bytes depend on the passphrase and salt
/// alone. The record it produces parses, verifies the same passphrase, and
/// no other: verification recomputes the hash and compares, and a
/// collision between distinct passphrases under one salt is assumed not to
/// occur. It fails on a salt outside the accepted lengths.
#[verifier::external_body]
pub fn argon2_hash(password: &str, salt: &Vec<u8>) -> (r: Option<(String, Vec<u8>)>)
    ensures
        r is Some <==> 8 <= salt@.len() <= 48,
        r is Some ==> ({
            let (record, digest) = r->Some_0;
            &&& record@ == phc_record_of(password@, salt@)
            &&& digest@ == argon2_digest_of(password@, salt@)
            &&& phc_parses(record@)
            &&& phc_verifies(password@, record@)
            &&& forall|p2: Seq<char>| p2 != password@ ==> !phc_verifies(p2, record@)
        }),
{
    let argon = argon2::Argon2::default();
    let hash = match argon2::PasswordHasher::hash_password_with_salt(
        &argon,
        password.as_bytes(),
        salt.as_slice(),
    ) {
        Ok(h) => h,
        Err(_) => return None,
    };
    let digest = match &hash.hash {
        Some(out) => out.as_bytes().to_vec(),
        None => return None,
    };
    Some((hash.to_string(), digest))
}

/// Relies on argon2's `verify_password` against a PHC record string: it
/// parses the record, recomputes the hash and compares. `PasswordInvalid`
/// is the mismatch outcome; every other error means the record itself was
/// not usable.
#[verifier::external_body]
pub fn argon2_verify(password: &str, record: &str) -> (r: Option<bool>)
    ensures
        r is Some <==> phc_parses(record@),
        r == Some(true) <==> (phc_parses(record@) && phc_verifies(password@, record@)),
{
    let argon = argon2::Argon2::default();
    match argon2::PasswordVerifier::verify_password(&argon, password.as_bytes(), record) {
        Ok(()) => Some(true),
        Err(argon2::password_hash::Error::PasswordInvalid) => Some(false),
        Err(_) => None,
    }
}

/// Relies on sha2's Sha256: a 32-byte digest, a function of the input
/// alone.
#[verifier::external_body]
pub fn sha256(data: &Vec<u8>) -> (r: Vec<u8>)
    ensures
        r@ == sha256_of(data@),
        r@.len() == 32,
{
    let out = <sha2::Sha256 as sha2::Digest>::digest(data.as_slice());
    out.to_vec()
}

/// Relies on chacha20poly1305's `encrypt`: deterministic in key, nonce and
/// plaintext, appends the 16-byte tag, and its own `decrypt` under the
/// same key and nonce returns the plaintext. Its only failure is a message
/// beyond the cipher's block limit, far above the length admitted here.
#[verifier::external_body]
pub fn chacha_encrypt(key: &Vec<u8>, nonce: &Vec<u8>, plaintext: &Vec<u8>) -> (r: Vec<u8>)
    requires
        key@.len() == 32,
        nonce@.len() == 12,
        plaintext@.len() <= 0xffff_ffff,
    ensures
        r@ == chacha_seal(key@, nonce@, plaintext@),
        r@.len() == plaintext@.len() + 16,
        chacha_open(key@, nonce@, r@) == Some(plaintext@),
{
    let cipher = <chacha20poly1305::ChaCha20Poly1305 as chacha20poly1305::KeyInit>::new_from_slice(
        key.as_slice(),
    ).unwrap();
    let n = chacha20poly1305::Nonce::try_from(nonce.as_slice()).unwrap();
    chacha20poly1305::aead::Aead::encrypt(&cipher, &n, plaintext.as_slice()).unwrap()
}

/// Relies on chacha20poly1305's `decrypt`: deterministic in key, nonce and
/// ciphertext; it fails exactly when the authentication tag does not
/// verify.
#[verifier::external_body]
pub fn chacha_decrypt(key: &Vec<u8>, nonce: &Vec<u8>, ciphertext: &Vec<u8>) -> (r: Option<Vec<u8>>)
    requires
        key@.len() == 32,
        nonce@.len() == 12,
    ensures
        r is Some <==> chacha_open(key@, nonce@, ciphertext@) is Some,
        r is Some ==> Some(r->Some_0@) == chacha_open(key@, nonce@, ciphertext@),
{
    let cipher = <chacha20poly1305::ChaCha20Poly1305 as chacha20poly1305::KeyInit>::new_from_slice(
        key.as_slice(),
    ).unwrap();
    let n = chacha20poly1305::Nonce::try_from(nonce.as_slice()).unwrap();
    chacha20poly1305::aead::Aead::decrypt(&cipher, &n, ciphertext.as_slice()).ok()
}

/// Relies on String::from_utf8: it succeeds exactly on valid UTF-8 input
/// and yields the characters that the bytes encode.
#[verifier::external_body]
pub fn string_from_utf8(v: Vec<u8>) -> (r: Option<String>)
    ensures
        r is Some <==> vstd::utf8::valid_utf8(v@),
        r is Some ==> r->Some_0@ == vstd::utf8::decode_utf8(v@),
{
    String::from_utf8(v).ok()
}

} // verus!

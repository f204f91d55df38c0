use vstd::prelude::*;

use crate::errors::RetrieveError;
use crate::errors::UploadError;

verus! {

/// The AEAD in use (AES-256-GCM) rejects plaintexts longer than this many
/// bytes; anything up to and including it encrypts successfully.
pub const MAX_PLAINTEXT_BYTES: u64 = 0x10_0000_0000;

/// Authentication tag length in bytes: every ciphertext is exactly this much
/// longer than its plaintext.
pub const TAG_BYTES: u64 = 16;

/// The ciphertext that AES-256-GCM produces for the given key, nonce and
/// plaintext. Encryption is a function of these three values alone.
pub uninterp spec fn aead_cipher_of(key: Seq<u8>, nonce: Seq<u8>, plaintext: Seq<u8>) -> Seq<u8>;

/// The outcome of AES-256-GCM decryption for the given key, nonce and
/// ciphertext: the recovered plaintext, or `None` when the authentication
/// tag does not match. Decryption is a function of these three values alone.
pub uninterp spec fn aead_plain_of(key: Seq<u8>, nonce: Seq<u8>, ciphertext: Seq<u8>) -> Option<
    Seq<u8>,
>;

/// Relies on `aes_gcm::Aes256Gcm` through `aead::Aead::encrypt`: the result
/// is the plaintext encrypted under the key and nonce with a 16-byte
/// authentication tag appended, it fails exactly when the plaintext is
/// longer than 2^36 bytes, and decrypting it under the same key and nonce
/// yields the original plaintext.
#[verifier::external_body]
fn aead_encrypt(key: &Vec<u8>, nonce: &Vec<u8>, plaintext: &Vec<u8>) -> (r: Option<Vec<u8>>)
    requires
        key@.len() == 32,
        nonce@.len() == 12,
    ensures
        r is Some <==> plaintext@.len() <= MAX_PLAINTEXT_BYTES,
        r matches Some(ct) ==> {
            &&& ct@ == aead_cipher_of(key@, nonce@, plaintext@)
            &&& ct@.len() == plaintext@.len() + TAG_BYTES
            &&& aead_plain_of(key@, nonce@, ct@) == Some(plaintext@)
        },
{
    let cipher = <aes_gcm::Aes256Gcm as aes_gcm::KeyInit>::new(
        aes_gcm::Key::<aes_gcm::Aes256Gcm>::from_slice(key.as_slice()),
    );
    match aes_gcm::aead::Aead::encrypt(
        &cipher,
        aes_gcm::Nonce::from_slice(nonce.as_slice()),
        plaintext.as_slice(),
    ) {
        Ok(ct) => Some(ct),
        Err(_) => None,
    }
}

/// Relies on `aes_gcm::Aes256Gcm` through `aead::Aead::decrypt`: the outcome
/// is a function of key, nonce and ciphertext alone; on success the
/// plaintext is 16 bytes shorter than the ciphertext, and on a failed
/// authentication check nothing is returned.
#[verifier::external_body]
fn aead_decrypt(key: &Vec<u8>, nonce: &Vec<u8>, ciphertext: &Vec<u8>) -> (r: Option<Vec<u8>>)
    requires
        key@.len() == 32,
        nonce@.len() == 12,
    ensures
        match r {
            Some(p) => aead_plain_of(key@, nonce@, ciphertext@) == Some(p@) && p@.len() + TAG_BYTES
                == ciphertext@.len(),
            None => aead_plain_of(key@, nonce@, ciphertext@) is None,
        },
{
    let cipher = <aes_gcm::Aes256Gcm as aes_gcm::KeyInit>::new(
        aes_gcm::Key::<aes_gcm::Aes256Gcm>::from_slice(key.as_slice()),
    );
    match aes_gcm::aead::Aead::decrypt(
        &cipher,
        aes_gcm::Nonce::from_slice(nonce.as_slice()),
        ciphertext.as_slice(),
    ) {
        Ok(p) => Some(p),
        Err(_) => None,
    }
}

/// Relies on `aes_gcm::aead::KeyInit::generate_key` with the operating
/// system's randomness source: the result is a fresh 32-byte key. Nothing
/// else can be promised of a random value.
#[verifier::external_body]
fn fresh_key() -> (r: Vec<u8>)
    ensures
        r@.len() == 32,
{
    let key = <aes_gcm::Aes256Gcm as aes_gcm::KeyInit>::generate_key(aes_gcm::aead::OsRng);
    key.as_slice().to_vec()
}

/// Relies on `aes_gcm::aead::AeadCore::generate_nonce` with the operating
/// system's randomness source: the result is a fresh 12-byte nonce. Nothing
/// else can be promised of a random value.
#[verifier::external_body]
fn fresh_nonce() -> (r: Vec<u8>)
    ensures
        r@.len() == 12,
{
    let nonce = <aes_gcm::Aes256Gcm as aes_gcm::aead::AeadCore>::generate_nonce(
        aes_gcm::aead::OsRng,
    );
    nonce.as_slice().to_vec()
}

/// Everything needed to reverse one object's encryption: the ciphertext and
/// the key material and nonce it was produced under. Each object gets a
/// fresh random key, so no nonce is ever reused under a shared key.
pub struct CipherRecord {
    pub ciphertext: Vec<u8>,
    pub key: Vec<u8>,
    pub nonce: Vec<u8>,
}

impl CipherRecord {
    /// The key material has the sizes the cipher demands.
    pub open spec fn keyed(self) -> bool {
        self.key@.len() == 32 && self.nonce@.len() == 12
    }

    /// What decrypting this record yields: the stored plaintext, or `None`
    /// when the ciphertext fails authentication under its own key and nonce.
    pub open spec fn plain(self) -> Option<Seq<u8>> {
        aead_plain_of(self.key@, self.nonce@, self.ciphertext@)
    }

    /// A record as the engine produces it: properly keyed, authentic, and
    /// exactly one tag longer than its plaintext.
    pub open spec fn wf(self) -> bool {
        &&& self.keyed()
        &&& self.plain() matches Some(p) && p.len() + TAG_BYTES == self.ciphertext@.len()
    }
}

/// Encrypt one object's payload under a fresh random key and nonce.
/// Succeeds on every plaintext the cipher accepts (up to 2^36 bytes) and
/// returns a record that decrypts back to exactly this plaintext.
pub fn encrypt(plaintext: &Vec<u8>) -> (r: Result<CipherRecord, UploadError>)
    ensures
        match r {
            Ok(rec) => rec.wf() && rec.plain() == Some(plaintext@) && rec.ciphertext@.len()
                == plaintext@.len() + TAG_BYTES,
            Err(e) => e == UploadError::IOFailure && plaintext@.len() > MAX_PLAINTEXT_BYTES,
        },
{
    let key = fresh_key();
    let nonce = fresh_nonce();
    match aead_encrypt(&key, &nonce, plaintext) {
        Some(ciphertext) => Ok(CipherRecord { ciphertext, key, nonce }),
        None => Err(UploadError::IOFailure),
    }
}

/// Decrypt one record. Fails closed: either the exact plaintext the record
/// holds comes back, or the authentication check failed and nothing does.
pub fn decrypt(record: &CipherRecord) -> (r: Result<Vec<u8>, RetrieveError>)
    requires
        record.keyed(),
    ensures
        match r {
            Ok(p) => record.plain() == Some(p@) && p@.len() + TAG_BYTES
                == record.ciphertext@.len(),
            Err(e) => e == RetrieveError::AuthenticationFailure && record.plain() is None,
        },
{
    match aead_decrypt(&record.key, &record.nonce, &record.ciphertext) {
        Some(p) => Ok(p),
        None => Err(RetrieveError::AuthenticationFailure),
    }
}

/// Law: a payload encrypted by the engine decrypts back to itself. For every
/// plaintext within the cipher's size bound the whole pass succeeds, and
/// whenever it succeeds the bytes that come back are the original ones.
pub fn encrypt_then_decrypt(plaintext: &Vec<u8>) -> (r: Option<Vec<u8>>)
    ensures
        plaintext@.len() <= MAX_PLAINTEXT_BYTES ==> r is Some,
        r matches Some(p) ==> p@ == plaintext@,
{
    match encrypt(plaintext) {
        Ok(record) => match decrypt(&record) {
            Ok(p) => Some(p),
            Err(_) => None,
        },
        Err(_) => None,
    }
}

} // verus!

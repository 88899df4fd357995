use vstd::prelude::*;
use vstd::string::StringSliceAdditionalSpecFns;

use aes_gcm::aead::Aead;
use aes_gcm::{Aes256Gcm, Key, KeyInit, Nonce};
use rand::{thread_rng, Rng};

verus! {

#[verifier::external_type_specification]
#[verifier::external_body]
pub struct ExAeadError(aes_gcm::Error);

/// Longest plaintext, in bytes, that AES-GCM encrypts.
pub const PLAINTEXT_MAX: u64 = 68_719_476_736;

/// Length in bytes of the AES-256 key.
pub const KEY_LENGTH: usize = 32;

/// AES-256-GCM encryption of `plaintext` under the UTF-8 bytes of `key` and
/// `nonce`, with no associated data: the ciphertext followed by its tag.
pub uninterp spec fn sealed(key: Seq<char>, nonce: Seq<u8>, plaintext: Seq<u8>) -> Seq<u8>;

/// AES-256-GCM decryption of `ciphertext` under the UTF-8 bytes of `key` and
/// `nonce`: `None` where the tag does not authenticate it.
pub uninterp spec fn opened(key: Seq<char>, nonce: Seq<u8>, ciphertext: Seq<u8>) -> Option<Seq<u8>>;

/// Relies on rand's `thread_rng`, a cryptographically secure generator
/// seeded by the operating system: twelve uniformly random bytes.
#[verifier::external_body]
fn random_nonce_bytes() -> (r: [u8; 12]) {
    thread_rng().gen()
}

/// Relies on aes-gcm's `Aead::encrypt` for `Aes256Gcm`: it refuses only
/// plaintexts over `PLAINTEXT_MAX` bytes, appends a 16-byte tag, and
/// decrypting its output under the same key and nonce gives the plaintext.
#[verifier::external_body]
fn aes_gcm_encrypt(key: &str, nonce: &[u8; 12], plaintext: &[u8]) -> (r: Result<
    Vec<u8>,
    aes_gcm::Error,
>)
    requires
        key.spec_bytes().len() == KEY_LENGTH,
    ensures
        r is Ok <==> plaintext@.len() <= PLAINTEXT_MAX,
        r matches Ok(c) ==> {
            &&& c@ == sealed(key@, nonce@, plaintext@)
            &&& c@.len() == plaintext@.len() + 16
            &&& opened(key@, nonce@, c@) == Some(plaintext@)
        },
{
    let cipher = Aes256Gcm::new(Key::<Aes256Gcm>::from_slice(key.as_bytes()));
    cipher.encrypt(Nonce::from_slice(nonce), plaintext)
}

/// Relies on aes-gcm's `Aead::decrypt` for `Aes256Gcm`: its outcome depends
/// on the key, nonce and ciphertext alone.
#[verifier::external_body]
fn aes_gcm_decrypt(key: &str, nonce: &[u8; 12], ciphertext: &[u8]) -> (r: Result<
    Vec<u8>,
    aes_gcm::Error,
>)
    requires
        key.spec_bytes().len() == KEY_LENGTH,
    ensures
        match opened(key@, nonce@, ciphertext@) {
            Some(p) => r matches Ok(q) && q@ == p,
            None => r is Err,
        },
{
    let cipher = Aes256Gcm::new(Key::<Aes256Gcm>::from_slice(key.as_bytes()));
    cipher.decrypt(Nonce::from_slice(nonce), ciphertext)
}

#[derive(Debug)]
pub enum EncryptionError {
    InvalidKeyLength(u8),
    EncryptError,
    DecryptError,
}

/// The 96-bit nonce of one encryption.
#[derive(Debug, Clone, Copy)]
pub struct FixedNonce(pub [u8; 12]);

impl View for FixedNonce {
    type V = Seq<u8>;

    open spec fn view(&self) -> Seq<u8> {
        self.0@
    }
}

impl From<[u8; 12]> for FixedNonce {
    fn from(value: [u8; 12]) -> (r: FixedNonce) {
        FixedNonce(value)
    }
}

impl vstd::std_specs::convert::FromSpecImpl<[u8; 12]> for FixedNonce {
    open spec fn obeys_from_spec() -> bool {
        true
    }

    open spec fn from_spec(value: [u8; 12]) -> FixedNonce {
        FixedNonce(value)
    }
}

impl FixedNonce {
    pub fn bytes(&self) -> (r: [u8; 12])
        ensures
            r@ == self@,
    {
        self.0
    }
}

/// Encrypts `value` under `secret` and `nonce`; a key of any length but 32
/// bytes is refused.
pub fn encrypt(value: &Vec<u8>, secret: &str, nonce: &FixedNonce) -> (r: Result<Vec<u8>, EncryptionError>)
    ensures
        secret.spec_bytes().len() != KEY_LENGTH ==> (r matches Err(
            EncryptionError::InvalidKeyLength(n),
        ) && n == secret.spec_bytes().len() as u8),
        secret.spec_bytes().len() == KEY_LENGTH ==> {
            &&& value@.len() <= PLAINTEXT_MAX ==> (r matches Ok(c) && c@ == sealed(
                secret@,
                nonce@,
                value@,
            ) && c@.len() == value@.len() + 16 && opened(secret@, nonce@, c@) == Some(value@))
            &&& value@.len() > PLAINTEXT_MAX ==> r matches Err(EncryptionError::EncryptError)
        },
{
    let len = secret.as_bytes().len();
    if len != KEY_LENGTH {
        return Err(EncryptionError::InvalidKeyLength(#[verifier::truncate] (len as u8)));
    }
    match aes_gcm_encrypt(secret, &nonce.0, value.as_slice()) {
        Ok(c) => Ok(c),
        Err(_) => Err(EncryptionError::EncryptError),
    }
}

/// Decrypts `value` under `secret` and `nonce`; fails alike on a wrong key
/// and on altered data.
pub fn decrypt(value: &Vec<u8>, secret: &str, nonce: &FixedNonce) -> (r: Result<Vec<u8>, EncryptionError>)
    ensures
        secret.spec_bytes().len() != KEY_LENGTH ==> (r matches Err(
            EncryptionError::InvalidKeyLength(n),
        ) && n == secret.spec_bytes().len() as u8),
        secret.spec_bytes().len() == KEY_LENGTH ==> match opened(secret@, nonce@, value@) {
            Some(p) => r matches Ok(q) && q@ == p,
            None => r matches Err(EncryptionError::DecryptError),
        },
{
    let len = secret.as_bytes().len();
    if len != KEY_LENGTH {
        return Err(EncryptionError::InvalidKeyLength(#[verifier::truncate] (len as u8)));
    }
    match aes_gcm_decrypt(secret, &nonce.0, value.as_slice()) {
        Ok(p) => Ok(p),
        Err(_) => Err(EncryptionError::DecryptError),
    }
}

/// A fresh random 96-bit nonce.
pub fn generate_nonce() -> (r: FixedNonce)
    ensures
        r@.len() == 12,
{
    FixedNonce(random_nonce_bytes())
}

} // verus!
